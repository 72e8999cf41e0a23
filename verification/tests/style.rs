use srs2dge_gui::style::words::{split_at_marks, split_whitespace};
use srs2dge_gui::style::{MergeStyles, MergeableStyle, Style, StyleRef, StyleSheet};

type S = MergeableStyle<u32, u8, i32, i16, char>;

fn style(color: Option<u32>, size: Option<i32>, align: Option<char>) -> S {
    Style { color, texture: None, size, offset: None, text_align: align }
}

#[test]
fn merge_prefers_later() {
    let a = style(Some(1), Some(10), None);
    let b = style(None, Some(20), Some('c'));
    let m = a.merge(b);
    assert_eq!((m.color, m.size, m.text_align, m.texture), (Some(1), Some(20), Some('c'), None));
    assert_eq!(Some(3).merge(None), Some(3));
    assert_eq!(Some(3).merge(Some(4)), Some(4));
    assert_eq!(None::<u8>.merge(None), None);
}

#[test]
fn finalize_fills_defaults() {
    let b = style(Some(9), None, None).finalize();
    assert_eq!((b.color, b.texture, b.size, b.offset, b.text_align), (9, 0, 0, 0, '\0'));
    let s = style(None, Some(5), Some('x'));
    let r = s.as_ref().finalize();
    assert_eq!((r.color, r.size, r.text_align), (0, 5, 'x'));
}

#[test]
fn words() {
    let w = split_whitespace("  * fill_widget\tyellow \n");
    assert_eq!(w, vec!["*".to_string(), "fill_widget".to_string(), "yellow".to_string()]);
    assert!(split_whitespace("").is_empty());
    assert!(split_whitespace(" \t ").is_empty());
    assert_eq!(split_whitespace("one"), vec!["one".to_string()]);
}

#[test]
fn words_at_given_marks() {
    let marks = vec![false, true, false, false, true, true, false];
    assert_eq!(split_at_marks("ab,cd,e", &marks), vec!["a".to_string(), ",c".to_string(), "e".to_string()]);
    assert_eq!(split_at_marks("ab", &vec![true, true]), Vec::<String>::new());
    // non-breaking and ideographic spaces are whitespace too
    assert_eq!(split_whitespace("a\u{a0}b\u{3000}c"), vec!["a".to_string(), "b".to_string(), "c".to_string()]);
}

fn sheet() -> StyleSheet<u32, u8, i32, i16, char> {
    let mut sheet = StyleSheet::new();
    sheet.set_default(style(Some(1), None, Some('d')));
    sheet.insert("*".to_string(), style(None, Some(100), None));
    sheet.insert("fill_widget".to_string(), style(Some(2), None, None));
    sheet.insert("yellow".to_string(), style(Some(3), None, Some('y')));
    sheet
}

#[test]
fn sheet_get_merges_over_default() {
    let mut s = sheet();
    let got = s.get("fill_widget").unwrap();
    assert_eq!((got.color, got.size, got.text_align), (Some(&2), None, Some(&'d')));
    assert!(s.get("missing").is_none());
    assert!(s.contains("yellow"));
    assert!(!s.contains("missing"));
}

#[test]
fn sheet_marks_used() {
    let mut s = sheet();
    let mut unused = s.check_unused();
    unused.sort();
    assert_eq!(unused, vec!["*", "fill_widget", "yellow"]);
    s.get("yellow");
    let mut unused = s.check_unused();
    unused.sort();
    assert_eq!(unused, vec!["*", "fill_widget"]);
    s.reset_unused();
    assert_eq!(s.check_unused().len(), 3);
    // inserting again marks the style unused and replaces it
    s.get("*");
    s.insert("*".to_string(), style(Some(7), None, None));
    assert_eq!(s.check_unused().len(), 3);
    assert_eq!(s.get("*").unwrap().color, Some(&7));
}

#[test]
fn from_styles_later_names_win() {
    let mut s = sheet();
    let r: StyleRef<u32, u8, i32, i16, char> = Style::from_styles("* fill_widget yellow", &mut s);
    assert_eq!((r.color, r.size, r.text_align), (Some(&3), Some(&100), Some(&'y')));
    let mut s = sheet();
    // each picked style carries the default under it, so the default's
    // alignment in `fill_widget` overrides the one from `yellow`
    let r = Style::from_styles("yellow fill_widget nothing", &mut s);
    assert_eq!((r.color, r.size, r.text_align), (Some(&2), None, Some(&'d')));
    assert_eq!(s.check_unused(), vec!["*"]);
    let mut s = sheet();
    let r = Style::from_styles("", &mut s);
    assert_eq!((r.color, r.text_align), (Some(&1), Some(&'d')));
}

#[test]
fn take_default() {
    let mut s = sheet();
    let d = s.take_default();
    assert_eq!(d.color, Some(1));
    assert_eq!(s.get_default().color, None);
}

#[test]
fn merge_is_associative() {
    let opts = [None, Some(1u8), Some(2u8)];
    for a in opts {
        for b in opts {
            for c in opts {
                assert_eq!(a.merge(b).merge(c), a.merge(b.merge(c)));
            }
        }
    }
}
