//! Splitting a list of style names at whitespace.

use vstd::prelude::*;
use vstd::string::StrSliceExecFns;

verus! {

/// What `char::is_whitespace` says of `c`: whether it has the Unicode
/// `White_Space` property.
pub uninterp spec fn char_is_whitespace(c: char) -> bool;

/// Calls `char::is_whitespace`; its result is named, as it depends on
/// the character alone.
#[verifier::external_body]
fn is_whitespace(c: char) -> (r: bool)
    ensures
        r == char_is_whitespace(c),
{
    c.is_whitespace()
}

/// Reading `s` from the left, where `ws` tells which characters are
/// whitespace: the words completed so far, and the word being read.
pub open spec fn scan(s: Seq<char>, ws: Seq<bool>) -> (Seq<Seq<char>>, Seq<char>)
    decreases s.len(),
{
    if s.len() == 0 {
        (Seq::empty(), Seq::empty())
    } else {
        let (done, cur) = scan(s.drop_last(), ws.take(s.len() - 1));
        if ws[s.len() - 1] {
            if cur.len() > 0 {
                (done.push(cur), Seq::empty())
            } else {
                (done, Seq::empty())
            }
        } else {
            (done, cur.push(s.last()))
        }
    }
}

/// The words of `s` where `ws` tells which characters are whitespace: its
/// longest runs of other characters, in order.
pub open spec fn words_by(s: Seq<char>, ws: Seq<bool>) -> Seq<Seq<char>> {
    let (done, cur) = scan(s, ws);
    if cur.len() > 0 {
        done.push(cur)
    } else {
        done
    }
}

/// Which characters of `s` are whitespace.
pub open spec fn whitespace_flags(s: Seq<char>) -> Seq<bool> {
    Seq::new(s.len(), |i: int| char_is_whitespace(s[i]))
}

/// The words of `s`: its longest runs of characters that are not
/// whitespace, in order.
pub open spec fn words_of(s: Seq<char>) -> Seq<Seq<char>> {
    words_by(s, whitespace_flags(s))
}

/// The words of `s`, where `ws` tells which of its characters are
/// whitespace.
pub fn split_at_marks(s: &str, ws: &Vec<bool>) -> (r: Vec<String>)
    requires
        ws@.len() == s@.len(),
    ensures
        r@.len() == words_by(s@, ws@).len(),
        forall|i: int| 0 <= i < r@.len() ==> #[trigger] r@[i]@ == words_by(s@, ws@)[i],
{
    let n = s.unicode_len();
    let mut words: Vec<String> = Vec::new();
    let mut start: usize = 0;
    let mut in_word = false;
    for i in 0..n
        invariant
            n == s@.len(),
            n == ws@.len(),
            start <= i,
            scan(s@.take(i as int), ws@.take(i as int)).0.len() == words@.len(),
            forall|j: int|
                0 <= j < words@.len() ==> #[trigger] words@[j]@ == scan(
                    s@.take(i as int),
                    ws@.take(i as int),
                ).0[j],
            scan(s@.take(i as int), ws@.take(i as int)).1 == (if in_word {
                s@.subrange(start as int, i as int)
            } else {
                Seq::<char>::empty()
            }),
            in_word ==> start < i,
    {
        let ghost before = s@.take(i as int);
        let ghost before_ws = ws@.take(i as int);
        proof {
            assert(s@.take(i + 1).drop_last() =~= before);
            assert(ws@.take(i + 1).take(i as int) =~= before_ws);
            assert(ws@.take(i + 1)[i as int] == ws@[i as int]);
        }
        if ws[i] {
            if in_word {
                let w = s.substring_char(start, i).to_owned();
                words.push(w);
                in_word = false;
            }
        } else {
            let c = s.get_char(i);
            if !in_word {
                start = i;
                in_word = true;
            }
            proof {
                assert(s@.take(i + 1).last() == c);
                assert(s@.subrange(start as int, i + 1) =~= scan(before, before_ws).1.push(c));
            }
        }
    }
    proof {
        assert(s@.take(n as int) =~= s@);
        assert(ws@.take(n as int) =~= ws@);
    }
    if in_word {
        let w = s.substring_char(start, n).to_owned();
        words.push(w);
    }
    words
}

/// The words of `s`, as `str::split_whitespace` gives them.
pub fn split_whitespace(s: &str) -> (r: Vec<String>)
    ensures
        r@.len() == words_of(s@).len(),
        forall|i: int| 0 <= i < r@.len() ==> #[trigger] r@[i]@ == words_of(s@)[i],
{
    let n = s.unicode_len();
    let mut ws: Vec<bool> = Vec::new();
    for i in 0..n
        invariant
            n == s@.len(),
            ws@ =~= whitespace_flags(s@).take(i as int),
    {
        let c = s.get_char(i);
        ws.push(is_whitespace(c));
    }
    proof {
        assert(whitespace_flags(s@).take(n as int) =~= whitespace_flags(s@));
    }
    split_at_marks(s, &ws)
}

/// The words are clean: each is non-empty and made of characters that are
/// not whitespace.
pub proof fn lemma_words_clean(s: Seq<char>, ws: Seq<bool>, k: int, j: int)
    requires
        ws.len() == s.len(),
        0 <= k < words_by(s, ws).len(),
        0 <= j < words_by(s, ws)[k].len(),
    ensures
        words_by(s, ws)[k].len() > 0,
        exists|i: int| 0 <= i < s.len() && !ws[i] && s[i] == #[trigger] words_by(s, ws)[k][j],
{
    lemma_scan_clean(s, ws);
    let (done, cur) = scan(s, ws);
    if k < done.len() {
        assert(words_by(s, ws)[k] == done[k]);
    } else {
        assert(words_by(s, ws)[k] == cur);
    }
}

proof fn lemma_scan_clean(s: Seq<char>, ws: Seq<bool>)
    requires
        ws.len() == s.len(),
    ensures
        forall|k: int| 0 <= k < scan(s, ws).0.len() ==> #[trigger] scan(s, ws).0[k].len() > 0,
        forall|k: int, j: int|
            0 <= k < scan(s, ws).0.len() && 0 <= j < scan(s, ws).0[k].len() ==> exists|i: int|
                0 <= i < s.len() && !ws[i] && s[i] == #[trigger] scan(s, ws).0[k][j],
        forall|j: int|
            0 <= j < scan(s, ws).1.len() ==> exists|i: int|
                0 <= i < s.len() && !ws[i] && s[i] == #[trigger] scan(s, ws).1[j],
    decreases s.len(),
{
    if s.len() > 0 {
        let d = s.drop_last();
        let dw = ws.take(s.len() - 1);
        lemma_scan_clean(d, dw);
        let (done, cur) = scan(d, dw);
        assert forall|k: int, j: int|
            0 <= k < scan(s, ws).0.len() && 0 <= j < scan(s, ws).0[k].len() implies exists|i: int|
                0 <= i < s.len() && !ws[i] && s[i] == #[trigger] scan(s, ws).0[k][j] by {
            let w = scan(s, ws).0[k][j];
            if k < done.len() {
                assert(scan(s, ws).0[k] == done[k]);
                let i = choose|i: int| 0 <= i < d.len() && !dw[i] && d[i] == #[trigger] done[k][j];
                assert(s[i] == d[i] && ws[i] == dw[i]);
            } else {
                assert(scan(s, ws).0[k] == cur);
                let i = choose|i: int| 0 <= i < d.len() && !dw[i] && d[i] == #[trigger] cur[j];
                assert(s[i] == d[i] && ws[i] == dw[i]);
            }
        }
        assert forall|j: int| 0 <= j < scan(s, ws).1.len() implies exists|i: int|
            0 <= i < s.len() && !ws[i] && s[i] == #[trigger] scan(s, ws).1[j] by {
            if j < cur.len() {
                let i = choose|i: int| 0 <= i < d.len() && !dw[i] && d[i] == #[trigger] cur[j];
                assert(s[i] == d[i] && ws[i] == dw[i]);
            } else {
                assert(scan(s, ws).1[j] == s[s.len() - 1]);
            }
        }
    }
}

/// The characters of `s` that are not whitespace, in order.
pub open spec fn non_whitespace(s: Seq<char>) -> Seq<char>
    decreases s.len(),
{
    if s.len() == 0 {
        Seq::empty()
    } else if char_is_whitespace(s.last()) {
        non_whitespace(s.drop_last())
    } else {
        non_whitespace(s.drop_last()).push(s.last())
    }
}

/// Words written one after the other.
pub open spec fn joined(words: Seq<Seq<char>>) -> Seq<char>
    decreases words.len(),
{
    if words.len() == 0 {
        Seq::empty()
    } else {
        joined(words.drop_last()) + words.last()
    }
}

/// The characters of `s` not marked by `ws`, in order.
spec fn unmarked(s: Seq<char>, ws: Seq<bool>) -> Seq<char>
    decreases s.len(),
{
    if s.len() == 0 {
        Seq::empty()
    } else if ws[s.len() - 1] {
        unmarked(s.drop_last(), ws.take(s.len() - 1))
    } else {
        unmarked(s.drop_last(), ws.take(s.len() - 1)).push(s.last())
    }
}

proof fn lemma_scan_keeps(s: Seq<char>, ws: Seq<bool>)
    requires
        ws.len() == s.len(),
    ensures
        joined(scan(s, ws).0) + scan(s, ws).1 == unmarked(s, ws),
    decreases s.len(),
{
    if s.len() > 0 {
        let d = s.drop_last();
        let dw = ws.take(s.len() - 1);
        lemma_scan_keeps(d, dw);
        let (done, cur) = scan(d, dw);
        if ws[s.len() - 1] {
            if cur.len() > 0 {
                assert(done.push(cur).drop_last() =~= done);
                assert(joined(done.push(cur)) + Seq::<char>::empty() =~= joined(done) + cur);
            } else {
                assert(joined(done) + Seq::<char>::empty() =~= joined(done) + cur);
            }
        } else {
            assert(joined(done) + cur.push(s.last()) =~= (joined(done) + cur).push(s.last()));
        }
    }
}

proof fn lemma_unmarked_flags(s: Seq<char>)
    ensures
        unmarked(s, whitespace_flags(s)) == non_whitespace(s),
    decreases s.len(),
{
    if s.len() > 0 {
        assert(whitespace_flags(s).take(s.len() - 1) =~= whitespace_flags(s.drop_last()));
        lemma_unmarked_flags(s.drop_last());
    }
}

/// No character is lost but whitespace: the words, written one after the
/// other, are the characters of `s` that are not whitespace, in order.
pub proof fn lemma_words_keep_the_rest(s: Seq<char>)
    ensures
        joined(words_of(s)) == non_whitespace(s),
{
    let ws = whitespace_flags(s);
    lemma_scan_keeps(s, ws);
    lemma_unmarked_flags(s);
    let (done, cur) = scan(s, ws);
    if cur.len() > 0 {
        assert(done.push(cur).drop_last() =~= done);
    } else {
        assert(joined(done) + cur =~= joined(done));
    }
}

/// Each word is non-empty and holds no whitespace character.
pub proof fn lemma_words_hold_no_whitespace(s: Seq<char>, k: int, j: int)
    requires
        0 <= k < words_of(s).len(),
        0 <= j < words_of(s)[k].len(),
    ensures
        words_of(s)[k].len() > 0,
        !char_is_whitespace(words_of(s)[k][j]),
{
    lemma_words_clean(s, whitespace_flags(s), k, j);
}

proof fn lemma_scan_unbroken(s: Seq<char>, ws: Seq<bool>)
    requires
        ws.len() == s.len(),
        forall|i: int| 0 <= i < s.len() ==> !ws[i],
    ensures
        scan(s, ws) == (Seq::<Seq<char>>::empty(), s),
    decreases s.len(),
{
    if s.len() > 0 {
        let d = s.drop_last();
        let dw = ws.take(s.len() - 1);
        lemma_scan_unbroken(d, dw);
        assert(d.push(s.last()) =~= s);
    } else {
        assert(s =~= Seq::<char>::empty());
    }
}

proof fn lemma_scan_concat(p: Seq<char>, wp: Seq<bool>, q: Seq<char>, wq: Seq<bool>)
    requires
        wp.len() == p.len(),
        wq.len() == q.len(),
        scan(p, wp).1.len() == 0,
    ensures
        scan(p + q, wp + wq) == (scan(p, wp).0 + scan(q, wq).0, scan(q, wq).1),
    decreases q.len(),
{
    if q.len() == 0 {
        assert(p + q =~= p);
        assert(wp + wq =~= wp);
        assert(scan(p, wp).0 + scan(q, wq).0 =~= scan(p, wp).0);
        assert(scan(p, wp).1 =~= scan(q, wq).1);
    } else {
        let n = (p + q).len();
        let q1 = q.drop_last();
        let wq1 = wq.take(q.len() - 1);
        assert((p + q).drop_last() =~= p + q1);
        assert((wp + wq).take(n - 1) =~= wp + wq1);
        assert((wp + wq)[n - 1] == wq[q.len() - 1]);
        assert((p + q).last() == q.last());
        lemma_scan_concat(p, wp, q1, wq1);
        let (pd, pc) = scan(p, wp);
        let (qd, qc) = scan(q1, wq1);
        if wq[q.len() - 1] {
            if qc.len() > 0 {
                assert((pd + qd).push(qc) =~= pd + qd.push(qc));
            }
        }
    }
}

/// Whitespace separates words: the words of `s1`, a whitespace character
/// and `s2` are the words of `s1` followed by those of `s2`.
pub proof fn lemma_whitespace_separates(s1: Seq<char>, c: char, s2: Seq<char>)
    requires
        char_is_whitespace(c),
    ensures
        words_of(s1.push(c) + s2) == words_of(s1) + words_of(s2),
{
    let p = s1.push(c);
    let s = p + s2;
    assert(whitespace_flags(s) =~= whitespace_flags(p) + whitespace_flags(s2));
    assert(p.drop_last() =~= s1);
    assert(whitespace_flags(p).take(p.len() - 1) =~= whitespace_flags(s1));
    let (d1, c1) = scan(s1, whitespace_flags(s1));
    assert(scan(p, whitespace_flags(p)).0 == words_of(s1));
    lemma_scan_concat(p, whitespace_flags(p), s2, whitespace_flags(s2));
    let (d2, c2) = scan(s2, whitespace_flags(s2));
    if c2.len() > 0 {
        assert((words_of(s1) + d2).push(c2) =~= words_of(s1) + d2.push(c2));
    }
}

/// A string of nothing but whitespace, the empty one included, has no
/// words.
pub proof fn lemma_blank_has_no_words(s: Seq<char>)
    requires
        forall|i: int| 0 <= i < s.len() ==> char_is_whitespace(#[trigger] s[i]),
    ensures
        words_of(s).len() == 0,
{
    lemma_words_keep_the_rest(s);
    lemma_blank_keeps_nothing(s);
    if words_of(s).len() > 0 {
        lemma_scan_clean(s, whitespace_flags(s));
        let (done, cur) = scan(s, whitespace_flags(s));
        if done.len() > 0 {
            assert(words_of(s)[0] == done[0]);
        } else {
            assert(words_of(s)[0] == cur);
        }
        lemma_joined_nonempty(words_of(s));
    }
}

proof fn lemma_blank_keeps_nothing(s: Seq<char>)
    requires
        forall|i: int| 0 <= i < s.len() ==> char_is_whitespace(#[trigger] s[i]),
    ensures
        non_whitespace(s).len() == 0,
    decreases s.len(),
{
    if s.len() > 0 {
        assert(char_is_whitespace(s[s.len() - 1]));
        lemma_blank_keeps_nothing(s.drop_last());
    }
}

proof fn lemma_joined_nonempty(words: Seq<Seq<char>>)
    requires
        words.len() > 0,
        words[0].len() > 0,
    ensures
        joined(words).len() > 0,
    decreases words.len(),
{
    if words.len() > 1 {
        lemma_joined_nonempty(words.drop_last());
    }
}

/// A non-empty string without whitespace is one word: itself.
pub proof fn lemma_unbroken_is_one_word(s: Seq<char>)
    requires
        s.len() > 0,
        forall|i: int| 0 <= i < s.len() ==> !char_is_whitespace(#[trigger] s[i]),
    ensures
        words_of(s) == seq![s],
{
    lemma_scan_unbroken(s, whitespace_flags(s));
    assert(Seq::<Seq<char>>::empty().push(s) =~= seq![s]);
}

} // verus!
