//! A sheet of named styles, and the styles of a widget picked from it by a
//! whitespace-separated list of names.

use super::{Mergeable, MergeStyles, Ref, Style};
use crate::style::words::split_whitespace;
use vstd::prelude::*;
use vstd::string::StrSliceExecFns;

verus! {

/// The table an entry list holds: each name maps to whether its style was
/// used since the last reset, and the style.
pub open spec fn table_of<V>(e: Seq<(String, bool, V)>) -> Map<Seq<char>, (bool, V)>
    decreases e.len(),
{
    if e.len() == 0 {
        Map::empty()
    } else {
        let last = e.last();
        table_of(e.drop_last()).insert(last.0@, (last.1, last.2))
    }
}

/// No name occurs twice.
pub open spec fn unique_names<V>(e: Seq<(String, bool, V)>) -> bool {
    forall|i: int, j: int| 0 <= i < e.len() && 0 <= j < e.len() && i != j ==> e[i].0@ != e[j].0@
}

proof fn lemma_table_dom<V>(e: Seq<(String, bool, V)>, k: Seq<char>)
    ensures
        table_of(e).dom().contains(k) <==> exists|i: int| 0 <= i < e.len() && #[trigger] e[i].0@ == k,
    decreases e.len(),
{
    if e.len() > 0 {
        lemma_table_dom(e.drop_last(), k);
        if table_of(e.drop_last()).dom().contains(k) {
            let i = choose|i: int| 0 <= i < e.drop_last().len() && #[trigger] e.drop_last()[i].0@ == k;
            assert(e[i].0@ == k);
        }
        if exists|i: int| 0 <= i < e.len() && #[trigger] e[i].0@ == k {
            let i = choose|i: int| 0 <= i < e.len() && #[trigger] e[i].0@ == k;
            if i < e.len() - 1 {
                assert(e.drop_last()[i].0@ == k);
            }
        }
    }
}

proof fn lemma_table_index<V>(e: Seq<(String, bool, V)>, i: int)
    requires
        unique_names(e),
        0 <= i < e.len(),
    ensures
        table_of(e).dom().contains(e[i].0@),
        table_of(e)[e[i].0@] == (e[i].1, e[i].2),
    decreases e.len(),
{
    if i < e.len() - 1 {
        assert(unique_names(e.drop_last()));
        lemma_table_index(e.drop_last(), i);
        assert(e.drop_last()[i] == e[i]);
    }
}

proof fn lemma_table_update<V>(e: Seq<(String, bool, V)>, i: int, entry: (String, bool, V))
    requires
        unique_names(e),
        0 <= i < e.len(),
        entry.0@ == e[i].0@,
    ensures
        unique_names(e.update(i, entry)),
        table_of(e.update(i, entry)) == table_of(e).insert(entry.0@, (entry.1, entry.2)),
    decreases e.len(),
{
    let u = e.update(i, entry);
    assert(u.drop_last() =~= if i == e.len() - 1 {
        e.drop_last()
    } else {
        e.drop_last().update(i, entry)
    });
    if i == e.len() - 1 {
        assert(table_of(u) =~= table_of(e).insert(entry.0@, (entry.1, entry.2)));
    } else {
        assert(unique_names(e.drop_last()));
        lemma_table_update(e.drop_last(), i, entry);
        assert(e.last().0@ != entry.0@);
        assert(table_of(u) =~= table_of(e).insert(entry.0@, (entry.1, entry.2)));
    }
}

/// The names of the entries not marked used, in order.
pub open spec fn unused_names<V>(e: Seq<(String, bool, V)>) -> Seq<Seq<char>>
    decreases e.len(),
{
    if e.len() == 0 {
        Seq::empty()
    } else if e.last().1 {
        unused_names(e.drop_last())
    } else {
        unused_names(e.drop_last()).push(e.last().0@)
    }
}

proof fn lemma_unused_names<V>(e: Seq<(String, bool, V)>)
    requires
        unique_names(e),
    ensures
        forall|k: Seq<char>|
            unused_names(e).contains(k) <==> (table_of(e).dom().contains(k) && !table_of(e)[k].0),
        forall|i: int, j: int|
            0 <= i < unused_names(e).len() && 0 <= j < unused_names(e).len() && i != j
                ==> unused_names(e)[i] != unused_names(e)[j],
        forall|i: int|
            #![trigger unused_names(e)[i]]
            0 <= i < unused_names(e).len() ==> exists|m: int| 0 <= m < e.len() && #[trigger] e[m].0@ == unused_names(e)[i],
    decreases e.len(),
{
    if e.len() > 0 {
        let d = e.drop_last();
        assert(unique_names(d));
        lemma_unused_names(d);
        let last = e.last();
        lemma_table_dom(d, last.0@);
        assert(!table_of(d).dom().contains(last.0@)) by {
            if table_of(d).dom().contains(last.0@) {
                let m = choose|m: int| 0 <= m < d.len() && #[trigger] d[m].0@ == last.0@;
                assert(e[m].0@ == e[e.len() - 1].0@);
            }
        }
        assert forall|i: int| #![trigger unused_names(e)[i]] 0 <= i < unused_names(e).len() implies exists|m: int|
            0 <= m < e.len() && #[trigger] e[m].0@ == unused_names(e)[i] by {
            if i < unused_names(d).len() {
                let m = choose|m: int| 0 <= m < d.len() && #[trigger] d[m].0@ == unused_names(d)[i];
                assert(e[m].0@ == unused_names(e)[i]);
            } else {
                assert(e[e.len() - 1].0@ == unused_names(e)[i]);
            }
        }
        assert forall|k: Seq<char>|
            unused_names(e).contains(k) <==> (table_of(e).dom().contains(k) && !table_of(e)[k].0) by {
            if unused_names(e).contains(k) {
                let i = choose|i: int| 0 <= i < unused_names(e).len() && unused_names(e)[i] == k;
                if i < unused_names(d).len() {
                    assert(unused_names(d).contains(k));
                }
            }
            if k != last.0@ && table_of(e).dom().contains(k) && !table_of(e)[k].0 {
                assert(unused_names(d).contains(k));
                let i = choose|i: int| 0 <= i < unused_names(d).len() && unused_names(d)[i] == k;
                assert(unused_names(e)[i] == k);
            }
            if k == last.0@ && !last.1 {
                assert(unused_names(e)[unused_names(e).len() - 1] == k);
            }
        }
        if !last.1 {
            assert forall|i: int| 0 <= i < unused_names(d).len() implies unused_names(d)[i] != last.0@ by {
                assert(unused_names(d).contains(unused_names(d)[i]));
            }
        }
    }
}

/// Named styles, a default style, and a mark on each named style that
/// tells whether it was used since the marks were last reset.
pub struct StyleSheet<C, X, S, O, A> {
    map: Vec<(String, bool, Style<C, X, S, O, A, Mergeable>)>,
    default: Style<C, X, S, O, A, Mergeable>,
}

/// What `names` pick from a sheet whose table is `table` and whose default
/// is `default`: the default, merged with each named style that exists
/// (itself merged over the default), in order; later names win.
pub open spec fn picked<'a, C: 'a, X: 'a, S: 'a, O: 'a, A: 'a>(
    table: Map<Seq<char>, (bool, Style<C, X, S, O, A, Mergeable>)>,
    default: Style<C, X, S, O, A, Mergeable>,
    names: Seq<Seq<char>>,
) -> Style<C, X, S, O, A, Ref<'a>>
    decreases names.len(),
{
    if names.len() == 0 {
        borrowed(default)
    } else {
        let before = picked(table, default, names.drop_last());
        let name = names.last();
        if table.dom().contains(name) {
            before.merged(borrowed(default).merged(borrowed(table[name].1)))
        } else {
            before
        }
    }
}

/// The style `st`, borrowed.
pub open spec fn borrowed<'a, C: 'a, X: 'a, S: 'a, O: 'a, A: 'a>(
    st: Style<C, X, S, O, A, Mergeable>,
) -> Style<C, X, S, O, A, Ref<'a>> {
    Style {
        color: borrow_opt(st.color),
        texture: borrow_opt(st.texture),
        size: borrow_opt(st.size),
        offset: borrow_opt(st.offset),
        text_align: borrow_opt(st.text_align),
    }
}

pub open spec fn borrow_opt<'a, T: 'a>(o: Option<T>) -> Option<&'a T> {
    match o {
        Some(v) => Some(&v),
        None => None,
    }
}

/// `table` with the names in `names` marked used.
pub open spec fn marked<V>(table: Map<Seq<char>, (bool, V)>, names: Seq<Seq<char>>) -> Map<
    Seq<char>,
    (bool, V),
>
    decreases names.len(),
{
    if names.len() == 0 {
        table
    } else {
        let before = marked(table, names.drop_last());
        let name = names.last();
        if before.dom().contains(name) {
            before.insert(name, (true, before[name].1))
        } else {
            before
        }
    }
}

impl<C, X, S, O, A> StyleSheet<C, X, S, O, A> {
    /// The named styles, with their marks.
    pub closed spec fn table(&self) -> Map<Seq<char>, (bool, Style<C, X, S, O, A, Mergeable>)> {
        table_of(self.map@)
    }

    pub closed spec fn default_style(&self) -> Style<C, X, S, O, A, Mergeable> {
        self.default
    }

    pub closed spec fn wf(&self) -> bool {
        unique_names(self.map@)
    }

    /// A sheet without named styles, whose default sets nothing.
    pub fn new() -> (r: Self)
        ensures
            r.wf(),
            r.table() == Map::<Seq<char>, (bool, Style<C, X, S, O, A, Mergeable>)>::empty(),
            r.default_style() == Style::<C, X, S, O, A, Mergeable>::empty_spec(),
    {
        StyleSheet { map: Vec::new(), default: Style::empty() }
    }

    /// Replaces the default style with one that sets nothing, and returns
    /// the old one.
    pub fn take_default(&mut self) -> (r: Style<C, X, S, O, A, Mergeable>)
        ensures
            r == old(self).default_style(),
            final(self).default_style() == Style::<C, X, S, O, A, Mergeable>::empty_spec(),
            final(self).table() == old(self).table(),
            final(self).wf() == old(self).wf(),
    {
        self.set_default(Style::empty())
    }

    /// Replaces the default style, and returns the old one.
    pub fn set_default(&mut self, default: Style<C, X, S, O, A, Mergeable>) -> (r: Style<
        C,
        X,
        S,
        O,
        A,
        Mergeable,
    >)
        ensures
            r == old(self).default_style(),
            final(self).default_style() == default,
            final(self).table() == old(self).table(),
            final(self).wf() == old(self).wf(),
    {
        let mut default = default;
        core::mem::swap(&mut default, &mut self.default);
        default
    }

    /// The default style, borrowed.
    pub fn get_default(&self) -> (r: Style<C, X, S, O, A, Ref<'_>>)
        ensures
            r == borrowed::<'_, C, X, S, O, A>(self.default_style()),
    {
        self.default.as_ref()
    }

    /// The position of the entry named `name`.
    fn position(&self, name: &String) -> (r: Option<usize>)
        requires
            self.wf(),
        ensures
            match r {
                Some(i) => i < self.map@.len() && self.map@[i as int].0@ == name@,
                None => forall|i: int| 0 <= i < self.map@.len() ==> self.map@[i].0@ != name@,
            },
    {
        let n = self.map.len();
        for i in 0..n
            invariant
                n == self.map@.len(),
                forall|j: int| 0 <= j < i ==> self.map@[j].0@ != name@,
        {
            if self.map[i].0 == *name {
                return Some(i);
            }
        }
        None
    }

    /// Whether a style is named `name`.
    pub fn contains(&self, name: &str) -> (r: bool)
        requires
            self.wf(),
        ensures
            r == self.table().dom().contains(name@),
    {
        let key = name.to_owned();
        let r = self.position(&key);
        proof {
            lemma_table_dom(self.map@, name@);
            if r is Some {
                assert(self.map@[r->0 as int].0@ == name@);
            }
        }
        r.is_some()
    }

    /// insert a style to this stylesheet
    ///
    /// mark it as unused
    pub fn insert(&mut self, name: String, value: Style<C, X, S, O, A, Mergeable>)
        requires
            old(self).wf(),
        ensures
            final(self).wf(),
            final(self).table() == old(self).table().insert(name@, (false, value)),
            final(self).default_style() == old(self).default_style(),
    {
        match self.position(&name) {
            Some(i) => {
                let ghost before = self.map@;
                let ghost key = name@;
                let entry = &mut self.map[i];
                *entry = (name, false, value);
                proof {
                    assert(self.map@ == before.update(i as int, (self.map@[i as int].0, false, value)));
                    lemma_table_update(before, i as int, self.map@[i as int]);
                }
            },
            None => {
                let ghost before = self.map@;
                self.map.push((name, false, value));
                proof {
                    assert(self.map@.drop_last() =~= before);
                }
            },
        }
    }

    /// Marks the style named `name` used.
    fn mark_used(&mut self, name: &String)
        requires
            old(self).wf(),
        ensures
            final(self).wf(),
            final(self).default_style() == old(self).default_style(),
            final(self).table() == (if old(self).table().dom().contains(name@) {
                old(self).table().insert(name@, (true, old(self).table()[name@].1))
            } else {
                old(self).table()
            }),
    {
        proof {
            lemma_table_dom(self.map@, name@);
        }
        match self.position(name) {
            Some(i) => {
                let ghost before = self.map@;
                let entry = &mut self.map[i];
                entry.1 = true;
                proof {
                    lemma_table_index(before, i as int);
                    lemma_table_update(before, i as int, self.map@[i as int]);
                }
            },
            None => {},
        }
    }

    /// The style named `name`, merged over the default, without marking it.
    fn lookup(&self, name: &String) -> (r: Option<Style<C, X, S, O, A, Ref<'_>>>)
        requires
            self.wf(),
        ensures
            match r {
                Some(st) => self.table().dom().contains(name@) && st == borrowed::<'_, C, X, S, O, A>(
                    self.default_style(),
                ).merged(borrowed::<'_, C, X, S, O, A>(self.table()[name@].1)),
                None => !self.table().dom().contains(name@),
            },
    {
        proof {
            lemma_table_dom(self.map@, name@);
        }
        match self.position(name) {
            Some(i) => {
                proof {
                    lemma_table_index(self.map@, i as int);
                }
                Some(self.default.as_ref().merge(self.map[i].2.as_ref()))
            },
            None => None,
        }
    }

    /// get one style from this stylesheet
    ///
    /// mark it as used
    pub fn get(&mut self, name: &str) -> (r: Option<Style<C, X, S, O, A, Ref<'_>>>)
        requires
            old(self).wf(),
        ensures
            final(self).wf(),
            final(self).default_style() == old(self).default_style(),
            final(self).table() == marked(old(self).table(), seq![name@]),
            match r {
                Some(st) => old(self).table().dom().contains(name@) && st == borrowed::<
                    '_,
                    C,
                    X,
                    S,
                    O,
                    A,
                >(old(self).default_style()).merged(
                    borrowed::<'_, C, X, S, O, A>(old(self).table()[name@].1),
                ),
                None => !old(self).table().dom().contains(name@),
            },
    {
        let key = name.to_owned();
        self.mark_used(&key);
        proof {
            assert(seq![name@].drop_last() =~= Seq::<Seq<char>>::empty());
            reveal_with_fuel(marked, 2);
        }
        let this: &Self = self;
        this.lookup(&key)
    }

    /// The names of all styles not used since the marks were last reset.
    pub fn check_unused(&self) -> (r: Vec<&str>)
        requires
            self.wf(),
        ensures
            forall|k: Seq<char>|
                (exists|i: int| 0 <= i < r@.len() && #[trigger] r@[i]@ == k) <==> (self.table().dom().contains(k)
                    && !self.table()[k].0),
            forall|i: int, j: int| 0 <= i < r@.len() && 0 <= j < r@.len() && i != j ==> r@[i]@ != r@[j]@,
    {
        let mut r: Vec<&str> = Vec::new();
        let n = self.map.len();
        for i in 0..n
            invariant
                n == self.map@.len(),
                r@.len() == unused_names(self.map@.take(i as int)).len(),
                forall|j: int| 0 <= j < r@.len() ==> #[trigger] r@[j]@ == unused_names(self.map@.take(i as int))[j],
        {
            proof {
                assert(self.map@.take(i + 1).drop_last() =~= self.map@.take(i as int));
            }
            if !self.map[i].1 {
                r.push(self.map[i].0.as_str());
            }
        }
        proof {
            assert(self.map@.take(n as int) =~= self.map@);
            lemma_unused_names(self.map@);
            assert forall|k: Seq<char>|
                (exists|i: int| 0 <= i < r@.len() && #[trigger] r@[i]@ == k) <==> (self.table().dom().contains(k)
                    && !self.table()[k].0) by {
                assert(unused_names(self.map@).contains(k) <==> (table_of(self.map@).dom().contains(k)
                    && !table_of(self.map@)[k].0));
                if exists|i: int| 0 <= i < r@.len() && #[trigger] r@[i]@ == k {
                    let i = choose|i: int| 0 <= i < r@.len() && #[trigger] r@[i]@ == k;
                    assert(unused_names(self.map@)[i] == k);
                }
                if unused_names(self.map@).contains(k) {
                    let i = choose|i: int| 0 <= i < unused_names(self.map@).len() && unused_names(self.map@)[i] == k;
                    assert(r@[i]@ == k);
                }
            }
        }
        r
    }

    /// mark all styles
    /// as unused
    ///
    /// used with
    /// [`Self::check_unused`]
    pub fn reset_unused(&mut self)
        requires
            old(self).wf(),
        ensures
            final(self).wf(),
            final(self).default_style() == old(self).default_style(),
            final(self).table().dom() == old(self).table().dom(),
            forall|k: Seq<char>|
                #![trigger final(self).table()[k]]
                old(self).table().dom().contains(k) ==> final(self).table()[k] == (
                    false,
                    old(self).table()[k].1,
                ),
    {
        let ghost before = self.map@;
        let n = self.map.len();
        for i in 0..n
            invariant
                n == self.map@.len(),
                before.len() == n,
                unique_names(before),
                unique_names(self.map@),
                self.default == old(self).default,
                before == old(self).map@,
                forall|j: int|
                    #![trigger self.map@[j]]
                    0 <= j < n ==> self.map@[j].0@ == before[j].0@ && self.map@[j].2 == before[j].2,
                forall|j: int| #![trigger self.map@[j]] 0 <= j < i ==> !self.map@[j].1,
                forall|j: int| #![trigger self.map@[j]] i <= j < n ==> self.map@[j].1 == before[j].1,
        {
            let entry = &mut self.map[i];
            entry.1 = false;
        }
        proof {
            assert forall|k: Seq<char>| #![trigger table_of(self.map@).dom().contains(k)]
                table_of(self.map@).dom().contains(k) == table_of(before).dom().contains(k) by {
                lemma_table_dom(self.map@, k);
                lemma_table_dom(before, k);
                if exists|i: int| 0 <= i < before.len() && #[trigger] before[i].0@ == k {
                    let i = choose|i: int| 0 <= i < before.len() && #[trigger] before[i].0@ == k;
                    assert(self.map@[i].0@ == k);
                }
                if exists|i: int| 0 <= i < self.map@.len() && #[trigger] self.map@[i].0@ == k {
                    let i = choose|i: int| 0 <= i < self.map@.len() && #[trigger] self.map@[i].0@ == k;
                    assert(before[i].0@ == k);
                }
            }
            assert(table_of(self.map@).dom() =~= table_of(before).dom());
            assert forall|k: Seq<char>| #![trigger table_of(self.map@)[k]]
                table_of(before).dom().contains(k) implies table_of(self.map@)[k] == (
                    false,
                    table_of(before)[k].1,
                ) by {
                lemma_table_dom(before, k);
                let i = choose|i: int| 0 <= i < before.len() && #[trigger] before[i].0@ == k;
                lemma_table_index(before, i);
                assert(self.map@[i].0@ == k);
                lemma_table_index(self.map@, i);
            }
        }
    }
}

impl<'a, C: 'a, X: 'a, S: 'a, O: 'a, A: 'a> Style<C, X, S, O, A, Ref<'a>> {
    /// styles is a whitespace separated list of styles
    /// in which the latter ones are preferred
    ///
    /// example `style: &str` : "* fill_widget yellow"
    pub fn from_styles(style: &str, styles: &'a mut StyleSheet<C, X, S, O, A>) -> (r: Self)
        requires
            old(styles).wf(),
        ensures
            final(styles).wf(),
            final(styles).default_style() == old(styles).default_style(),
            final(styles).table() == marked(old(styles).table(), crate::style::words::words_of(style@)),
            r == picked::<'a, C, X, S, O, A>(
                old(styles).table(),
                old(styles).default_style(),
                crate::style::words::words_of(style@),
            ),
    {
        let names = split_whitespace(style);
        let ghost words = crate::style::words::words_of(style@);
        let ghost start = *styles;
        let n = names.len();
        for i in 0..n
            invariant
                n == names@.len(),
                words.len() == n,
                forall|j: int| 0 <= j < n ==> #[trigger] names@[j]@ == words[j],
                styles.wf(),
                styles.default_style() == start.default_style(),
                styles.table() == marked(start.table(), words.take(i as int)),
                forall|k: Seq<char>|
                    #![trigger styles.table()[k]]
                    styles.table().dom().contains(k) ==> styles.table()[k].1 == start.table()[k].1,
                styles.table().dom() == start.table().dom(),
        {
            styles.mark_used(&names[i]);
            proof {
                assert(words.take(i + 1).drop_last() =~= words.take(i as int));
            }
        }
        proof {
            assert(words.take(n as int) =~= words);
        }
        let sheet: &'a StyleSheet<C, X, S, O, A> = styles;
        let mut collected = sheet.get_default();
        for i in 0..n
            invariant
                n == names@.len(),
                words.len() == n,
                forall|j: int| 0 <= j < n ==> #[trigger] names@[j]@ == words[j],
                sheet.wf(),
                sheet.default_style() == start.default_style(),
                sheet.table().dom() == start.table().dom(),
                forall|k: Seq<char>|
                    #![trigger sheet.table()[k]]
                    sheet.table().dom().contains(k) ==> sheet.table()[k].1 == start.table()[k].1,
                collected == picked::<'a, C, X, S, O, A>(
                    start.table(),
                    start.default_style(),
                    words.take(i as int),
                ),
        {
            proof {
                assert(words.take(i + 1).drop_last() =~= words.take(i as int));
            }
            match sheet.lookup(&names[i]) {
                Some(st) => {
                    collected = collected.merge(st);
                },
                None => {},
            }
        }
        proof {
            assert(words.take(n as int) =~= words);
        }
        collected
    }
}

/// What a sheet gives back of an insert: right after `insert(name, value)`
/// the sheet holds `value` under `name`, unused, and nothing else changed.
pub proof fn lemma_insert_then_lookup<V>(
    table: Map<Seq<char>, (bool, V)>,
    name: Seq<char>,
    value: V,
    other: Seq<char>,
)
    ensures
        table.insert(name, (false, value)).dom().contains(name),
        table.insert(name, (false, value))[name] == (false, value),
        other != name ==> (table.insert(name, (false, value)).dom().contains(other)
            == table.dom().contains(other)),
        other != name && table.dom().contains(other) ==> table.insert(name, (false, value))[other]
            == table[other],
{
}

/// Picking marks: after the names are picked, each named style that exists
/// is marked used, and the styles themselves are unchanged.
pub proof fn lemma_picked_names_marked<V>(table: Map<Seq<char>, (bool, V)>, names: Seq<Seq<char>>, k: int)
    requires
        0 <= k < names.len(),
        table.dom().contains(names[k]),
    ensures
        marked(table, names).dom() == table.dom(),
        marked(table, names)[names[k]] == (true, table[names[k]].1),
    decreases names.len(),
{
    lemma_marked_keeps(table, names);
    if k < names.len() - 1 {
        lemma_picked_names_marked(table, names.drop_last(), k);
        assert(names.drop_last()[k] == names[k]);
    }
}

/// Marking keeps the names and the styles.
pub proof fn lemma_marked_keeps<V>(table: Map<Seq<char>, (bool, V)>, names: Seq<Seq<char>>)
    ensures
        marked(table, names).dom() == table.dom(),
        forall|k: Seq<char>|
            #![trigger marked(table, names)[k]]
            table.dom().contains(k) ==> marked(table, names)[k].1 == table[k].1,
    decreases names.len(),
{
    if names.len() > 0 {
        lemma_marked_keeps(table, names.drop_last());
        let before = marked(table, names.drop_last());
        let name = names.last();
        if before.dom().contains(name) {
            assert(before.insert(name, (true, before[name].1)).dom() =~= before.dom());
        }
    }
}

/// With no names, only the default is picked.
pub proof fn lemma_picked_empty<'a, C: 'a, X: 'a, S: 'a, O: 'a, A: 'a>(
    table: Map<Seq<char>, (bool, Style<C, X, S, O, A, Mergeable>)>,
    default: Style<C, X, S, O, A, Mergeable>,
)
    ensures
        picked::<'a, C, X, S, O, A>(table, default, Seq::empty()) == borrowed::<'a, C, X, S, O, A>(default),
{
}

/// A name that names no style changes nothing.
pub proof fn lemma_unknown_name_ignored<'a, C: 'a, X: 'a, S: 'a, O: 'a, A: 'a>(
    table: Map<Seq<char>, (bool, Style<C, X, S, O, A, Mergeable>)>,
    default: Style<C, X, S, O, A, Mergeable>,
    names: Seq<Seq<char>>,
    unknown: Seq<char>,
)
    requires
        !table.dom().contains(unknown),
    ensures
        picked::<'a, C, X, S, O, A>(table, default, names.push(unknown)) == picked::<
            'a,
            C,
            X,
            S,
            O,
            A,
        >(table, default, names),
{
    assert(names.push(unknown).drop_last() =~= names);
}

/// Once the marks are reset, every style is unused, so `check_unused`
/// names them all.
pub proof fn lemma_reset_then_all_unused<V>(before: Map<Seq<char>, (bool, V)>, after: Map<Seq<char>, (bool, V)>)
    requires
        after.dom() == before.dom(),
        forall|k: Seq<char>| #![trigger after[k]] before.dom().contains(k) ==> after[k] == (false, before[k].1),
    ensures
        forall|k: Seq<char>| #![trigger after[k]] after.dom().contains(k) ==> !after[k].0,
{
}

/// A style that `get` found is marked used, so `check_unused` no longer
/// names it; the other marks stay.
pub proof fn lemma_get_marks_used<V>(table: Map<Seq<char>, (bool, V)>, name: Seq<char>, other: Seq<char>)
    requires
        table.dom().contains(name),
    ensures
        marked(table, seq![name]).dom().contains(name),
        marked(table, seq![name])[name].0,
        other != name && table.dom().contains(other) ==> marked(table, seq![name])[other] == table[other],
{
    assert(seq![name].drop_last() =~= Seq::<Seq<char>>::empty());
    reveal_with_fuel(marked, 2);
}

} // verus!
