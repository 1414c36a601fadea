//! Small ordered tables keyed by text: the ordered maps of the command-file
//! reader, kept as vectors sorted by key so that walking them visits keys in
//! ascending order.
use vstd::prelude::*;

use crate::text::{
    chars_eq, chars_lt, chars_of, string_from_chars, lemma_text_lt_asymmetric, lemma_text_lt_irreflexive,
    lemma_text_lt_total, lemma_text_lt_transitive, text_lt,
};

verus! {

/// Keys strictly ascending, hence pairwise distinct.
pub open spec fn keys_sorted<V>(t: Seq<(Seq<char>, V)>) -> bool {
    forall|i: int, j: int| 0 <= i < j < t.len() ==> text_lt(#[trigger] t[i].0, #[trigger] t[j].0)
}

/// The table after `insert(k, v)`: the value of an existing key is
/// replaced in place, a new key is placed before the first larger key.
pub open spec fn table_insert<V>(t: Seq<(Seq<char>, V)>, k: Seq<char>, v: V) -> Seq<
    (Seq<char>, V),
>
    decreases t.len(),
{
    if t.len() == 0 {
        seq![(k, v)]
    } else if t[0].0 == k {
        seq![(k, v)] + t.drop_first()
    } else if text_lt(k, t[0].0) {
        seq![(k, v)] + t
    } else {
        seq![t[0]] + table_insert(t.drop_first(), k, v)
    }
}

/// The value stored under `k`, if any.
pub open spec fn table_get<V>(t: Seq<(Seq<char>, V)>, k: Seq<char>) -> Option<V>
    decreases t.len(),
{
    if t.len() == 0 {
        None
    } else if t[0].0 == k {
        Some(t[0].1)
    } else {
        table_get(t.drop_first(), k)
    }
}

/// The keys of a table, in order.
pub open spec fn table_keys<V>(t: Seq<(Seq<char>, V)>) -> Seq<Seq<char>> {
    t.map_values(|e: (Seq<char>, V)| e.0)
}

pub proof fn lemma_insert_prefix<V>(t: Seq<(Seq<char>, V)>, k: Seq<char>, v: V, j: int)
    requires
        0 <= j <= t.len(),
        forall|i: int| 0 <= i < j ==> text_lt(#[trigger] t[i].0, k),
    ensures
        table_insert(t, k, v) == t.take(j) + table_insert(t.skip(j), k, v),
    decreases j,
{
    if j == 0 {
        assert(t.skip(0) == t);
        assert(t.take(0) + table_insert(t, k, v) =~= table_insert(t, k, v));
    } else {
        lemma_text_lt_irreflexive(k);
        lemma_text_lt_asymmetric(t[0].0, k);
        let r = t.drop_first();
        assert forall|i: int| 0 <= i < j - 1 implies text_lt(#[trigger] r[i].0, k) by {
            assert(r[i] == t[i + 1]);
        }
        lemma_insert_prefix(r, k, v, j - 1);
        assert(r.skip(j - 1) == t.skip(j));
        assert(t.take(j) =~= seq![t[0]] + r.take(j - 1));
        assert(table_insert(t, k, v) == seq![t[0]] + table_insert(r, k, v));
        assert((seq![t[0]] + r.take(j - 1)) + table_insert(t.skip(j), k, v) =~= seq![t[0]] + (
        r.take(j - 1) + table_insert(t.skip(j), k, v)));
    }
}

pub proof fn lemma_get_prefix<V>(t: Seq<(Seq<char>, V)>, k: Seq<char>, j: int)
    requires
        0 <= j <= t.len(),
        forall|i: int| 0 <= i < j ==> #[trigger] t[i].0 != k,
    ensures
        table_get(t, k) == table_get(t.skip(j), k),
    decreases j,
{
    if j == 0 {
        assert(t.skip(0) == t);
    } else {
        let r = t.drop_first();
        assert forall|i: int| 0 <= i < j - 1 implies #[trigger] r[i].0 != k by {
            assert(r[i] == t[i + 1]);
        }
        lemma_get_prefix(r, k, j - 1);
        assert(r.skip(j - 1) == t.skip(j));
    }
}

pub proof fn lemma_get_absent<V>(t: Seq<(Seq<char>, V)>, k: Seq<char>)
    requires
        forall|i: int| 0 <= i < t.len() ==> #[trigger] t[i].0 != k,
    ensures
        table_get(t, k) == None::<V>,
{
    lemma_get_prefix(t, k, t.len() as int);
    assert(t.skip(t.len() as int).len() == 0);
}

pub proof fn lemma_get_some<V>(t: Seq<(Seq<char>, V)>, k: Seq<char>, v: V)
    requires
        table_get(t, k) == Some(v),
    ensures
        exists|i: int| 0 <= i < t.len() && #[trigger] t[i] == (k, v),
    decreases t.len(),
{
    if t[0].0 != k {
        lemma_get_some(t.drop_first(), k, v);
        let i = choose|i: int| 0 <= i < t.drop_first().len() && #[trigger] t.drop_first()[i] == (k, v);
        assert(t[i + 1] == (k, v));
    } else {
        assert(t[0] == (k, v));
    }
}

/// Inserting keeps keys sorted, and the inserted key maps to the new value.
pub proof fn lemma_insert_sorted<V>(t: Seq<(Seq<char>, V)>, k: Seq<char>, v: V)
    requires
        keys_sorted(t),
    ensures
        keys_sorted(table_insert(t, k, v)),
        forall|i: int|
            0 <= i < table_insert(t, k, v).len() ==> (#[trigger] table_insert(t, k, v)[i].0 == k
                || exists|j: int| 0 <= j < t.len() && t[j].0 == table_insert(t, k, v)[i].0),
    decreases t.len(),
{
    let r = table_insert(t, k, v);
    if t.len() == 0 {
    } else if t[0].0 == k {
        assert forall|i: int, j: int| 0 <= i < j < r.len() implies text_lt(
            #[trigger] r[i].0,
            #[trigger] r[j].0,
        ) by {
            assert(r[i].0 == t[i].0);
            assert(r[j].0 == t[j].0);
        }
        assert forall|i: int| 0 <= i < r.len() implies (#[trigger] r[i].0 == k || exists|j: int|
            0 <= j < t.len() && t[j].0 == r[i].0) by {
            assert(r[i].0 == t[i].0);
        }
    } else if text_lt(k, t[0].0) {
        assert forall|i: int, j: int| 0 <= i < j < r.len() implies text_lt(
            #[trigger] r[i].0,
            #[trigger] r[j].0,
        ) by {
            if i == 0 {
                if j > 1 {
                    lemma_text_lt_transitive(k, t[0].0, t[j - 1].0);
                }
            } else {
                assert(r[i] == t[i - 1]);
                assert(r[j] == t[j - 1]);
            }
        }
        assert forall|i: int| 0 <= i < r.len() implies (#[trigger] r[i].0 == k || exists|j: int|
            0 <= j < t.len() && t[j].0 == r[i].0) by {
            if i > 0 {
                assert(r[i] == t[i - 1]);
            }
        }
    } else {
        let d = t.drop_first();
        assert(keys_sorted(d)) by {
            assert forall|i: int, j: int| 0 <= i < j < d.len() implies text_lt(
                #[trigger] d[i].0,
                #[trigger] d[j].0,
            ) by {
                assert(d[i] == t[i + 1]);
                assert(d[j] == t[j + 1]);
            }
        }
        lemma_insert_sorted(d, k, v);
        let rd = table_insert(d, k, v);
        lemma_text_lt_total(k, t[0].0);
        assert(text_lt(t[0].0, k));
        assert forall|i: int| 0 <= i < r.len() implies (#[trigger] r[i].0 == k || exists|j: int|
            0 <= j < t.len() && t[j].0 == r[i].0) by {
            if i == 0 {
                assert(t[0].0 == r[0].0);
            } else {
                assert(r[i] == rd[i - 1]);
                if rd[i - 1].0 != k {
                    let jj = choose|jj: int| 0 <= jj < d.len() && d[jj].0 == rd[i - 1].0;
                    assert(t[jj + 1].0 == r[i].0);
                }
            }
        }
        assert forall|i: int, j: int| 0 <= i < j < r.len() implies text_lt(
            #[trigger] r[i].0,
            #[trigger] r[j].0,
        ) by {
            if i == 0 {
                assert(r[j] == rd[j - 1]);
                if rd[j - 1].0 == k {
                } else {
                    let jj = choose|jj: int| 0 <= jj < d.len() && d[jj].0 == rd[j - 1].0;
                    assert(t[jj + 1].0 == r[j].0);
                }
            } else {
                assert(r[i] == rd[i - 1]);
                assert(r[j] == rd[j - 1]);
            }
        }
    }
}

/// Every entry after an insertion is the inserted one or was there before.
pub proof fn lemma_insert_members<V>(t: Seq<(Seq<char>, V)>, k: Seq<char>, v: V)
    ensures
        forall|i: int|
            0 <= i < table_insert(t, k, v).len() ==> (#[trigger] table_insert(t, k, v)[i] == (k, v)
                || exists|j: int| 0 <= j < t.len() && t[j] == table_insert(t, k, v)[i]),
    decreases t.len(),
{
    let r = table_insert(t, k, v);
    if t.len() == 0 {
    } else if t[0].0 == k {
        assert forall|i: int| 0 <= i < r.len() implies (#[trigger] r[i] == (k, v) || exists|j: int|
            0 <= j < t.len() && t[j] == r[i]) by {
            if i > 0 {
                assert(r[i] == t[i]);
            }
        }
    } else if text_lt(k, t[0].0) {
        assert forall|i: int| 0 <= i < r.len() implies (#[trigger] r[i] == (k, v) || exists|j: int|
            0 <= j < t.len() && t[j] == r[i]) by {
            if i > 0 {
                assert(r[i] == t[i - 1]);
            }
        }
    } else {
        let d = t.drop_first();
        lemma_insert_members(d, k, v);
        let rd = table_insert(d, k, v);
        assert forall|i: int| 0 <= i < r.len() implies (#[trigger] r[i] == (k, v) || exists|j: int|
            0 <= j < t.len() && t[j] == r[i]) by {
            if i == 0 {
                assert(t[0] == r[0]);
            } else {
                assert(r[i] == rd[i - 1]);
                if rd[i - 1] != (k, v) {
                    let jj = choose|jj: int| 0 <= jj < d.len() && d[jj] == rd[i - 1];
                    assert(t[jj + 1] == r[i]);
                }
            }
        }
    }
}

/// A text-keyed table whose keys stay strictly ascending.
#[derive(Debug)]
pub struct Table<V: TableValue> {
    entries: Vec<(Vec<char>, V)>,
}

/// How a table's value is seen in specifications.
pub trait TableValue: Sized {
    type Model;

    spec fn value_model(&self) -> Self::Model;
}

impl<V: TableValue> Table<V> {
    pub closed spec fn entries_model(entries: Seq<(Vec<char>, V)>) -> Seq<(Seq<char>, V::Model)> {
        entries.map_values(|e: (Vec<char>, V)| (e.0@, e.1.value_model()))
    }

    /// The entries of the table, in key order.
    pub closed spec fn model(&self) -> Seq<(Seq<char>, V::Model)> {
        Self::entries_model(self.entries@)
    }

    /// Keys strictly ascending: holds of every table.
    #[verifier::type_invariant]
    pub open spec fn wf(&self) -> bool {
        keys_sorted(self.model())
    }

    pub fn new() -> (t: Self)
        ensures
            t.model() == Seq::<(Seq<char>, V::Model)>::empty(),
            t.wf(),
    {
        let t = Table { entries: Vec::new() };
        assert(t.model() =~= Seq::<(Seq<char>, V::Model)>::empty());
        t
    }

    pub fn len(&self) -> (n: usize)
        ensures
            n == self.model().len(),
    {
        self.entries.len()
    }

    /// The position of the first key that is not smaller than `k`.
    fn lower_bound(&self, k: &[char]) -> (j: usize)
        ensures
            j <= self.model().len(),
            forall|i: int| 0 <= i < j ==> text_lt(#[trigger] self.model()[i].0, k@),
            j < self.model().len() ==> !text_lt(self.model()[j as int].0, k@),
    {
        let mut j: usize = 0;
        while j < self.entries.len() && chars_lt(self.entries[j].0.as_slice(), k)
            invariant
                j <= self.entries@.len(),
                forall|i: int| 0 <= i < j ==> text_lt(#[trigger] self.model()[i].0, k@),
            decreases self.entries@.len() - j,
        {
            j = j + 1;
        }
        j
    }

    /// `get(k)`: a reference to the value stored under `k`.
    pub fn get(&self, k: &[char]) -> (r: Option<&V>)
        ensures
            match r {
                Some(v) => table_get(self.model(), k@) == Some(v.value_model()),
                None => table_get(self.model(), k@) == None::<V::Model>,
            },
    {
        let mut j: usize = 0;
        while j < self.entries.len()
            invariant
                j <= self.entries@.len(),
                forall|i: int| 0 <= i < j ==> #[trigger] self.model()[i].0 != k@,
            decreases self.entries@.len() - j,
        {
            if chars_eq(self.entries[j].0.as_slice(), k) {
                proof {
                    lemma_get_prefix(self.model(), k@, j as int);
                }
                return Some(&self.entries[j].1);
            }
            j = j + 1;
        }
        proof {
            lemma_get_absent(self.model(), k@);
        }
        None
    }

    /// `get(k)` with the key given as text.
    pub fn get_str(&self, k: &str) -> (r: Option<&V>)
        ensures
            match r {
                Some(v) => table_get(self.model(), k@) == Some(v.value_model()),
                None => table_get(self.model(), k@) == None::<V::Model>,
            },
    {
        let kc = chars_of(k);
        self.get(kc.as_slice())
    }

    /// `insert(k, v)` with the key given as text.
    pub fn insert_str(&mut self, k: &str, v: V)
        ensures
            final(self).model() == table_insert(old(self).model(), k@, v.value_model()),
    {
        let kc = chars_of(k);
        self.insert(kc, v);
    }

    /// `insert(k, v)`.
    pub fn insert(&mut self, k: Vec<char>, v: V)
        ensures
            final(self).wf(),
            final(self).model() == table_insert(old(self).model(), k@, v.value_model()),
    {
        proof {
            use_type_invariant(&*self);
        }
        let ghost m0 = self.model();
        let j = self.lower_bound(k.as_slice());
        proof {
            lemma_insert_prefix(m0, k@, v.value_model(), j as int);
            lemma_insert_sorted(m0, k@, v.value_model());
        }
        let mut entries: Vec<(Vec<char>, V)> = Vec::new();
        std::mem::swap(&mut entries, &mut self.entries);
        assert(Self::entries_model(entries@) == m0);
        if j < entries.len() && chars_eq(entries[j].0.as_slice(), k.as_slice()) {
            let ghost kv = k@;
            let ghost vm = v.value_model();
            entries.set(j, (k, v));
            proof {
                assert(m0.skip(j as int).drop_first() == m0.skip(j + 1));
                assert(Self::entries_model(entries@) =~= m0.take(j as int) + (seq![(kv, vm)]
                    + m0.skip(j + 1)));
            }
            self.entries = entries;
        } else {
            let ghost kv = k@;
            let ghost vm = v.value_model();
            proof {
                if j < m0.len() {
                    lemma_text_lt_total(kv, m0[j as int].0);
                }
            }
            entries.insert(j, (k, v));
            proof {
                if j == m0.len() {
                    assert(m0.skip(j as int).len() == 0);
                    assert(Self::entries_model(entries@) =~= m0.take(j as int) + seq![(kv, vm)]);
                } else {
                    assert(Self::entries_model(entries@) =~= m0.take(j as int) + (seq![(kv, vm)]
                        + m0.skip(j as int)));
                }
            }
            self.entries = entries;
        }
    }

    /// The position at which `k` is stored or would be inserted, and whether
    /// it is stored there.
    pub fn find(&self, k: &[char]) -> (r: (usize, bool))
        ensures
            r.0 <= self.model().len(),
            forall|i: int| 0 <= i < r.0 ==> text_lt(#[trigger] self.model()[i].0, k@),
            r.1 <==> (r.0 < self.model().len() && self.model()[r.0 as int].0 == k@),
            !r.1 ==> r.0 < self.model().len() ==> text_lt(k@, self.model()[r.0 as int].0),
    {
        let j = self.lower_bound(k);
        if j < self.entries.len() && chars_eq(self.entries[j].0.as_slice(), k) {
            (j, true)
        } else {
            proof {
                if j < self.model().len() {
                    lemma_text_lt_total(k@, self.model()[j as int].0);
                }
            }
            (j, false)
        }
    }

    /// Replaces the value at position `j`, returning the one it held.
    pub fn swap_value(&mut self, j: usize, v: V) -> (old_v: V)
        requires
            j < old(self).model().len(),
        ensures
            old_v.value_model() == old(self).model()[j as int].1,
            final(self).model() == old(self).model().update(
                j as int,
                (old(self).model()[j as int].0, v.value_model()),
            ),
    {
        proof {
            use_type_invariant(&*self);
        }
        let ghost m0 = self.model();
        let mut entries: Vec<(Vec<char>, V)> = Vec::new();
        std::mem::swap(&mut entries, &mut self.entries);
        assert(Self::entries_model(entries@) == m0);
        let (k, old_v) = entries.remove(j);
        let ghost kv = k@;
        let ghost vm = v.value_model();
        entries.insert(j, (k, v));
        assert(Self::entries_model(entries@) =~= m0.update(j as int, (kv, vm)));
        assert forall|a: int, b: int|
            0 <= a < b < Self::entries_model(entries@).len() implies text_lt(
            #[trigger] Self::entries_model(entries@)[a].0,
            #[trigger] Self::entries_model(entries@)[b].0,
        ) by {
            assert(Self::entries_model(entries@)[a].0 == m0[a].0);
            assert(Self::entries_model(entries@)[b].0 == m0[b].0);
        }
        self.entries = entries;
        old_v
    }

    /// The entry at position `i`.
    pub fn entry(&self, i: usize) -> (r: (&Vec<char>, &V))
        requires
            i < self.model().len(),
        ensures
            r.0@ == self.model()[i as int].0,
            r.1.value_model() == self.model()[i as int].1,
    {
        let e = &self.entries[i];
        (&e.0, &e.1)
    }
}


impl TableValue for String {
    type Model = Seq<char>;

    open spec fn value_model(&self) -> Seq<char> {
        self@
    }
}

impl Clone for Table<String> {
    fn clone(&self) -> (r: Self)
        ensures
            r.model() == self.model(),
    {
        proof {
            use_type_invariant(self);
        }
        let mut entries: Vec<(Vec<char>, String)> = Vec::new();
        let mut i: usize = 0;
        while i < self.entries.len()
            invariant
                i <= self.entries@.len(),
                Self::entries_model(entries@) == self.model().take(i as int),
            decreases self.entries@.len() - i,
        {
            let k = self.entries[i].0.clone();
            let v = self.entries[i].1.clone();
            let ghost before = entries@;
            entries.push((k, v));
            proof {
                assert(k@ == self.entries@[i as int].0@);
                assert(Self::entries_model(entries@) =~= Self::entries_model(before).push(
                    self.model()[i as int],
                ));
                assert(self.model().take(i + 1) == self.model().take(i as int).push(
                    self.model()[i as int],
                ));
            }
            i = i + 1;
        }
        assert(self.model().take(self.model().len() as int) == self.model());
        Table { entries }
    }
}


/// The keys of a table after an insertion: the old ones and the new one.
pub proof fn lemma_insert_keys<V>(t: Seq<(Seq<char>, V)>, k: Seq<char>, v: V)
    ensures
        table_keys(table_insert(t, k, v)).to_set() == table_keys(t).to_set().insert(k),
    decreases t.len(),
{
    let r = table_insert(t, k, v);
    lemma_insert_members(t, k, v);
    assert forall|x: Seq<char>| #[trigger] table_keys(r).to_set().contains(x) implies table_keys(
        t,
    ).to_set().insert(k).contains(x) by {
        let i = choose|i: int| 0 <= i < table_keys(r).len() && table_keys(r)[i] == x;
        if r[i] != (k, v) {
            let j = choose|j: int| 0 <= j < t.len() && t[j] == r[i];
            assert(table_keys(t)[j] == x);
        }
    }
    assert forall|x: Seq<char>| #[trigger] table_keys(t).to_set().insert(k).contains(x) implies table_keys(
        r,
    ).to_set().contains(x) by {
        lemma_insert_has(t, k, v, x);
    }
    assert(table_keys(r).to_set() =~= table_keys(t).to_set().insert(k));
}

proof fn lemma_insert_has<V>(t: Seq<(Seq<char>, V)>, k: Seq<char>, v: V, x: Seq<char>)
    requires
        x == k || table_keys(t).contains(x),
    ensures
        table_keys(table_insert(t, k, v)).contains(x),
    decreases t.len(),
{
    let r = table_insert(t, k, v);
    if t.len() == 0 {
        assert(table_keys(r)[0] == k);
    } else if t[0].0 == k {
        if x == k {
            assert(table_keys(r)[0] == k);
        } else {
            let j = choose|j: int| 0 <= j < table_keys(t).len() && table_keys(t)[j] == x;
            assert(table_keys(r)[j] == x);
        }
    } else if text_lt(k, t[0].0) {
        if x == k {
            assert(table_keys(r)[0] == k);
        } else {
            let j = choose|j: int| 0 <= j < table_keys(t).len() && table_keys(t)[j] == x;
            assert(table_keys(r)[j + 1] == x);
        }
    } else {
        let d = t.drop_first();
        if x == t[0].0 {
            assert(table_keys(r)[0] == x);
        } else {
            if x != k {
                let j = choose|j: int| 0 <= j < table_keys(t).len() && table_keys(t)[j] == x;
                assert(j > 0);
                assert(table_keys(d)[j - 1] == x);
            }
            lemma_insert_has(d, k, v, x);
            let rd = table_insert(d, k, v);
            let j = choose|j: int| 0 <= j < table_keys(rd).len() && table_keys(rd)[j] == x;
            assert(table_keys(r)[j + 1] == x);
        }
    }
}

/// With distinct keys, a key is stored exactly when `table_get` finds it.
pub proof fn lemma_get_iff_key<V>(t: Seq<(Seq<char>, V)>, k: Seq<char>)
    ensures
        table_get(t, k) is Some <==> table_keys(t).contains(k),
    decreases t.len(),
{
    if t.len() > 0 {
        lemma_get_iff_key(t.drop_first(), k);
        if t[0].0 == k {
            assert(table_keys(t)[0] == k);
        } else {
            if table_keys(t).contains(k) {
                let j = choose|j: int| 0 <= j < table_keys(t).len() && table_keys(t)[j] == k;
                assert(table_keys(t.drop_first())[j - 1] == k);
            }
            if table_keys(t.drop_first()).contains(k) {
                let j = choose|j: int|
                    0 <= j < table_keys(t.drop_first()).len() && table_keys(t.drop_first())[j] == k;
                assert(table_keys(t)[j + 1] == k);
            }
        }
    }
}

impl TableValue for () {
    type Model = ();

    open spec fn value_model(&self) -> () {
        ()
    }
}

/// A set of texts, walked in ascending order.
#[derive(Debug)]
pub struct TextSet {
    table: Table<()>,
}

impl View for TextSet {
    type V = Set<Seq<char>>;

    closed spec fn view(&self) -> Set<Seq<char>> {
        table_keys(self.table.model()).to_set()
    }
}

impl TextSet {
    /// The members in ascending order.
    pub closed spec fn ordered(&self) -> Seq<Seq<char>> {
        table_keys(self.table.model())
    }

    pub fn new() -> (s: Self)
        ensures
            s@ == Set::<Seq<char>>::empty(),
    {
        let s = TextSet { table: Table::new() };
        assert(s@ =~= Set::<Seq<char>>::empty());
        s
    }

    pub fn contains(&self, x: &str) -> (r: bool)
        ensures
            r == self@.contains(x@),
    {
        let k = chars_of(x);
        proof {
            lemma_get_iff_key(self.table.model(), x@);
        }
        self.table.get(k.as_slice()).is_some()
    }

    /// Adds `x`; says whether it was absent.
    pub fn insert(&mut self, x: &str) -> (r: bool)
        ensures
            final(self)@ == old(self)@.insert(x@),
            r == !old(self)@.contains(x@),
    {
        let k = chars_of(x);
        let present = self.contains(x);
        proof {
            lemma_insert_keys(self.table.model(), x@, ());
        }
        self.table.insert(k, ());
        !present
    }

    /// Removes `x`; says whether it was present.
    pub fn remove(&mut self, x: &str) -> (r: bool)
        ensures
            final(self)@ == old(self)@.remove(x@),
            r == old(self)@.contains(x@),
    {
        proof {
            use_type_invariant(&self.table);
        }
        let k = chars_of(x);
        let present = self.contains(x);
        if !present {
            assert(self@ =~= self@.remove(x@));
            return false;
        }
        let mut rest: Table<()> = Table::new();
        let ghost m0 = self.table.model();
        let mut i: usize = 0;
        while i < self.table.len()
            invariant
                i <= m0.len(),
                k@ == x@,
                m0 == self.table.model(),
                keys_sorted(m0),
                table_keys(rest.model()).to_set() == table_keys(m0.take(i as int)).to_set().remove(
                    x@,
                ),
            decreases m0.len() - i,
        {
            let (key, _) = self.table.entry(i);
            let ghost kv = key@;
            proof {
                assert(m0.take(i + 1) == m0.take(i as int).push(m0[i as int]));
                assert(table_keys(m0.take(i + 1)) =~= table_keys(m0.take(i as int)).push(kv));
                table_keys(m0.take(i as int)).lemma_push_to_set_commute(kv);
                assert(table_keys(m0.take(i + 1)).to_set() =~= table_keys(
                    m0.take(i as int),
                ).to_set().insert(kv));
            }
            if !chars_eq(key.as_slice(), k.as_slice()) {
                proof {
                    lemma_insert_keys(rest.model(), kv, ());
                }
                let kc = key.clone();
                assert(kc@ == kv);
                assert(kv != x@);
                rest.insert(kc, ());
                proof {
                    assert(table_keys(rest.model()).to_set() =~= table_keys(
                        m0.take(i + 1),
                    ).to_set().remove(x@));
                }
            } else {
                proof {
                    assert(kv == x@);
                    assert(table_keys(rest.model()).to_set() =~= table_keys(
                        m0.take(i + 1),
                    ).to_set().remove(x@));
                }
            }
            i = i + 1;
        }
        assert(m0.take(i as int) == m0);
        self.table = rest;
        true
    }

    /// How many members there are.
    pub fn len(&self) -> (n: usize)
        ensures
            n == self.ordered().len(),
    {
        self.table.len()
    }

    /// The members in ascending order.
    pub fn to_vec(&self) -> (r: Vec<String>)
        ensures
            r@.map_values(|s: String| s@) == self.ordered(),
            self.ordered().to_set() == self@,
            forall|i: int, j: int|
                0 <= i < j < self.ordered().len() ==> text_lt(
                    #[trigger] self.ordered()[i],
                    #[trigger] self.ordered()[j],
                ),
    {
        proof {
            use_type_invariant(&self.table);
        }
        let mut out: Vec<String> = Vec::new();
        let mut i: usize = 0;
        while i < self.table.len()
            invariant
                i <= self.table.model().len(),
                out@.map_values(|s: String| s@) == self.ordered().take(i as int),
            decreases self.table.model().len() - i,
        {
            let (key, _) = self.table.entry(i);
            let ghost before = out@;
            out.push(string_from_chars(key.as_slice()));
            assert(out@.map_values(|s: String| s@) =~= before.map_values(|s: String| s@).push(
                key@,
            ));
            assert(self.ordered().take(i + 1) =~= self.ordered().take(i as int).push(
                self.ordered()[i as int],
            ));
            i = i + 1;
        }
        assert(self.ordered().take(i as int) =~= self.ordered());
        out
    }
}

} // verus!
