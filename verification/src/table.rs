//! A keyed table whose rows keep the order in which their keys first came in.
//!
//! Two keys are the same key exactly when their views are equal, and no key
//! stands in two rows: that is the type's invariant, so every operation speaks
//! of the table as a `Map` from key views to value views.
use vstd::prelude::*;

verus! {

/// A type that can name a row of a [`Table`].
pub trait Key: View + Sized {
    /// Whether two keys name the same row.
    fn same(&self, other: &Self) -> (same: bool)
        ensures
            same == (self@ == other@),
    ;

    /// A second copy of the key.
    fn copied(&self) -> (copy: Self)
        ensures
            copy@ == self@,
    ;
}

impl Key for String {
    fn same(&self, other: &Self) -> (same: bool) {
        *self == *other
    }

    fn copied(&self) -> (copy: Self) {
        self.clone()
    }
}

impl Key for u128 {
    fn same(&self, other: &Self) -> (same: bool) {
        *self == *other
    }

    fn copied(&self) -> (copy: Self) {
        *self
    }
}

/// Whether cloning a `V` never changes its view.
pub open spec fn clone_keeps_view<V: View + Clone>() -> bool {
    forall|a: V, b: V| #[trigger] cloned(a, b) ==> a@ == b@
}

/// The rows of a table, as views.
pub open spec fn row_views<K: View, V: View>(rows: Seq<(K, V)>) -> Seq<(K::V, V::V)> {
    Seq::new(rows.len(), |i: int| (rows[i].0@, rows[i].1@))
}

/// No key stands in two rows.
pub open spec fn keys_distinct<A, B>(items: Seq<(A, B)>) -> bool {
    forall|i: int, j: int|
        0 <= i < items.len() && 0 <= j < items.len() && i != j ==> (#[trigger] items[i]).0 != (
        #[trigger] items[j]).0
}

/// Row `i` is the row of key `k`.
pub open spec fn row_of<A, B>(items: Seq<(A, B)>, k: A, i: int) -> bool {
    0 <= i < items.len() && items[i].0 == k
}

/// The map that a sequence of rows stands for.
pub open spec fn rows_map<A, B>(items: Seq<(A, B)>) -> Map<A, B> {
    Map::new(
        |k: A| exists|i: int| row_of(items, k, i),
        |k: A| items[choose|i: int| row_of(items, k, i)].1,
    )
}

/// Each row of a sequence with distinct keys is an entry of its map.
pub proof fn lemma_row_is_entry<A, B>(items: Seq<(A, B)>, i: int)
    requires
        keys_distinct(items),
        0 <= i < items.len(),
    ensures
        rows_map(items).contains_key(items[i].0),
        rows_map(items)[items[i].0] == items[i].1,
{
    let k = items[i].0;
    assert(row_of(items, k, i));
    let j = choose|j: int| row_of(items, k, j);
    assert(row_of(items, k, j));
    assert(i == j);
}

/// Each entry of the map of a sequence of rows is one of the rows.
pub proof fn lemma_entry_is_row<A, B>(items: Seq<(A, B)>, k: A) -> (i: int)
    requires
        rows_map(items).contains_key(k),
    ensures
        0 <= i < items.len(),
        items[i] == (k, rows_map(items)[k]),
{
    choose|i: int| row_of(items, k, i)
}

/// The map of a sequence of rows has finitely many keys.
proof fn lemma_rows_are_finite<A, B>(items: Seq<(A, B)>)
    ensures
        rows_map(items).dom().finite(),
{
    let keys = items.map_values(|item: (A, B)| item.0);
    assert forall|k: A| rows_map(items).dom().contains(k) implies keys.to_set().contains(k) by {
        let i = lemma_entry_is_row(items, k);
        assert(keys[i] == k);
    }
    vstd::seq_lib::seq_to_set_is_finite(keys);
    vstd::set_lib::lemma_len_subset(rows_map(items).dom(), keys.to_set());
}

proof fn lemma_push_row<A, B>(items: Seq<(A, B)>, k: A, v: B)
    requires
        keys_distinct(items),
        !rows_map(items).contains_key(k),
    ensures
        keys_distinct(items.push((k, v))),
        rows_map(items.push((k, v))) == rows_map(items).insert(k, v),
{
    let after = items.push((k, v));
    assert forall|i: int| 0 <= i < items.len() implies (#[trigger] items[i]).0 != k by {
        if items[i].0 == k {
            assert(row_of(items, k, i));
        }
    }
    assert(keys_distinct(after));
    assert forall|q: A| rows_map(after).contains_key(q) <==> rows_map(items).insert(
        k,
        v,
    ).contains_key(q) by {
        if rows_map(items).contains_key(q) {
            let i = lemma_entry_is_row(items, q);
            assert(row_of(after, q, i));
        }
        assert(row_of(after, k, items.len() as int));
        if rows_map(after).contains_key(q) && q != k {
            let i = lemma_entry_is_row(after, q);
            assert(row_of(items, q, i));
        }
    }
    assert forall|q: A| rows_map(after).contains_key(q) implies rows_map(after)[q] == rows_map(
        items,
    ).insert(k, v)[q] by {
        let i = lemma_entry_is_row(after, q);
        if q != k {
            lemma_row_is_entry(items, i);
        }
    }
    assert(rows_map(after) =~= rows_map(items).insert(k, v));
}

proof fn lemma_update_row<A, B>(items: Seq<(A, B)>, n: int, v: B)
    requires
        keys_distinct(items),
        0 <= n < items.len(),
    ensures
        keys_distinct(items.update(n, (items[n].0, v))),
        rows_map(items.update(n, (items[n].0, v))) == rows_map(items).insert(items[n].0, v),
{
    let k = items[n].0;
    let after = items.update(n, (k, v));
    assert(keys_distinct(after));
    assert forall|q: A| rows_map(after).contains_key(q) <==> rows_map(items).insert(
        k,
        v,
    ).contains_key(q) by {
        if rows_map(items).contains_key(q) {
            let i = lemma_entry_is_row(items, q);
            assert(row_of(after, q, i));
        }
        assert(row_of(after, k, n));
        if rows_map(after).contains_key(q) {
            let i = lemma_entry_is_row(after, q);
            assert(row_of(items, q, i));
        }
    }
    assert forall|q: A| rows_map(after).contains_key(q) implies rows_map(after)[q] == rows_map(
        items,
    ).insert(k, v)[q] by {
        let i = lemma_entry_is_row(after, q);
        if i == n {
            lemma_row_is_entry(after, n);
        } else {
            lemma_row_is_entry(items, i);
        }
    }
    assert(rows_map(after) =~= rows_map(items).insert(k, v));
}

proof fn lemma_remove_row<A, B>(items: Seq<(A, B)>, n: int)
    requires
        keys_distinct(items),
        0 <= n < items.len(),
    ensures
        keys_distinct(items.remove(n)),
        rows_map(items.remove(n)) == rows_map(items).remove(items[n].0),
{
    let k = items[n].0;
    let after = items.remove(n);
    assert forall|i: int, j: int|
        0 <= i < after.len() && 0 <= j < after.len() && i != j implies (#[trigger] after[i]).0 != (
    #[trigger] after[j]).0 by {
        let i0: int = if i < n { i } else { i + 1 };
        let j0: int = if j < n { j } else { j + 1 };
        assert(after[i] == items[i0] && after[j] == items[j0]);
    }
    assert forall|q: A| rows_map(after).contains_key(q) <==> rows_map(items).remove(k).contains_key(
        q,
    ) by {
        if rows_map(items).contains_key(q) && q != k {
            let i = lemma_entry_is_row(items, q);
            let i1: int = if i < n { i } else { i - 1 };
            assert(row_of(after, q, i1));
        }
        if rows_map(after).contains_key(q) {
            let i1 = lemma_entry_is_row(after, q);
            let i: int = if i1 < n { i1 } else { i1 + 1 };
            assert(row_of(items, q, i));
            assert(i != n);
            assert(items[i].0 != items[n].0);
        }
    }
    assert forall|q: A| rows_map(after).contains_key(q) implies rows_map(after)[q] == rows_map(
        items,
    ).remove(k)[q] by {
        let i1 = lemma_entry_is_row(after, q);
        let i: int = if i1 < n { i1 } else { i1 + 1 };
        assert(items[i] == after[i1]);
        lemma_row_is_entry(items, i);
    }
    assert(rows_map(after) =~= rows_map(items).remove(k));
}

/// The rows once `k` has been given `v`: in its row where it has one, else in a
/// new last row.
pub open spec fn put<A, B>(items: Seq<(A, B)>, k: A, v: B) -> Seq<(A, B)> {
    if rows_map(items).contains_key(k) {
        items.update(choose|i: int| row_of(items, k, i), (k, v))
    } else {
        items.push((k, v))
    }
}

/// The rows once the row of `k` has been taken out.
pub open spec fn cut<A, B>(items: Seq<(A, B)>, k: A) -> Seq<(A, B)> {
    if rows_map(items).contains_key(k) {
        items.remove(choose|i: int| row_of(items, k, i))
    } else {
        items
    }
}

/// Giving a key a value keeps the keys distinct, and is what it is on the map.
pub proof fn lemma_put<A, B>(items: Seq<(A, B)>, k: A, v: B)
    requires
        keys_distinct(items),
    ensures
        keys_distinct(put(items, k, v)),
        rows_map(put(items, k, v)) == rows_map(items).insert(k, v),
{
    if rows_map(items).contains_key(k) {
        let i = choose|i: int| row_of(items, k, i);
        assert(row_of(items, k, i));
        lemma_update_row(items, i, v);
    } else {
        lemma_push_row(items, k, v);
    }
}

/// Taking a key's row out keeps the keys distinct, and is what it is on the map.
pub proof fn lemma_cut<A, B>(items: Seq<(A, B)>, k: A)
    requires
        keys_distinct(items),
    ensures
        keys_distinct(cut(items, k)),
        rows_map(cut(items, k)) == rows_map(items).remove(k),
{
    if rows_map(items).contains_key(k) {
        let i = choose|i: int| row_of(items, k, i);
        assert(row_of(items, k, i));
        lemma_remove_row(items, i);
    } else {
        assert(rows_map(items) =~= rows_map(items).remove(k));
    }
}

/// A table from keys to values.
pub struct Table<K: Key, V: View> {
    rows: Vec<(K, V)>,
}

impl<K: Key, V: View> View for Table<K, V> {
    type V = Map<K::V, V::V>;

    closed spec fn view(&self) -> Map<K::V, V::V> {
        rows_map(row_views(self.rows@))
    }
}

impl<K: Key, V: View> Table<K, V> {
    #[verifier::type_invariant]
    spec fn inv(self) -> bool {
        keys_distinct(row_views(self.rows@))
    }

    /// The rows in their order.
    pub closed spec fn items(self) -> Seq<(K::V, V::V)> {
        row_views(self.rows@)
    }

    /// A table has finitely many keys.
    pub proof fn lemma_keys_are_finite(self)
        ensures
            self@.dom().finite(),
    {
        lemma_rows_are_finite(row_views(self.rows@));
    }

    /// The empty table.
    pub fn new() -> (table: Self)
        ensures
            table@ == Map::<K::V, V::V>::empty(),
            table.items() == Seq::<(K::V, V::V)>::empty(),
    {
        let table = Table { rows: Vec::new() };
        proof {
            assert(table.items() =~= Seq::<(K::V, V::V)>::empty());
            assert(table@ =~= Map::<K::V, V::V>::empty()) by {
                assert forall|k: K::V| !table@.contains_key(k) by {
                    if table@.contains_key(k) {
                        let i = lemma_entry_is_row(table.items(), k);
                    }
                }
            }
        }
        table
    }

    /// The number of rows.
    pub fn len(&self) -> (len: usize)
        ensures
            len == self.items().len(),
            keys_distinct(self.items()),
            self@ == rows_map(self.items()),
    {
        proof {
            use_type_invariant(self);
        }
        self.rows.len()
    }

    /// Whether the table holds no row.
    pub fn is_empty(&self) -> (empty: bool)
        ensures
            empty == (self@ == Map::<K::V, V::V>::empty()),
    {
        let empty = self.len() == 0;
        proof {
            if empty {
                assert forall|k: K::V| !self@.contains_key(k) by {
                    if self@.contains_key(k) {
                        let i = lemma_entry_is_row(self.items(), k);
                    }
                }
                assert(self@ =~= Map::<K::V, V::V>::empty());
            } else {
                lemma_row_is_entry(self.items(), 0);
            }
        }
        empty
    }

    /// The key of row `i`.
    pub fn key_at(&self, i: usize) -> (key: &K)
        requires
            i < self.items().len(),
        ensures
            key@ == self.items()[i as int].0,
    {
        &self.rows[i].0
    }

    /// The value of row `i`.
    pub fn value_at(&self, i: usize) -> (value: &V)
        requires
            i < self.items().len(),
        ensures
            value@ == self.items()[i as int].1,
    {
        &self.rows[i].1
    }

    fn find(&self, key: &K) -> (found: Option<usize>)
        ensures
            match found {
                Some(i) => i < self.rows@.len() && self.rows@[i as int].0@ == key@
                    && self@.contains_key(key@) && self@[key@] == self.rows@[i as int].1@,
                None => !self@.contains_key(key@),
            },
    {
        let mut i: usize = 0;
        while i < self.rows.len()
            invariant
                i <= self.rows@.len(),
                forall|j: int| 0 <= j < i ==> (#[trigger] self.rows@[j]).0@ != key@,
            decreases self.rows@.len() - i,
        {
            if self.rows[i].0.same(key) {
                proof {
                    use_type_invariant(self);
                    lemma_row_is_entry(self.items(), i as int);
                }
                return Some(i);
            }
            i = i + 1;
        }
        proof {
            if self@.contains_key(key@) {
                let n = lemma_entry_is_row(self.items(), key@);
                assert(self.rows@[n].0@ != key@);
            }
        }
        None
    }

    /// Whether a key has a row.
    pub fn contains_key(&self, key: &K) -> (found: bool)
        ensures
            found == self@.contains_key(key@),
    {
        self.find(key).is_some()
    }

    /// The value of a key.
    pub fn get(&self, key: &K) -> (value: Option<&V>)
        ensures
            keys_distinct(self.items()),
            self@ == rows_map(self.items()),
            match value {
                Some(v) => self@.contains_key(key@) && self@[key@] == v@,
                None => !self@.contains_key(key@),
            },
    {
        proof {
            use_type_invariant(self);
        }
        match self.find(key) {
            Some(i) => Some(&self.rows[i].1),
            None => None,
        }
    }

    /// Gives a key a value, in its row where it has one, else in a new last row.
    pub fn insert(&mut self, key: K, value: V)
        ensures
            final(self)@ == old(self)@.insert(key@, value@),
            final(self).items() == put(old(self).items(), key@, value@),
    {
        proof {
            use_type_invariant(&*self);
        }
        let found = self.find(&key);
        let mut rows: Vec<(K, V)> = Vec::new();
        core::mem::swap(&mut rows, &mut self.rows);
        let ghost before = row_views(rows@);
        match found {
            Some(i) => {
                proof {
                    lemma_update_row(before, i as int, value@);
                }
                rows[i] = (key, value);
                assert(row_views(rows@) =~= before.update(i as int, (key@, value@)));
                assert(row_of(before, key@, i as int));
            },
            None => {
                proof {
                    lemma_push_row(before, key@, value@);
                }
                rows.push((key, value));
                assert(row_views(rows@) =~= before.push((key@, value@)));
            },
        }
        self.rows = rows;
    }

    /// Takes the row of a key out.
    pub fn remove(&mut self, key: &K) -> (value: Option<V>)
        ensures
            final(self)@ == old(self)@.remove(key@),
            final(self).items() == cut(old(self).items(), key@),
            match value {
                Some(v) => old(self)@.contains_key(key@) && old(self)@[key@] == v@,
                None => !old(self)@.contains_key(key@),
            },
    {
        proof {
            use_type_invariant(&*self);
        }
        match self.find(key) {
            Some(i) => {
                let mut rows: Vec<(K, V)> = Vec::new();
                core::mem::swap(&mut rows, &mut self.rows);
                let ghost before = row_views(rows@);
                proof {
                    lemma_remove_row(before, i as int);
                }
                let row = rows.remove(i);
                assert(row_views(rows@) =~= before.remove(i as int));
                assert(row_of(before, key@, i as int));
                self.rows = rows;
                Some(row.1)
            },
            None => {
                assert(self@ =~= old(self)@.remove(key@));
                None
            },
        }
    }
}

impl<K: Key, V: View> Table<K, V> {
    /// The rows, in their order.
    pub fn into_rows(self) -> (rows: Vec<(K, V)>)
        ensures
            row_views(rows@) == self.items(),
            keys_distinct(self.items()),
            self@ == rows_map(self.items()),
    {
        proof {
            use_type_invariant(&self);
        }
        self.rows
    }
}

impl<K: Key, V: View + Clone> Clone for Table<K, V> {
    fn clone(&self) -> (copy: Self)
        ensures
            clone_keeps_view::<V>() ==> copy@ == self@ && copy.items() == self.items(),
    {
        proof {
            use_type_invariant(self);
        }
        let mut rows: Vec<(K, V)> = Vec::new();
        let mut i: usize = 0;
        while i < self.rows.len()
            invariant
                i <= self.rows@.len(),
                rows@.len() == i,
                forall|j: int| 0 <= j < i ==> (#[trigger] rows@[j]).0@ == self.rows@[j].0@,
                clone_keeps_view::<V>() ==> forall|j: int|
                    0 <= j < i ==> (#[trigger] rows@[j]).1@ == self.rows@[j].1@,
            decreases self.rows@.len() - i,
        {
            let value = self.rows[i].1.clone();
            assert(cloned(self.rows@[i as int].1, value));
            rows.push((self.rows[i].0.copied(), value));
            i = i + 1;
        }
        proof {
            let ours = row_views(self.rows@);
            let theirs = row_views(rows@);
            assert forall|m: int, n: int|
                0 <= m < theirs.len() && 0 <= n < theirs.len() && m != n implies (
            #[trigger] theirs[m]).0 != (#[trigger] theirs[n]).0 by {
                assert(ours[m].0 != ours[n].0);
            }
            if clone_keeps_view::<V>() {
                assert(theirs =~= ours);
            }
        }
        Table { rows }
    }
}

} // verus!
