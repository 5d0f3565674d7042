//! The ordered table that holds both the top-level configuration and every
//! nested `Value::Table`.
use vstd::prelude::*;

use crate::value::Value;

verus! {

/// One entry of a table: its key, as characters, and its value.
pub type Entry = (Seq<char>, Value);

/// The entries of a table, in the table's order.
pub uninterp spec fn table_entries(t: Table) -> Seq<Entry>;

/// An ordered map from string keys to values: keys are unique, and each key
/// keeps the place at which it was first inserted.
///
/// Relies on `IndexMap`, which holds each key once: the entries of every
/// table have unique keys.
#[verifier::external_body]
#[derive(Debug, PartialEq)]
pub struct Table {
    map: indexmap::IndexMap<String, Value>,
}

/// The first index at which `es` holds key `k`, or -1.
pub open spec fn index_of(es: Seq<Entry>, k: Seq<char>) -> int
    decreases es.len(),
{
    if es.len() == 0 {
        -1
    } else if es[0].0 == k {
        0
    } else {
        let i = index_of(es.drop_first(), k);
        if i < 0 {
            -1
        } else {
            i + 1
        }
    }
}

/// The value that `es` maps `k` to.
pub open spec fn lookup(es: Seq<Entry>, k: Seq<char>) -> Option<Value> {
    let i = index_of(es, k);
    if i < 0 {
        None
    } else {
        Some(es[i].1)
    }
}

/// The keys of `es`, in order.
pub open spec fn keys_of(es: Seq<Entry>) -> Seq<Seq<char>> {
    es.map_values(|e: Entry| e.0)
}

/// `es` after inserting `k` with `v`: an existing key keeps its place and
/// takes the new value, a new key goes last.
pub open spec fn insert_entry(es: Seq<Entry>, k: Seq<char>, v: Value) -> Seq<Entry> {
    let i = index_of(es, k);
    if i < 0 {
        es.push((k, v))
    } else {
        es.update(i, (k, v))
    }
}

/// `es` after inserting every entry of `new`, in order.
pub open spec fn insert_all(es: Seq<Entry>, new: Seq<Entry>) -> Seq<Entry>
    decreases new.len(),
{
    if new.len() == 0 {
        es
    } else {
        let last = new.last();
        insert_entry(insert_all(es, new.drop_last()), last.0, last.1)
    }
}

/// No key occurs twice in `es`.
pub open spec fn unique_keys(es: Seq<Entry>) -> bool {
    forall|i: int, j: int| 0 <= i < j < es.len() ==> es[i].0 != es[j].0
}

/// `index_of` finds the first entry with the key, and -1 only where there
/// is none.
pub proof fn lemma_index_of(es: Seq<Entry>, k: Seq<char>)
    ensures
        -1 <= index_of(es, k) < es.len(),
        index_of(es, k) >= 0 ==> es[index_of(es, k)].0 == k,
        forall|j: int|
            0 <= j < es.len() && (index_of(es, k) < 0 || j < index_of(es, k)) ==> #[trigger] es[j].0
                != k,
    decreases es.len(),
{
    if es.len() > 0 && es[0].0 != k {
        lemma_index_of(es.drop_first(), k);
        assert forall|j: int|
            0 <= j < es.len() && (index_of(es, k) < 0 || j < index_of(es, k)) implies #[trigger] es[j].0
            != k by {
            if j > 0 {
                assert(es[j] == es.drop_first()[j - 1]);
            }
        }
    }
}

/// The first entry with key `k` is at `i` when `i` holds `k` and no entry
/// before it does.
pub proof fn lemma_index_of_at(es: Seq<Entry>, k: Seq<char>, i: int)
    requires
        0 <= i < es.len(),
        es[i].0 == k,
        forall|j: int| 0 <= j < i ==> #[trigger] es[j].0 != k,
    ensures
        index_of(es, k) == i,
{
    lemma_index_of(es, k);
}

/// No entry holds `k` exactly where `index_of` gives -1.
pub proof fn lemma_index_of_none(es: Seq<Entry>, k: Seq<char>)
    requires
        forall|j: int| 0 <= j < es.len() ==> #[trigger] es[j].0 != k,
    ensures
        index_of(es, k) == -1,
{
    lemma_index_of(es, k);
}

/// Reading a key after an insert gives the inserted value for that key and
/// the old value for any other.
pub proof fn lemma_insert_entry(es: Seq<Entry>, k: Seq<char>, v: Value, k2: Seq<char>)
    ensures
        lookup(insert_entry(es, k, v), k2) == (if k2 == k {
            Some(v)
        } else {
            lookup(es, k2)
        }),
        (index_of(insert_entry(es, k, v), k2) >= 0) == (k2 == k || index_of(es, k2) >= 0),
{
    let es2 = insert_entry(es, k, v);
    lemma_index_of(es, k);
    lemma_index_of(es, k2);
    lemma_index_of(es2, k2);
    let i = index_of(es, k);
    let i2 = index_of(es, k2);
    if i < 0 {
        if k2 == k {
            assert forall|j: int| 0 <= j < es.len() implies #[trigger] es2[j].0 != k2 by {
                assert(es2[j] == es[j]);
            }
            lemma_index_of_at(es2, k2, es.len() as int);
        } else if i2 >= 0 {
            assert forall|j: int| 0 <= j < i2 implies #[trigger] es2[j].0 != k2 by {
                assert(es2[j] == es[j]);
            }
            assert(es2[i2] == es[i2]);
            lemma_index_of_at(es2, k2, i2);
        } else {
            assert forall|j: int| 0 <= j < es2.len() implies #[trigger] es2[j].0 != k2 by {
                if j < es.len() {
                    assert(es2[j] == es[j]);
                }
            }
            lemma_index_of_none(es2, k2);
        }
    } else {
        if k2 == k {
            assert forall|j: int| 0 <= j < i implies #[trigger] es2[j].0 != k2 by {
                assert(es2[j] == es[j]);
            }
            lemma_index_of_at(es2, k2, i);
        } else if i2 >= 0 {
            assert forall|j: int| 0 <= j < i2 implies #[trigger] es2[j].0 != k2 by {
                assert(es2[j] == es[j] || j == i);
            }
            assert(es2[i2] == es[i2]);
            lemma_index_of_at(es2, k2, i2);
        } else {
            assert forall|j: int| 0 <= j < es2.len() implies #[trigger] es2[j].0 != k2 by {
                if j != i {
                    assert(es2[j] == es[j]);
                }
            }
            lemma_index_of_none(es2, k2);
        }
    }
}

/// Reading a key after inserting a table of unique keys gives the table's
/// value where it holds the key, and the old value elsewhere.
pub proof fn lemma_insert_all(es: Seq<Entry>, new: Seq<Entry>, k: Seq<char>)
    requires
        unique_keys(new),
    ensures
        lookup(insert_all(es, new), k) == (if index_of(new, k) >= 0 {
            lookup(new, k)
        } else {
            lookup(es, k)
        }),
        (index_of(insert_all(es, new), k) >= 0) == (index_of(new, k) >= 0 || index_of(es, k) >= 0),
    decreases new.len(),
{
    if new.len() > 0 {
        let p = new.drop_last();
        let last = new.last();
        assert(unique_keys(p)) by {
            assert forall|i: int, j: int| 0 <= i < j < p.len() implies p[i].0 != p[j].0 by {
                assert(p[i] == new[i] && p[j] == new[j]);
            }
        }
        lemma_insert_all(es, p, k);
        lemma_insert_entry(insert_all(es, p), last.0, last.1, k);
        lemma_index_of(p, k);
        lemma_index_of(new, k);
        if k == last.0 {
            assert forall|j: int| 0 <= j < new.len() - 1 implies #[trigger] new[j].0 != k by {
                assert(new[j].0 != new[new.len() - 1].0);
            }
            lemma_index_of_at(new, k, new.len() - 1);
        } else {
            let i = index_of(p, k);
            if i >= 0 {
                assert forall|j: int| 0 <= j < i implies #[trigger] new[j].0 != k by {
                    assert(new[j] == p[j]);
                }
                assert(new[i] == p[i]);
                lemma_index_of_at(new, k, i);
            } else {
                assert forall|j: int| 0 <= j < new.len() implies #[trigger] new[j].0 != k by {
                    if j < p.len() {
                        assert(new[j] == p[j]);
                    }
                }
                lemma_index_of_none(new, k);
            }
        }
    }
}

impl Table {
    /// The keys of a table are unique.
    #[verifier::type_invariant]
    pub closed spec fn keys_unique(self) -> bool {
        unique_keys(table_entries(self))
    }
}

impl View for Table {
    type V = Seq<Entry>;

    open spec fn view(&self) -> Seq<Entry> {
        table_entries(*self)
    }
}

/// Relies on `IndexMap::new`: a new map is empty.
#[verifier::external_body]
fn index_map_new() -> (r: Table)
    ensures
        table_entries(r) == Seq::<Entry>::empty(),
{
    Table { map: indexmap::IndexMap::new() }
}

/// Relies on `IndexMap::insert`: an existing key keeps its place and takes
/// the new value; a new key is inserted last.
#[verifier::external_body]
fn index_map_insert(t: &mut Table, k: String, v: Value)
    ensures
        table_entries(*final(t)) == insert_entry(table_entries(*old(t)), k@, v),
{
    t.map.insert(k, v);
}

/// Relies on `IndexMap::get`: the value stored under the key, if any.
#[verifier::external_body]
fn index_map_get<'a>(t: &'a Table, k: &str) -> (r: Option<&'a Value>)
    ensures
        r matches Some(v) ==> lookup(table_entries(*t), k@) == Some(*v),
        r is None ==> lookup(table_entries(*t), k@) is None,
{
    t.map.get(k)
}

/// Relies on `IndexMap::get_mut`: the value stored under the key, to change
/// in place; the key keeps its place.
#[verifier::external_body]
fn index_map_get_mut<'a>(t: &'a mut Table, k: &str) -> (r: Option<&'a mut Value>)
    ensures
        match lookup(table_entries(*old(t)), k@) {
            Some(v) => r matches Some(m) && *m == v && table_entries(*final(t)) == table_entries(
                *old(t),
            ).update(index_of(table_entries(*old(t)), k@), (k@, *final(m))),
            None => r is None && *final(t) == *old(t),
        },
{
    t.map.get_mut(k)
}

/// Relies on `IndexMap::len`: the number of entries.
#[verifier::external_body]
fn index_map_len(t: &Table) -> (r: usize)
    ensures
        r == table_entries(*t).len(),
{
    t.map.len()
}

/// Relies on `IndexMap::get_index`: the entry at a position in the order.
#[verifier::external_body]
fn index_map_get_index<'a>(t: &'a Table, i: usize) -> (r: (&'a String, &'a Value))
    requires
        i < table_entries(*t).len(),
    ensures
        (r.0@, *r.1) == table_entries(*t)[i as int],
{
    t.map.get_index(i).unwrap()
}

/// Relies on `IndexMap::clone`, which clones each key and value in order:
/// as `Value::clone` keeps every value, the copy is the same table.
#[verifier::external_body]
fn index_map_clone(t: &Table) -> (r: Table)
    ensures
        r == *t,
        table_entries(r) == table_entries(*t),
{
    Table { map: t.map.clone() }
}

impl Clone for Table {
    fn clone(&self) -> (r: Table)
        ensures
            r == *self,
    {
        index_map_clone(self)
    }
}

impl Table {
    /// An empty table.
    pub fn new() -> (r: Table)
        ensures
            r@ == Seq::<Entry>::empty(),
    {
        index_map_new()
    }

    /// Inserts `v` under `k`: an existing key keeps its place, a new key
    /// goes last.
    pub fn insert(&mut self, k: String, v: Value)
        ensures
            final(self)@ == insert_entry(old(self)@, k@, v),
    {
        index_map_insert(self, k, v)
    }

    /// The value stored under `k`.
    pub fn get<'a>(&'a self, k: &str) -> (r: Option<&'a Value>)
        ensures
            r matches Some(v) ==> lookup(self@, k@) == Some(*v),
            r is None ==> lookup(self@, k@) is None,
    {
        index_map_get(self, k)
    }

    /// The value stored under `k`, to change in place.
    pub fn get_mut<'a>(&'a mut self, k: &str) -> (r: Option<&'a mut Value>)
        ensures
            match lookup(old(self)@, k@) {
                Some(v) => r matches Some(m) && *m == v && final(self)@ == old(self)@.update(
                    index_of(old(self)@, k@),
                    (k@, *final(m)),
                ),
                None => r is None && *final(self) == *old(self),
            },
    {
        index_map_get_mut(self, k)
    }

    /// Whether `k` is a key of the table.
    pub fn contains_key(&self, k: &str) -> (r: bool)
        ensures
            r == (index_of(self@, k@) >= 0),
    {
        index_map_get(self, k).is_some()
    }

    /// The number of entries; no key occurs twice among them.
    pub fn len(&self) -> (r: usize)
        ensures
            r == self@.len(),
            unique_keys(self@),
    {
        proof {
            use_type_invariant(self);
        }
        index_map_len(self)
    }

    /// The entry at position `i`.
    pub fn entry_at<'a>(&'a self, i: usize) -> (r: (&'a String, &'a Value))
        requires
            i < self@.len(),
        ensures
            (r.0@, *r.1) == self@[i as int],
    {
        index_map_get_index(self, i)
    }
}

} // verus!
