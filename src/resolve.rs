//! The layered resolution: sources merged into defaults, the override
//! document applied to the keys that the defaults define, and environment
//! variables applied to the keys that hold no table.
use vstd::prelude::*;

use crate::table::{
    index_of, insert_all, insert_entry, lemma_index_of, lemma_insert_all, lemma_insert_entry,
    lookup, unique_keys, Entry, Table,
};
use crate::text::{first_segment, first_segment_of, lower_of, lowercase};
use crate::value::Value;

verus! {

/// The views of a list of tables.
pub open spec fn views(ts: Seq<Table>) -> Seq<Seq<Entry>> {
    ts.map_values(|t: Table| t@)
}

/// The sources merged left to right: a later source overwrites the
/// top-level keys of an earlier one.
pub open spec fn merge_sources(srcs: Seq<Seq<Entry>>) -> Seq<Entry>
    decreases srcs.len(),
{
    if srcs.len() == 0 {
        Seq::empty()
    } else {
        insert_all(merge_sources(srcs.drop_last()), srcs.last())
    }
}

/// `values` after each entry of `changes`, in order, overwrites the key of
/// the same name where `values` already has it.
pub open spec fn apply_overrides(values: Seq<Entry>, changes: Seq<Entry>) -> Seq<Entry>
    decreases changes.len(),
{
    if changes.len() == 0 {
        values
    } else {
        let prev = apply_overrides(values, changes.drop_last());
        let last = changes.last();
        if index_of(prev, last.0) >= 0 {
            insert_entry(prev, last.0, last.1)
        } else {
            prev
        }
    }
}

/// `values` after one environment variable, whose lowercased name is
/// `lowered`: the first segment of the name picks a key, and a key that
/// exists and holds no table takes the variable's value as a string.
pub open spec fn apply_env_var(values: Seq<Entry>, lowered: Seq<char>, raw: String) -> Seq<Entry> {
    match first_segment_of(lowered) {
        None => values,
        Some(k) => match lookup(values, k) {
            Some(v) => if v is Table {
                values
            } else {
                insert_entry(values, k, Value::String(raw))
            },
            None => values,
        },
    }
}

/// `values` after each environment variable of `env`, in order.
pub open spec fn apply_env(values: Seq<Entry>, env: Seq<(String, String)>) -> Seq<Entry>
    decreases env.len(),
{
    if env.len() == 0 {
        values
    } else {
        let last = env.last();
        apply_env_var(apply_env(values, env.drop_last()), lower_of(last.0@), last.1)
    }
}

/// The readable values: the defaults, then the override document, then the
/// environment if a snapshot of it is given.
pub open spec fn resolved(
    defaults: Seq<Entry>,
    changes: Seq<Entry>,
    env: Option<Seq<(String, String)>>,
) -> Seq<Entry> {
    match env {
        Some(e) => apply_env(apply_overrides(defaults, changes), e),
        None => apply_overrides(defaults, changes),
    }
}

/// Inserts every entry of `src` into `dst`, in order.
pub fn insert_all_into(dst: &mut Table, src: &Table)
    ensures
        final(dst)@ == insert_all(old(dst)@, src@),
        unique_keys(src@),
{
    let n = src.len();
    let mut i: usize = 0;
    while i < n
        invariant
            n == src@.len(),
            i <= n,
            dst@ == insert_all(old(dst)@, src@.take(i as int)),
        decreases n - i,
    {
        let (k, v) = src.entry_at(i);
        dst.insert(k.clone(), v.clone());
        assert(src@.take(i + 1).drop_last() =~= src@.take(i as int));
        i = i + 1;
    }
    assert(src@.take(n as int) =~= src@);
}

/// The sources merged left to right into one table.
pub fn merge(sources: &Vec<Table>) -> (r: Table)
    ensures
        r@ == merge_sources(views(sources@)),
        all_unique(views(sources@)),
{
    let mut out = Table::new();
    let mut i: usize = 0;
    while i < sources.len()
        invariant
            i <= sources@.len(),
            out@ == merge_sources(views(sources@.take(i as int))),
            forall|j: int| 0 <= j < i ==> unique_keys(#[trigger] sources@[j]@),
        decreases sources@.len() - i,
    {
        insert_all_into(&mut out, &sources[i]);
        assert(views(sources@.take(i + 1)).drop_last() =~= views(sources@.take(i as int)));
        i = i + 1;
    }
    assert(sources@.take(sources@.len() as int) =~= sources@);
    assert forall|j: int| 0 <= j < views(sources@).len() implies unique_keys(
        #[trigger] views(sources@)[j],
    ) by {
        assert(views(sources@)[j] == sources@[j]@);
    }
    out
}

/// Overwrites the keys of `values` that `changes` also holds.
pub fn override_existing(values: &mut Table, changes: &Table)
    ensures
        final(values)@ == apply_overrides(old(values)@, changes@),
        unique_keys(changes@),
{
    let n = changes.len();
    let mut i: usize = 0;
    while i < n
        invariant
            n == changes@.len(),
            i <= n,
            values@ == apply_overrides(old(values)@, changes@.take(i as int)),
        decreases n - i,
    {
        let (k, v) = changes.entry_at(i);
        assert(changes@.take(i + 1).drop_last() =~= changes@.take(i as int));
        if values.contains_key(k.as_str()) {
            values.insert(k.clone(), v.clone());
        }
        i = i + 1;
    }
    assert(changes@.take(n as int) =~= changes@);
}

/// Applies one environment variable, given its lowercased name and its
/// value.
pub fn overlay_env_var(values: &mut Table, lowered: &str, raw: String)
    ensures
        final(values)@ == apply_env_var(old(values)@, lowered@, raw),
{
    match first_segment(lowered) {
        None => {},
        Some(k) => {
            let overwrite = match values.get(k.as_str()) {
                Some(v) => !v.is_table(),
                None => false,
            };
            if overwrite {
                values.insert(k, Value::String(raw));
            }
        },
    }
}

/// Applies each environment variable of `env`, in order.
pub fn overlay_env(values: &mut Table, env: &Vec<(String, String)>)
    ensures
        final(values)@ == apply_env(old(values)@, env@),
{
    let mut i: usize = 0;
    while i < env.len()
        invariant
            i <= env@.len(),
            values@ == apply_env(old(values)@, env@.take(i as int)),
        decreases env@.len() - i,
    {
        let (name, raw) = &env[i];
        let lowered = lowercase(name.as_str());
        overlay_env_var(values, lowered.as_str(), raw.clone());
        assert(env@.take(i + 1).drop_last() =~= env@.take(i as int));
        i = i + 1;
    }
    assert(env@.take(env@.len() as int) =~= env@);
}

/// Each source has unique keys.
pub open spec fn all_unique(srcs: Seq<Seq<Entry>>) -> bool {
    forall|i: int| 0 <= i < srcs.len() ==> unique_keys(#[trigger] srcs[i])
}

/// The index of the last source that holds `k`, or -1.
pub open spec fn last_source_with(srcs: Seq<Seq<Entry>>, k: Seq<char>) -> int
    decreases srcs.len(),
{
    if srcs.len() == 0 {
        -1
    } else if index_of(srcs.last(), k) >= 0 {
        srcs.len() - 1
    } else {
        last_source_with(srcs.drop_last(), k)
    }
}

/// The merged sources give each key the value of the last source that
/// holds it.
pub proof fn lemma_merge_lookup(srcs: Seq<Seq<Entry>>, k: Seq<char>)
    requires
        all_unique(srcs),
    ensures
        -1 <= last_source_with(srcs, k) < srcs.len(),
        last_source_with(srcs, k) >= 0 ==> index_of(srcs[last_source_with(srcs, k)], k) >= 0,
        forall|l: int|
            last_source_with(srcs, k) < l < srcs.len() ==> index_of(#[trigger] srcs[l], k) < 0,
        lookup(merge_sources(srcs), k) == (if last_source_with(srcs, k) >= 0 {
            lookup(srcs[last_source_with(srcs, k)], k)
        } else {
            None
        }),
        (index_of(merge_sources(srcs), k) >= 0) == (last_source_with(srcs, k) >= 0),
    decreases srcs.len(),
{
    if srcs.len() > 0 {
        let p = srcs.drop_last();
        assert(all_unique(p)) by {
            assert forall|i: int| 0 <= i < p.len() implies unique_keys(#[trigger] p[i]) by {
                assert(p[i] == srcs[i]);
            }
        }
        lemma_merge_lookup(p, k);
        assert(unique_keys(srcs[srcs.len() - 1]));
        lemma_insert_all(merge_sources(p), srcs.last(), k);
        if index_of(srcs.last(), k) < 0 {
            assert forall|l: int| last_source_with(srcs, k) < l < srcs.len() implies index_of(
                #[trigger] srcs[l],
                k,
            ) < 0 by {
                if l < p.len() {
                    assert(srcs[l] == p[l]);
                }
            }
            if last_source_with(p, k) >= 0 {
                assert(srcs[last_source_with(p, k)] == p[last_source_with(p, k)]);
            }
        }
    } else {
        lemma_index_of(merge_sources(srcs), k);
    }
}

/// Where several sources hold the same top-level key, the merged defaults
/// take its value from the last of them.
pub proof fn later_source_wins(srcs: Seq<Seq<Entry>>, k: Seq<char>, j: int)
    requires
        all_unique(srcs),
        0 <= j < srcs.len(),
        index_of(srcs[j], k) >= 0,
        forall|l: int| j < l < srcs.len() ==> index_of(#[trigger] srcs[l], k) < 0,
    ensures
        lookup(merge_sources(srcs), k) == lookup(srcs[j], k),
{
    lemma_merge_lookup(srcs, k);
    let last = last_source_with(srcs, k);
    if last > j {
        assert(index_of(srcs[last], k) < 0);
    }
    if last < j {
        assert(index_of(srcs[j], k) < 0);
    }
}

/// Where no two sources share a top-level key, the merged defaults are the
/// union of the sources: a key is found exactly where some source holds it,
/// with that source's value.
pub proof fn disjoint_sources_union(srcs: Seq<Seq<Entry>>, k: Seq<char>)
    requires
        all_unique(srcs),
        forall|i: int, l: int, key: Seq<char>|
            #![trigger index_of(srcs[i], key), index_of(srcs[l], key)]
            0 <= i < l < srcs.len() && index_of(srcs[i], key) >= 0 ==> index_of(srcs[l], key) < 0,
    ensures
        (lookup(merge_sources(srcs), k) is None) == (forall|i: int|
            0 <= i < srcs.len() ==> lookup(#[trigger] srcs[i], k) is None),
        forall|i: int|
            0 <= i < srcs.len() && lookup(#[trigger] srcs[i], k) is Some ==> lookup(
                merge_sources(srcs),
                k,
            ) == lookup(srcs[i], k),
{
    lemma_merge_lookup(srcs, k);
    let last = last_source_with(srcs, k);
    assert forall|i: int|
        0 <= i < srcs.len() && lookup(#[trigger] srcs[i], k) is Some implies lookup(
            merge_sources(srcs),
            k,
        ) == lookup(srcs[i], k) by {
        if i < last {
            assert(index_of(srcs[last], k) < 0);
        }
        if i > last {
            assert(index_of(srcs[i], k) < 0);
        }
    }
    if last >= 0 {
        assert(lookup(srcs[last], k) is Some);
    }
}

/// A key of the override document takes effect exactly where the defaults
/// hold it; every other key keeps its default, and a key that the defaults
/// lack stays absent.
pub proof fn override_only_existing(defaults: Seq<Entry>, changes: Seq<Entry>, k: Seq<char>)
    requires
        unique_keys(changes),
    ensures
        lookup(apply_overrides(defaults, changes), k) == (if index_of(defaults, k) >= 0
            && index_of(changes, k) >= 0 {
            lookup(changes, k)
        } else {
            lookup(defaults, k)
        }),
        (index_of(apply_overrides(defaults, changes), k) >= 0) == (index_of(defaults, k) >= 0),
    decreases changes.len(),
{
    if changes.len() > 0 {
        let p = changes.drop_last();
        let last = changes.last();
        assert(unique_keys(p)) by {
            assert forall|i: int, j: int| 0 <= i < j < p.len() implies p[i].0 != p[j].0 by {
                assert(p[i] == changes[i] && p[j] == changes[j]);
            }
        }
        override_only_existing(defaults, p, k);
        override_only_existing(defaults, p, last.0);
        let prev = apply_overrides(defaults, p);
        lemma_insert_entry(prev, last.0, last.1, k);
        lemma_index_of(p, k);
        lemma_index_of(changes, k);
        if k == last.0 {
            assert forall|j: int| 0 <= j < changes.len() - 1 implies #[trigger] changes[j].0 != k by {
                assert(changes[j].0 != changes[changes.len() - 1].0);
            }
            crate::table::lemma_index_of_at(changes, k, changes.len() - 1);
        } else {
            let i = index_of(p, k);
            if i >= 0 {
                assert forall|j: int| 0 <= j < i implies #[trigger] changes[j].0 != k by {
                    assert(changes[j] == p[j]);
                }
                assert(changes[i] == p[i]);
                crate::table::lemma_index_of_at(changes, k, i);
            } else {
                assert forall|j: int| 0 <= j < changes.len() implies #[trigger] changes[j].0 != k by {
                    if j < p.len() {
                        assert(changes[j] == p[j]);
                    }
                }
                crate::table::lemma_index_of_none(changes, k);
            }
        }
    }
}

/// A key that was just set reads back as the value set, whether or not it
/// existed before.
pub proof fn set_then_get(values: Seq<Entry>, k: Seq<char>, v: Value)
    ensures
        lookup(insert_entry(values, k, v), k) == Some(v),
{
    lemma_insert_entry(values, k, v, k);
}

} // verus!
