//! Whether the dictionaries in a D-Bus value can be sorted.
use vstd::prelude::*;
use zbus::zvariant::Value;

use crate::value::{
    all_hold, entries_of, entry_refs_hold, keys_of, orderly, simple, sortable, value_holds,
    value_parts, KeyModel, ValueModel, ValueParts,
};

verus! {

/// Whether all values in a dictionary can be sorted.
pub open spec fn entries_sortable(m: ValueModel) -> bool {
    match m {
        ValueModel::Dict(d) => forall|k: KeyModel| d.contains_key(k) ==> sortable(#[trigger] d[k]),
        ValueModel::OddDict(s) => forall|i: int| 0 <= i < s.len() ==> sortable((#[trigger] s[i]).1),
        _ => true,
    }
}

/// A dictionary is as sortable as its entries.
pub proof fn lemma_entries_sortable(m: ValueModel, entries: Seq<(ValueModel, ValueModel)>)
    requires
        entries_of(m, entries),
    ensures
        entries_sortable(m) == (forall|i: int|
            0 <= i < entries.len() ==> sortable((#[trigger] entries[i]).1)),
        sortable(m) == (orderly(entries) && forall|i: int|
            0 <= i < entries.len() ==> sortable((#[trigger] entries[i]).0) && sortable(
                entries[i].1,
            )),
{
    if let ValueModel::Dict(d) = m {
        let keys = keys_of(entries);
        assert forall|i: int| 0 <= i < entries.len() implies sortable((#[trigger] entries[i]).0) by {
            assert(simple(entries[i].0));
        }
        if forall|i: int| 0 <= i < entries.len() ==> sortable((#[trigger] entries[i]).1) {
            assert forall|k: KeyModel| d.contains_key(k) implies sortable(#[trigger] d[k]) by {
                let i = choose|i: int| 0 <= i < keys.len() && keys[i] == k;
                assert(sortable(entries[i].1));
            }
        }
        if entries_sortable(m) {
            assert forall|i: int| 0 <= i < entries.len() implies sortable(
                (#[trigger] entries[i]).1,
            ) by {
                assert(keys.contains(keys[i]));
                assert(sortable(d[keys[i]]));
            }
        }
    }
}

/// Whether the dictionaries in a value can be sorted.
pub fn is_sortable(v: &Value<'static>) -> (res: bool)
    ensures
        res == sortable(value_holds(*v)),
    decreases value_holds(*v),
{
    let ghost m = value_holds(*v);
    match value_parts(v) {
        ValueParts::Simple | ValueParts::Signature | ValueParts::Fd => true,
        ValueParts::Variant(inner) => {
            assert(decreases_to!(m => *m->Variant_0));
            is_sortable(inner)
        },
        ValueParts::Array(values) => {
            let ghost all = all_hold(values@);
            let mut i: usize = 0;
            while i < values.len()
                invariant
                    i <= values.len(),
                    m == value_holds(*v),
                    all == all_hold(values@),
                    m == ValueModel::Array(all),
                    forall|j: int| 0 <= j < i ==> sortable(#[trigger] all[j]),
                decreases values.len() - i,
            {
                assert(all.len() == values.len());
                assert(decreases_to!(m => m->Array_0[i as int]));
                if !is_sortable(&values[i]) {
                    assert(!sortable(m->Array_0[i as int]));
                    return false;
                }
                i = i + 1;
            }
            true
        },
        ValueParts::Structure(values) => {
            let ghost all = all_hold(values@);
            let mut i: usize = 0;
            while i < values.len()
                invariant
                    i <= values.len(),
                    m == value_holds(*v),
                    all == all_hold(values@),
                    m == ValueModel::Structure(all),
                    forall|j: int| 0 <= j < i ==> sortable(#[trigger] all[j]),
                decreases values.len() - i,
            {
                assert(all.len() == values.len());
                assert(decreases_to!(m => m->Structure_0[i as int]));
                if !is_sortable(&values[i]) {
                    assert(!sortable(m->Structure_0[i as int]));
                    return false;
                }
                i = i + 1;
            }
            true
        },
        ValueParts::Dict(entries) => {
            let ghost all = entry_refs_hold(entries@);
            proof {
                lemma_entries_sortable(m, all);
            }
            let mut i: usize = 0;
            while i < entries.len()
                invariant
                    i <= entries.len(),
                    m == value_holds(*v),
                    all == entry_refs_hold(entries@),
                    entries_of(m, all),
                    sortable(m) == (orderly(all) && forall|j: int|
                        0 <= j < all.len() ==> sortable((#[trigger] all[j]).0) && sortable(
                            all[j].1,
                        )),
                    forall|j: int|
                        0 <= j < i ==> sortable((#[trigger] all[j]).0) && sortable(all[j].1) && (
                        entries.len() <= 1 || simple(all[j].0) || all[j].0 is Fd),
                decreases entries.len() - i,
            {
                let (key, value) = entries[i];
                assert(all[i as int] == (value_holds(*key), value_holds(*value)));
                let in_order = match value_parts(key) {
                    ValueParts::Simple | ValueParts::Fd => true,
                    _ => false,
                };
                if entries.len() > 1 && !in_order {
                    return false;
                }
                proof {
                    if let ValueModel::Dict(d) = m {
                        assert(keys_of(all).contains(keys_of(all)[i as int]));
                        assert(decreases_to!(m => m->Dict_0[keys_of(all)[i as int]]));
                    } else {
                        assert(decreases_to!(m => m->OddDict_0[i as int].0));
                        assert(decreases_to!(m => m->OddDict_0[i as int].1));
                    }
                }
                if !in_order && !is_sortable(key) {
                    return false;
                }
                if !is_sortable(value) {
                    return false;
                }
                i = i + 1;
            }
            true
        },
    }
}

/// Whether the values in a dictionary can be sorted. True of what is no dictionary.
pub fn are_entries_sortable(v: &Value<'static>) -> (res: bool)
    ensures
        res == entries_sortable(value_holds(*v)),
{
    let ghost m = value_holds(*v);
    match value_parts(v) {
        ValueParts::Dict(entries) => {
            let ghost all = entry_refs_hold(entries@);
            proof {
                lemma_entries_sortable(m, all);
            }
            let mut i: usize = 0;
            while i < entries.len()
                invariant
                    i <= entries.len(),
                    m == value_holds(*v),
                    all == entry_refs_hold(entries@),
                    entries_sortable(m) == (forall|j: int|
                        0 <= j < all.len() ==> sortable((#[trigger] all[j]).1)),
                    forall|j: int| 0 <= j < i ==> sortable((#[trigger] all[j]).1),
                decreases entries.len() - i,
            {
                assert(all.len() == entries.len());
                if !is_sortable(entries[i].1) {
                    assert(!sortable(all[i as int].1));
                    return false;
                }
                i = i + 1;
            }
            true
        },
        _ => true,
    }
}

} // verus!
