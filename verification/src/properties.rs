//! The properties of a menu item, by name.
use vstd::prelude::*;
use zbus::zvariant::OwnedValue;

use crate::value::{named_values, owned_holds, ValueModel};

verus! {

/// Whether no name occurs twice.
pub open spec fn distinct_names(entries: Seq<(String, OwnedValue)>) -> bool {
    forall|i: int, j: int|
        0 <= i < j < entries.len() ==> (#[trigger] entries[i]).0@ != (#[trigger] entries[j]).0@
}

/// A map from property names to values. No name occurs twice.
#[derive(Debug)]
pub struct Properties {
    entries: Vec<(String, OwnedValue)>,
}

impl View for Properties {
    type V = Map<Seq<char>, ValueModel>;

    closed spec fn view(&self) -> Map<Seq<char>, ValueModel> {
        named_values(self.entries@)
    }
}

/// What the map of a list of named values holds, where no name occurs twice.
proof fn lemma_named_values(entries: Seq<(String, OwnedValue)>)
    requires
        distinct_names(entries),
    ensures
        forall|i: int|
            0 <= i < entries.len() ==> {
                &&& named_values(entries).contains_key((#[trigger] entries[i]).0@)
                &&& named_values(entries)[entries[i].0@] == owned_holds(entries[i].1)
            },
        forall|name: Seq<char>| #[trigger]
            named_values(entries).contains_key(name) ==> exists|i: int|
                0 <= i < entries.len() && (#[trigger] entries[i]).0@ == name,
        named_values(entries).dom().finite(),
        named_values(entries).len() == entries.len(),
    decreases entries.len(),
{
    if entries.len() > 0 {
        let init = entries.drop_last();
        assert(distinct_names(init)) by {
            assert forall|i: int, j: int| 0 <= i < j < init.len() implies (#[trigger] init[i]).0@
                != (#[trigger] init[j]).0@ by {
                assert(init[i] == entries[i] && init[j] == entries[j]);
            }
        }
        lemma_named_values(init);
        let last = entries.len() - 1;
        assert forall|i: int| 0 <= i < entries.len() implies {
            &&& named_values(entries).contains_key((#[trigger] entries[i]).0@)
            &&& named_values(entries)[entries[i].0@] == owned_holds(entries[i].1)
        } by {
            if i < last {
                assert(init[i] == entries[i]);
                assert(entries[i].0@ != entries[last].0@);
            }
        }
        assert forall|name: Seq<char>| #[trigger]
            named_values(entries).contains_key(name) implies exists|i: int|
            0 <= i < entries.len() && (#[trigger] entries[i]).0@ == name by {
            if name == entries[last].0@ {
                assert(entries[last].0@ == name);
            } else {
                assert(named_values(init).contains_key(name));
                let i = choose|i: int| 0 <= i < init.len() && (#[trigger] init[i]).0@ == name;
                assert(entries[i].0@ == name);
            }
        }
        if named_values(init).contains_key(entries[last].0@) {
            let i = choose|i: int|
                0 <= i < init.len() && (#[trigger] init[i]).0@ == entries[last].0@;
            assert(entries[i].0@ == entries[last].0@);
        }
    }
}

impl Properties {
    #[verifier::type_invariant]
    spec fn wf(self) -> bool {
        distinct_names(self.entries@)
    }

    /// No properties.
    pub fn new() -> (res: Self)
        ensures
            res@ == Map::<Seq<char>, ValueModel>::empty(),
    {
        Properties { entries: Vec::new() }
    }

    /// The position of a name.
    fn find(entries: &Vec<(String, OwnedValue)>, name: &String) -> (res: Option<usize>)
        ensures
            res matches Some(i) ==> i < entries.len() && entries[i as int].0@ == name@,
            res is None ==> forall|j: int| 0 <= j < entries.len() ==> (#[trigger] entries[j]).0@
                != name@,
    {
        let mut i: usize = 0;
        while i < entries.len()
            invariant
                i <= entries.len(),
                forall|j: int| 0 <= j < i ==> (#[trigger] entries[j]).0@ != name@,
            decreases entries.len() - i,
        {
            if entries[i].0 == *name {
                return Some(i);
            }
            i = i + 1;
        }
        None
    }

    /// Sets a property, in place of an earlier value of that name.
    pub fn insert(&mut self, name: String, value: OwnedValue)
        ensures
            final(self)@ == old(self)@.insert(name@, owned_holds(value)),
    {
        proof {
            use_type_invariant(&*self);
        }
        let mut entries: Vec<(String, OwnedValue)> = Vec::new();
        std::mem::swap(&mut entries, &mut self.entries);
        let ghost before = entries@;
        let ghost name_text = name@;
        let ghost content = owned_holds(value);
        match Properties::find(&entries, &name) {
            Some(i) => {
                entries.set(i, (name, value));
                proof {
                    assert forall|a: int, b: int| 0 <= a < b < entries.len() implies (
                    #[trigger] entries[a]).0@ != (#[trigger] entries[b]).0@ by {
                        assert(before[a].0@ != before[b].0@);
                    }
                    lemma_named_values(before);
                    lemma_named_values(entries@);
                    let target = named_values(before).insert(name_text, content);
                    assert forall|k: Seq<char>| #[trigger]
                        named_values(entries@).contains_key(k) == target.contains_key(k) by {
                        if target.contains_key(k) {
                            if k == name_text {
                                assert(entries[i as int].0@ == k);
                            } else {
                                let j = choose|j: int|
                                    0 <= j < before.len() && (#[trigger] before[j]).0@ == k;
                                assert(entries[j].0@ == k);
                            }
                        }
                        if named_values(entries@).contains_key(k) {
                            let j = choose|j: int|
                                0 <= j < entries.len() && (#[trigger] entries@[j]).0@ == k;
                            assert(before[j].0@ == k);
                        }
                    }
                    assert forall|k: Seq<char>| #[trigger]
                        named_values(entries@).contains_key(k) implies named_values(entries@)[k]
                        == target[k] by {
                        let j = choose|j: int|
                            0 <= j < entries.len() && (#[trigger] entries@[j]).0@ == k;
                        assert(before[j].0@ == k);
                    }
                    assert(named_values(entries@) =~= target);
                }
            },
            None => {
                entries.push((name, value));
                proof {
                    assert forall|a: int, b: int| 0 <= a < b < entries.len() implies (
                    #[trigger] entries[a]).0@ != (#[trigger] entries[b]).0@ by {
                        if b < before.len() {
                            assert(before[a].0@ != before[b].0@);
                        } else {
                            assert(before[a].0@ != name_text);
                        }
                    }
                    assert(entries@.drop_last() =~= before);
                }
            },
        }
        self.entries = entries;
    }

    /// The number of properties.
    pub fn len(&self) -> (res: usize)
        ensures
            res == self@.len(),
    {
        proof {
            use_type_invariant(self);
            lemma_named_values(self.entries@);
        }
        self.entries.len()
    }

    /// The value of a property.
    pub fn get(&self, name: &str) -> (res: Option<&OwnedValue>)
        ensures
            res is Some <==> self@.contains_key(name@),
            res matches Some(value) ==> owned_holds(*value) == self@[name@],
    {
        proof {
            use_type_invariant(self);
            lemma_named_values(self.entries@);
        }
        match Properties::find(&self.entries, &name.to_string()) {
            Some(i) => Some(&self.entries[i].1),
            None => None,
        }
    }

    /// All properties with their names. No name occurs twice.
    pub fn into_entries(self) -> (res: Vec<(String, OwnedValue)>)
        ensures
            named_values(res@) == self@,
            distinct_names(res@),
            res.len() == self@.len(),
            forall|i: int|
                0 <= i < res.len() ==> self@.contains_key((#[trigger] res@[i]).0@)
                    && self@[res@[i].0@] == owned_holds(res@[i].1),
    {
        proof {
            use_type_invariant(&self);
            lemma_named_values(self.entries@);
        }
        self.entries
    }
}

} // verus!
