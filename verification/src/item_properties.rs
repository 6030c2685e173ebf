//! The properties that the bus is told about a menu item.
use vstd::prelude::*;
use zbus::zvariant::OwnedValue;

use crate::flat::{FlatItem, FlatModel};
use crate::menu::texts;
use crate::properties::Properties;
use crate::value::{owned_bool, owned_holds, owned_i32, owned_str, ValueModel};

verus! {

/// Whether a request for the properties in `filter` asks for this one. An empty list asks for all.
pub open spec fn wanted(filter: Seq<Seq<char>>, name: Seq<char>) -> bool {
    filter.len() == 0 || filter.contains(name)
}

/// The value of a property of an item, unless the item has the default value.
pub open spec fn property(item: FlatModel, name: Seq<char>) -> Option<ValueModel> {
    if name == "type"@ {
        if item.item_type == "separator"@ {
            Some(ValueModel::Str("separator"@))
        } else {
            None
        }
    } else if name == "children-display"@ {
        if item.children.len() > 0 {
            Some(ValueModel::Str("submenu"@))
        } else {
            None
        }
    } else if name == "label"@ {
        if item.label.len() > 0 {
            Some(ValueModel::Str(item.label))
        } else {
            None
        }
    } else if name == "enabled"@ {
        if !item.enabled {
            Some(ValueModel::Bool(false))
        } else {
            None
        }
    } else if name == "toggle-type"@ {
        if item.toggle_state is Some {
            Some(ValueModel::Str("checkmark"@))
        } else {
            None
        }
    } else if name == "toggle-state"@ {
        match item.toggle_state {
            Some(state) => Some(ValueModel::I32(state)),
            None => None,
        }
    } else {
        None
    }
}

/// The properties of an item that a request asks for.
pub open spec fn item_properties(item: FlatModel, filter: Seq<Seq<char>>) -> Map<
    Seq<char>,
    ValueModel,
> {
    Map::new(
        |name: Seq<char>| wanted(filter, name) && property(item, name) is Some,
        |name: Seq<char>| property(item, name)->0,
    )
}

/// Whether two texts are the same.
pub fn same_text(a: &str, b: &str) -> (res: bool)
    ensures
        res == (a@ == b@),
{
    a.to_string() == b.to_string()
}

/// Whether a request for the properties in `filter` asks for this one.
fn is_wanted(filter: &[String], name: &str) -> (res: bool)
    ensures
        res == wanted(texts(filter@), name@),
{
    if filter.len() == 0 {
        return true;
    }
    let mut i: usize = 0;
    while i < filter.len()
        invariant
            i <= filter.len(),
            forall|j: int| 0 <= j < i ==> (#[trigger] texts(filter@)[j]) != name@,
        decreases filter.len() - i,
    {
        if same_text(filter[i].as_str(), name) {
            assert(texts(filter@)[i as int] == name@);
            return true;
        }
        i = i + 1;
    }
    false
}

/// Sets a property if the request asks for it.
fn offer(map: &mut Properties, filter: &[String], name: &str, value: OwnedValue)
    ensures
        final(map)@ == if wanted(texts(filter@), name@) {
            old(map)@.insert(name@, owned_holds(value))
        } else {
            old(map)@
        },
{
    if is_wanted(filter, name) {
        map.insert(name.to_string(), value);
    }
}

impl FlatItem {
    /// The properties of this item that a request asks for.
    pub fn to_dbus_map(&self, property_filter: &[String]) -> (res: Properties)
        ensures
            res@ == item_properties(self@, texts(property_filter@)),
    {
        let mut map = Properties::new();
        if same_text(self.item_type, "separator") {
            offer(&mut map, property_filter, "type", owned_str("separator"));
        }
        if !self.children.is_empty() {
            offer(&mut map, property_filter, "children-display", owned_str("submenu"));
        }
        if !self.label.as_str().is_empty() {
            offer(&mut map, property_filter, "label", owned_str(self.label.as_str()));
        }
        if !self.enabled {
            offer(&mut map, property_filter, "enabled", owned_bool(false));
        }
        if let Some(state) = self.toggle_state {
            offer(&mut map, property_filter, "toggle-type", owned_str("checkmark"));
            offer(&mut map, property_filter, "toggle-state", owned_i32(state));
        }
        proof {
            reveal_strlit("type");
            reveal_strlit("children-display");
            reveal_strlit("label");
            reveal_strlit("enabled");
            reveal_strlit("toggle-type");
            reveal_strlit("toggle-state");
            assert("type"@.len() == 4 && "children-display"@.len() == 16 && "label"@.len() == 5);
            assert("enabled"@.len() == 7 && "toggle-type"@.len() == 11);
            assert("toggle-state"@.len() == 12);
            let goal = item_properties(self@, texts(property_filter@));
            assert(self@.children.len() == self.children@.len());
            assert forall|name: Seq<char>| #[trigger]
                map@.contains_key(name) == goal.contains_key(name) by {}
            assert(map@ =~= goal);
        }
        map
    }
}

/// A request for some properties gets, of all properties, those that it names.
pub proof fn filter_selects(item: FlatModel, filter: Seq<Seq<char>>)
    requires
        filter.len() > 0,
    ensures
        item_properties(item, filter) == item_properties(item, Seq::empty()).restrict(
            filter.to_set(),
        ),
{
    assert(item_properties(item, filter) =~= item_properties(item, Seq::empty()).restrict(
        filter.to_set(),
    ));
}

} // verus!
