//! What the tray shows of the application's menu: how items are read, numbered, listed, described
//! and chosen.
use vstd::prelude::*;

use crate::dbus_menu::{
    chosen, event_model, id_texts, is_item, not_found, BusEvent, EventModel,
};
use crate::flat::{flat_list, item_model, lemma_child_number, FlatModel};
use crate::item_properties::item_properties;
use crate::menu::{
    forest, item_ids, kind_tree, kind_trees, lemma_preorder_push, lemma_tree_children, numbered,
    preorder, texts, MenuId, MenuItemKind, MenuItemNode, MenuTree,
};
use crate::value::ValueModel;

verus! {

/// Every item is shown with its own name and text, and as enabled exactly if it is. Only a check
/// item has a check mark, in its own state; only a predefined item without text is a separator;
/// only a submenu is a submenu and has items below it.
pub proof fn items_are_shown_as_they_are(kinds: Seq<MenuItemKind>, i: int)
    requires
        0 <= i < kinds.len(),
    ensures
        kind_trees(kinds).len() == kinds.len(),
        ({
            let shown = kind_trees(kinds)[i];
            match kinds[i] {
                MenuItemKind::MenuItem { id, text, enabled } => {
                    &&& shown.id == id.0@
                    &&& shown.label == text@
                    &&& shown.enabled == enabled
                    &&& shown.checked is None
                    &&& !shown.is_separator
                    &&& !shown.is_submenu
                    &&& shown.children.len() == 0
                },
                MenuItemKind::Check { id, text, enabled, checked } => {
                    &&& shown.id == id.0@
                    &&& shown.label == text@
                    &&& shown.enabled == enabled
                    &&& shown.checked == Some(checked)
                    &&& !shown.is_separator
                    &&& !shown.is_submenu
                    &&& shown.children.len() == 0
                },
                MenuItemKind::Icon { id, text, enabled } => {
                    &&& shown.id == id.0@
                    &&& shown.label == text@
                    &&& shown.enabled == enabled
                    &&& shown.checked is None
                    &&& !shown.is_separator
                    &&& !shown.is_submenu
                    &&& shown.children.len() == 0
                },
                MenuItemKind::Predefined { id, text } => {
                    &&& shown.id == id.0@
                    &&& shown.label == text@
                    &&& shown.enabled
                    &&& shown.checked is None
                    &&& shown.is_separator == (text@.len() == 0)
                    &&& !shown.is_submenu
                    &&& shown.children.len() == 0
                },
                MenuItemKind::Submenu { id, text, enabled, items } => {
                    &&& shown.id == id.0@
                    &&& shown.label == text@
                    &&& shown.enabled == enabled
                    &&& shown.checked is None
                    &&& !shown.is_separator
                    &&& shown.is_submenu
                    &&& shown.children == kind_trees(items@)
                },
            }
        }),
{
    reveal_with_fuel(kind_tree, 2);
    if let MenuItemKind::Submenu { items, .. } = kinds[i] {
        assert(kind_trees(kinds)[i].children =~= kind_trees(items@));
    }
}

/// The content of a node is what its fields hold, and the content of a list of nodes is that of
/// each node, in order.
pub proof fn nodes_are_seen_as_they_are(nodes: Seq<MenuItemNode>, i: int)
    requires
        0 <= i < nodes.len(),
    ensures
        forest(nodes).len() == nodes.len(),
        forest(nodes)[i] == (MenuTree {
            id: nodes[i].id.0@,
            label: nodes[i].label@,
            enabled: nodes[i].enabled,
            checked: nodes[i].checked,
            is_separator: nodes[i].is_separator,
            is_submenu: nodes[i].is_submenu,
            children: forest(nodes[i].children@),
        }),
{
    lemma_tree_children(nodes[i]);
}

/// How many items there are, those of all submenus included.
pub open spec fn item_count(trees: Seq<MenuTree>) -> nat
    decreases trees,
{
    if trees.len() == 0 {
        0
    } else {
        1 + item_count(trees[0].children) + item_count(trees.drop_first())
    }
}

/// A menu has as many numbers as it has items, and number 0, the menu itself, which has no name
/// and no text and holds the menu's items.
pub proof fn every_item_has_a_number(trees: Seq<MenuTree>)
    ensures
        numbered(trees).len() == 1 + item_count(trees),
        numbered(trees)[0].children == trees,
        numbered(trees)[0].id.len() == 0,
        numbered(trees)[0].label.len() == 0,
        numbered(trees)[0].enabled,
        numbered(trees)[0].checked is None,
        !numbered(trees)[0].is_separator,
        item_ids(trees).len() == 1 + item_count(trees),
{
    lemma_item_count(trees);
}

proof fn lemma_item_count(trees: Seq<MenuTree>)
    ensures
        preorder(trees).len() == item_count(trees),
    decreases trees,
{
    if trees.len() > 0 {
        lemma_item_count(trees[0].children);
        lemma_item_count(trees.drop_first());
    }
}

/// The numbers run through the menu item by item: the first child of an item has the next number,
/// and each further child comes directly behind the one before and all that is below that one. The
/// item with a child's number is that child.
pub proof fn numbers_run_through_the_menu(trees: Seq<MenuTree>, number: int, i: int)
    requires
        0 <= number < numbered(trees).len(),
        0 <= i < numbered(trees)[number].children.len(),
    ensures
        ({
            let children = numbered(trees)[number].children;
            let listed = flat_list(trees)[number].children;
            &&& listed.len() == children.len()
            &&& listed[0] == number + 1
            &&& i > 0 ==> listed[i] == listed[i - 1] + 1 + item_count(children[i - 1].children)
            &&& number < listed[i] < numbered(trees).len()
            &&& numbered(trees)[listed[i]] == children[i]
        }),
{
    let children = numbered(trees)[number].children;
    lemma_child_number(trees, number, i);
    assert(preorder(children.take(0)).len() == 0);
    if i > 0 {
        assert(children.take(i) =~= children.take(i - 1).push(children[i - 1]));
        lemma_preorder_push(children.take(i - 1), children[i - 1]);
        lemma_item_count(children[i - 1].children);
    }
}

/// An entry of the list tells of its item: the text, whether it is enabled, whether it is a
/// separator, and of a check mark whether it is set (1) or not (0). A separator has neither text
/// nor check mark and is never disabled.
pub proof fn entries_tell_of_their_items(trees: Seq<MenuTree>, number: int)
    requires
        0 <= number < numbered(trees).len(),
    ensures
        flat_list(trees).len() == numbered(trees).len(),
        ({
            let item = numbered(trees)[number];
            let entry = flat_list(trees)[number];
            &&& item.is_separator ==> entry.item_type == "separator"@ && entry.label.len() == 0
                && entry.enabled && entry.toggle_state is None
            &&& !item.is_separator ==> entry.item_type == "standard"@ && entry.label == item.label
                && entry.enabled == item.enabled
            &&& !item.is_separator && item.checked is None ==> entry.toggle_state is None
            &&& !item.is_separator && item.checked == Some(true) ==> entry.toggle_state == Some(1i32)
            &&& !item.is_separator && item.checked == Some(false) ==> entry.toggle_state == Some(
                0i32,
            )
            &&& entry.id == 0
            &&& entry.children.len() == item.children.len()
        }),
{
}

/// The properties that are told of an entry are those that the request names, or all if it names
/// none, and that differ from what a host takes for granted: a separator has its type, an entry
/// with children is shown as a submenu, a text that is not empty is the label, an entry that is
/// not enabled says so, and a check mark has its type and its state.
pub proof fn properties_tell_of_their_entry(entry: FlatModel, filter: Seq<Seq<char>>)
    ensures
        ({
            let told = item_properties(entry, filter);
            &&& told.contains_key("type"@) <==> (filter.len() == 0 || filter.contains("type"@)) && entry.item_type
                == "separator"@
            &&& told.contains_key("type"@) ==> told["type"@] == ValueModel::Str("separator"@)
            &&& told.contains_key("children-display"@) <==> (filter.len() == 0 || filter.contains("children-display"@))
                && entry.children.len() > 0
            &&& told.contains_key("children-display"@) ==> told["children-display"@]
                == ValueModel::Str("submenu"@)
            &&& told.contains_key("label"@) <==> (filter.len() == 0 || filter.contains("label"@)) && entry.label.len() > 0
            &&& told.contains_key("label"@) ==> told["label"@] == ValueModel::Str(entry.label)
            &&& told.contains_key("enabled"@) <==> (filter.len() == 0 || filter.contains("enabled"@)) && !entry.enabled
            &&& told.contains_key("enabled"@) ==> told["enabled"@] == ValueModel::Bool(false)
            &&& told.contains_key("toggle-type"@) <==> (filter.len() == 0 || filter.contains("toggle-type"@))
                && entry.toggle_state is Some
            &&& told.contains_key("toggle-type"@) ==> told["toggle-type"@] == ValueModel::Str(
                "checkmark"@,
            )
            &&& told.contains_key("toggle-state"@) <==> (filter.len() == 0 || filter.contains("toggle-state"@))
                && entry.toggle_state is Some
            &&& told.contains_key("toggle-state"@) ==> told["toggle-state"@] == ValueModel::I32(
                entry.toggle_state->0,
            )
            &&& forall|name: Seq<char>| #[trigger]
                told.contains_key(name) ==> name == "type"@ || name == "children-display"@ || name
                    == "label"@ || name == "enabled"@ || name == "toggle-type"@ || name
                    == "toggle-state"@
        }),
{
    reveal_strlit("type");
    reveal_strlit("children-display");
    reveal_strlit("label");
    reveal_strlit("enabled");
    reveal_strlit("toggle-type");
    reveal_strlit("toggle-state");
    assert("type"@.len() == 4 && "children-display"@.len() == 16 && "label"@.len() == 5);
    assert("enabled"@.len() == 7 && "toggle-type"@.len() == 11 && "toggle-state"@.len() == 12);
}

/// The properties that are told of an item of the menu, by what the item is: the text of an item
/// that is no separator, whether it is disabled, the type of a separator, that there are items
/// below it, and the check mark with 1 if it is set and 0 if it is not.
pub proof fn properties_tell_of_their_item(
    trees: Seq<MenuTree>,
    number: int,
    filter: Seq<Seq<char>>,
)
    requires
        0 <= number < numbered(trees).len(),
    ensures
        ({
            let item = numbered(trees)[number];
            let told = item_properties(flat_list(trees)[number], filter);
            &&& (filter.len() == 0 || filter.contains("label"@)) && !item.is_separator && item.label.len() > 0 ==> (
            told.contains_key("label"@) && told["label"@] == ValueModel::Str(item.label))
            &&& item.is_separator || item.label.len() == 0 ==> !told.contains_key("label"@)
            &&& (filter.len() == 0 || filter.contains("enabled"@)) && !item.is_separator && !item.enabled ==> (
            told.contains_key("enabled"@) && told["enabled"@] == ValueModel::Bool(false))
            &&& item.is_separator || item.enabled ==> !told.contains_key("enabled"@)
            &&& (filter.len() == 0 || filter.contains("type"@)) && item.is_separator ==> (told.contains_key("type"@)
                && told["type"@] == ValueModel::Str("separator"@))
            &&& !item.is_separator ==> !told.contains_key("type"@)
            &&& (filter.len() == 0 || filter.contains("children-display"@)) && item.children.len() > 0 ==> (
            told.contains_key("children-display"@) && told["children-display"@] == ValueModel::Str(
                "submenu"@,
            ))
            &&& item.children.len() == 0 ==> !told.contains_key("children-display"@)
            &&& (filter.len() == 0 || filter.contains("toggle-type"@)) && !item.is_separator && item.checked is Some ==> (
            told.contains_key("toggle-type"@) && told["toggle-type"@] == ValueModel::Str(
                "checkmark"@,
            ))
            &&& (filter.len() == 0 || filter.contains("toggle-state"@)) && !item.is_separator && item.checked == Some(true)
                ==> (told.contains_key("toggle-state"@) && told["toggle-state"@]
                == ValueModel::I32(1))
            &&& (filter.len() == 0 || filter.contains("toggle-state"@)) && !item.is_separator && item.checked == Some(false)
                ==> (told.contains_key("toggle-state"@) && told["toggle-state"@]
                == ValueModel::I32(0))
            &&& item.is_separator || item.checked is None ==> !told.contains_key("toggle-type"@)
                && !told.contains_key("toggle-state"@)
        }),
{
    reveal_strlit("separator");
    reveal_strlit("standard");
    assert("separator"@.len() == 9 && "standard"@.len() == 8);
    properties_tell_of_their_entry(flat_list(trees)[number], filter);
    entries_tell_of_their_items(trees, number);
}

/// Items that differ in their check mark alone are told apart, and so are items that differ in
/// their text or in being enabled.
pub proof fn different_items_are_told_apart(a: MenuTree, b: MenuTree, number: int)
    requires
        !a.is_separator,
        !b.is_separator,
        item_properties(item_model(a, number), Seq::empty()) == item_properties(
            item_model(b, number),
            Seq::empty(),
        ),
    ensures
        a.checked == b.checked,
        a.label == b.label,
        a.enabled == b.enabled,
        a.children.len() == 0 <==> b.children.len() == 0,
{
    let none = Seq::<Seq<char>>::empty();
    let (ea, eb) = (item_model(a, number), item_model(b, number));
    properties_tell_of_their_entry(ea, none);
    properties_tell_of_their_entry(eb, none);
    let told = item_properties(ea, none);
    if a.label.len() == 0 {
        assert(a.label =~= b.label);
    } else {
        assert(told["label"@] == ValueModel::Str(a.label));
        assert(told["label"@] == ValueModel::Str(b.label));
    }
    if a.checked is Some {
        assert(told["toggle-state"@] == ValueModel::I32(ea.toggle_state->0));
        assert(told["toggle-state"@] == ValueModel::I32(eb.toggle_state->0));
    }
}

/// A number belongs to the menu or one of its items exactly if it is none below 0 and none above
/// the number of items.
pub proof fn numbers_of_items(trees: Seq<MenuTree>, id: i32)
    ensures
        is_item(Some(trees), id) <==> 0 <= id <= item_count(trees),
        !is_item(None, id),
{
    lemma_item_count(trees);
}

/// An event of another kind than a click calls for nothing, whatever it is about. So does a click
/// on the menu itself.
pub proof fn only_clicks_count(menu: Option<Seq<MenuTree>>, id: i32, event: Seq<char>)
    requires
        event != "clicked"@ || id == 0,
    ensures
        event_model(menu, id, event) is Nothing,
{
}

/// An event chooses an item exactly if it is a click on the number of an item that has a name, and
/// then the application hears this name.
pub proof fn a_click_chooses_its_item(
    trees: Seq<MenuTree>,
    id: i32,
    event: Seq<char>,
    name: Seq<char>,
)
    ensures
        event_model(Some(trees), id, event) == EventModel::Chosen(name) <==> {
            &&& event == "clicked"@
            &&& 0 < id <= item_count(trees)
            &&& name == numbered(trees)[id as int].id
            &&& name.len() > 0
        },
        event_model(None, id, event) !is Chosen,
{
    lemma_item_count(trees);
}

/// An event is answered as not found exactly if it is a click on a number that is not 0 and that
/// belongs to no item with a name.
pub proof fn a_click_is_not_found(menu: Option<Seq<MenuTree>>, id: i32, event: Seq<char>)
    ensures
        event_model(menu, id, event) is NotFound <==> {
            &&& event == "clicked"@
            &&& id != 0
            &&& match menu {
                Some(trees) => id < 0 || id > item_count(trees) || numbered(
                    trees,
                )[id as int].id.len() == 0,
                None => true,
            }
        },
{
    if let Some(trees) = menu {
        lemma_item_count(trees);
    }
}

/// A group of one event is taken as that event is: its item is chosen, or its number is reported,
/// or nothing happens.
pub proof fn a_group_of_one(menu: Option<Seq<MenuTree>>, event: BusEvent)
    ensures
        match event_model(menu, event.0, event.1@) {
            EventModel::Chosen(name) => chosen(menu, seq![event]) == seq![name] && not_found(
                menu,
                seq![event],
            ).len() == 0,
            EventModel::NotFound => chosen(menu, seq![event]).len() == 0 && not_found(
                menu,
                seq![event],
            ) == seq![event.0],
            EventModel::Nothing => chosen(menu, seq![event]).len() == 0 && not_found(
                menu,
                seq![event],
            ).len() == 0,
        },
{
    let one = seq![event];
    assert(one.drop_last() =~= Seq::empty());
    assert(chosen(menu, one.drop_last()) =~= Seq::empty());
    assert(not_found(menu, one.drop_last()) =~= Seq::empty());
    if let EventModel::Chosen(name) = event_model(menu, event.0, event.1@) {
        assert(chosen(menu, one) =~= seq![name]);
    }
    if event_model(menu, event.0, event.1@) is NotFound {
        assert(not_found(menu, one) =~= seq![event.0]);
    }
}

/// A group of events is taken one event after the other: what two groups do together is what the
/// first does and then what the second does.
pub proof fn groups_are_taken_in_order(
    menu: Option<Seq<MenuTree>>,
    first: Seq<BusEvent>,
    second: Seq<BusEvent>,
)
    ensures
        chosen(menu, first + second) == chosen(menu, first) + chosen(menu, second),
        not_found(menu, first + second) == not_found(menu, first) + not_found(menu, second),
        chosen(menu, Seq::empty()).len() == 0,
        not_found(menu, Seq::empty()).len() == 0,
    decreases second.len(),
{
    if second.len() == 0 {
        assert(first + second =~= first);
        assert(chosen(menu, first) + chosen(menu, second) =~= chosen(menu, first));
        assert(not_found(menu, first) + not_found(menu, second) =~= not_found(menu, first));
    } else {
        groups_are_taken_in_order(menu, first, second.drop_last());
        assert((first + second).drop_last() =~= first + second.drop_last());
        assert((first + second).last() == second.last());
        assert(chosen(menu, first + second) =~= chosen(menu, first) + chosen(menu, second));
        assert(not_found(menu, first + second) =~= not_found(menu, first) + not_found(menu, second));
    }
}

/// The texts of a list of strings are those of each string, in order.
pub proof fn texts_keep_their_order(strings: Seq<String>, i: int)
    requires
        0 <= i < strings.len(),
    ensures
        texts(strings).len() == strings.len(),
        texts(strings)[i] == strings[i]@,
{
}

/// The texts of a list of menu ids are those of each id, in order.
pub proof fn id_texts_keep_their_order(ids: Seq<MenuId>, i: int)
    requires
        0 <= i < ids.len(),
    ensures
        id_texts(ids).len() == ids.len(),
        id_texts(ids)[i] == ids[i].0@,
{
}

} // verus!
