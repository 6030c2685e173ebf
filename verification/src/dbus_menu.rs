//! The tray's menu as an object on the bus (`com.canonical.dbusmenu`).
use vstd::prelude::*;
use zbus::zvariant::OwnedValue;

use crate::inner::Inner;
use crate::item_properties::same_text;
use crate::layout::{layout_value, menu_layout, Layout};
use crate::layout_laws::{depth_is_as_asked, shows_levels};
use crate::menu::{flatten_ids, forest, item_ids, numbered, texts, MenuId, MenuTree};
use crate::properties::Properties;
use crate::status_item::BusError;

verus! {

/// The menu on the bus, over the state at the moment of a call.
pub struct DbusMenu<'a> {
    pub inner: &'a Inner,
}

/// The depth limit that a request stands for: none if it is negative.
pub open spec fn depth_limit(recursion_depth: i32) -> Option<usize> {
    if recursion_depth < 0 {
        None
    } else {
        Some(recursion_depth as usize)
    }
}

/// Whether a number belongs to the menu or to one of its items.
pub open spec fn is_item(menu: Option<Seq<MenuTree>>, id: i32) -> bool {
    menu matches Some(trees) && 0 <= id < numbered(trees).len()
}

/// What an event calls for.
pub ghost enum EventModel {
    /// Nothing.
    Nothing,
    /// The application hears that the item with this name was chosen.
    Chosen(Seq<char>),
    /// The number belongs to no item that can be chosen.
    NotFound,
}

/// What an event on the item with this number calls for. Only clicks count, and not on the menu
/// itself; an item without a name cannot be chosen.
pub open spec fn event_model(menu: Option<Seq<MenuTree>>, id: i32, event: Seq<char>) -> EventModel {
    if event != "clicked"@ || id == 0 {
        EventModel::Nothing
    } else if is_item(menu, id) && item_ids(menu->0)[id as int].len() > 0 {
        EventModel::Chosen(item_ids(menu->0)[id as int])
    } else {
        EventModel::NotFound
    }
}

/// An event as it comes over the bus: number of the item, kind, data and time.
pub type BusEvent = (i32, String, OwnedValue, u32);

/// The numbers, in order, of the events whose item was not found.
pub open spec fn not_found(menu: Option<Seq<MenuTree>>, events: Seq<BusEvent>) -> Seq<i32>
    decreases events.len(),
{
    if events.len() == 0 {
        Seq::empty()
    } else {
        let e = events.last();
        let before = not_found(menu, events.drop_last());
        if event_model(menu, e.0, e.1@) is NotFound {
            before.push(e.0)
        } else {
            before
        }
    }
}

/// The names, in order, of the items that the events choose.
pub open spec fn chosen(menu: Option<Seq<MenuTree>>, events: Seq<BusEvent>) -> Seq<Seq<char>>
    decreases events.len(),
{
    if events.len() == 0 {
        Seq::empty()
    } else {
        let e = events.last();
        let before = chosen(menu, events.drop_last());
        match event_model(menu, e.0, e.1@) {
            EventModel::Chosen(name) => before.push(name),
            _ => before,
        }
    }
}

/// The texts of a list of menu ids.
pub open spec fn id_texts(ids: Seq<MenuId>) -> Seq<Seq<char>> {
    Seq::new(ids.len(), |i: int| ids[i].0@)
}

impl<'a> DbusMenu<'a> {
    /// The menu with this state.
    pub fn new(inner: &'a Inner) -> (res: Self)
        ensures
            *res.inner == *inner,
    {
        DbusMenu { inner }
    }

    /// The revision and the layout of the menu. Only the menu itself can be asked for.
    pub fn get_layout(
        &self,
        parent_id: i32,
        recursion_depth: i32,
        property_names: Vec<String>,
    ) -> (res: Result<(u32, Layout), BusError>)
        requires
            parent_id == 0 ==> self.inner.menu is Some,
        ensures
            res is Ok <==> parent_id == 0,
            res matches Ok((revision, layout)) ==> revision == self.inner.revision && layout@
                == menu_layout(
                self.inner@.menu->0,
                depth_limit(recursion_depth),
                texts(property_names@),
            ),
            res matches Err(e) ==> (e matches BusError::InvalidArgs(text) && text@
                == "parentId not found"@),
            res matches Ok((_, layout)) ==> {
                &&& layout.id == 0
                &&& layout.children.len() == if recursion_depth == 0 {
                    0
                } else {
                    self.inner.menu->0.items.len()
                }
                &&& shows_levels(
                    layout_value(layout@),
                    forest(self.inner.menu->0.items@),
                    if recursion_depth < 0 {
                        None
                    } else {
                        Some(recursion_depth as nat)
                    },
                )
            },
    {
        proof {
            if parent_id == 0 {
                depth_is_as_asked(self.inner@.menu->0, recursion_depth, texts(property_names@));
            }
        }
        let limit: Option<usize> = if recursion_depth < 0 {
            None
        } else {
            Some(recursion_depth as usize)
        };
        match self.inner.build_layout(parent_id, limit, property_names.as_slice()) {
            Some(layout) => {
                assert(layout@.children.len() == layout.children.len());
                Ok((self.inner.revision, layout))
            },
            None => Err(BusError::InvalidArgs("parentId not found".to_string())),
        }
    }

    /// Properties of several items: always none, as the layout carries them.
    pub fn get_group_properties(&self, _ids: Vec<i32>, _property_names: Vec<String>) -> (res:
        Result<Vec<(i32, Properties)>, BusError>)
        ensures
            res matches Ok(groups) && groups@.len() == 0,
    {
        Ok(Vec::new())
    }

    /// A property of one item: is not offered.
    pub fn get_property(&self, _id: i32, _name: String) -> (res: Result<OwnedValue, BusError>)
        ensures
            res matches Err(BusError::InvalidArgs(text)) && text@ == "not implemented"@,
    {
        Err(BusError::InvalidArgs("not implemented".to_string()))
    }

    /// The name of the item with this number, unless there is no such item.
    fn name_of(&self, id: i32) -> (res: Option<String>)
        ensures
            res is Some <==> is_item(self.inner@.menu, id),
            res matches Some(name) ==> name@ == item_ids(self.inner@.menu->0)[id as int],
    {
        match &self.inner.menu {
            Some(menu) => {
                let flat_ids = flatten_ids(menu.items.as_slice());
                assert(texts(flat_ids@).len() == flat_ids.len());
                if id >= 0 && (id as usize) < flat_ids.len() {
                    assert(texts(flat_ids@)[id as int] == flat_ids[id as int]@);
                    Some(flat_ids[id as usize].clone())
                } else {
                    None
                }
            },
            None => None,
        }
    }

    /// Takes an event. The result is the name of the item that was chosen, which the application
    /// is to hear about, or `None` where there is nothing to tell.
    pub fn event(&self, id: i32, event_id: String, _data: OwnedValue, _timestamp: u32) -> (res:
        Result<Option<MenuId>, BusError>)
        ensures
            match event_model(self.inner@.menu, id, event_id@) {
                EventModel::Nothing => res matches Ok(None),
                EventModel::Chosen(name) => res matches Ok(Some(chosen)) && chosen.0@ == name,
                EventModel::NotFound => res matches Err(BusError::InvalidArgs(text)) && text@
                    == "id not found"@,
            },
            event_id@ != "clicked"@ ==> (res matches Ok(None)),
            id == 0 ==> (res matches Ok(None)),
            res matches Ok(Some(name)) ==> {
                &&& event_id@ == "clicked"@
                &&& id > 0
                &&& self.inner.menu is Some
                &&& id < numbered(forest(self.inner.menu->0.items@)).len()
                &&& name.0@ == numbered(forest(self.inner.menu->0.items@))[id as int].id
                &&& name.0@.len() > 0
            },
    {
        if same_text(event_id.as_str(), "clicked") && id != 0 {
            if let Some(item_id) = self.name_of(id) {
                if !item_id.as_str().is_empty() {
                    return Ok(Some(MenuId::new(item_id.as_str())));
                }
            }
            Err(BusError::InvalidArgs("id not found".to_string()))
        } else {
            Ok(None)
        }
    }

    /// Takes several events. The result is the numbers whose item was not found, and the names of
    /// the items that were chosen, both in the order of the events.
    pub fn event_group(&self, events: Vec<BusEvent>) -> (res: (Vec<i32>, Vec<MenuId>))
        ensures
            res.0@ == not_found(self.inner@.menu, events@),
            id_texts(res.1@) == chosen(self.inner@.menu, events@),
    {
        let ghost all = events@;
        let ghost menu = self.inner@.menu;
        let mut missing: Vec<i32> = Vec::new();
        let mut sent: Vec<MenuId> = Vec::new();
        assert(id_texts(sent@) =~= Seq::empty());
        for entry in iter: events
            invariant
                iter.seq() == all,
                menu == self.inner@.menu,
                missing@ == not_found(menu, all.take(iter.index())),
                id_texts(sent@) == chosen(menu, all.take(iter.index())),
        {
            let ghost n = iter.index();
            let (id, event_id, data, timestamp) = entry;
            let ghost before = id_texts(sent@);
            proof {
                assert(all.take(n + 1).drop_last() =~= all.take(n));
                assert(all.take(n + 1).last() == all[n]);
            }
            match self.event(id, event_id, data, timestamp) {
                Ok(Some(name)) => {
                    let ghost text = name.0@;
                    sent.push(name);
                    assert(id_texts(sent@) =~= before.push(text));
                },
                Ok(None) => {},
                Err(_) => {
                    missing.push(id);
                },
            }
        }
        assert(all.take(all.len() as int) =~= all);
        (missing, sent)
    }

    /// Hears that the item is about to be shown. The result is whether the layout has to be asked
    /// for again, which it never has.
    pub fn about_to_show(&self, id: i32) -> (res: Result<bool, BusError>)
        ensures
            is_item(self.inner@.menu, id) ==> (res matches Ok(update) && !update),
            !is_item(self.inner@.menu, id) ==> (res matches Err(BusError::InvalidArgs(text))
                && text@ == "id not found"@),
    {
        if id == 0 && self.inner.menu.is_some() {
            Ok(false)
        } else if id != 0 && self.name_of(id).is_some() {
            Ok(false)
        } else {
            Err(BusError::InvalidArgs("id not found".to_string()))
        }
    }

    /// Hears that several items are about to be shown: none needs an update, none is reported.
    pub fn about_to_show_group(&self, _ids: Vec<i32>) -> (res: Result<
        (Vec<i32>, Vec<i32>),
        BusError,
    >)
        ensures
            res matches Ok((updates, missing)) && updates@.len() == 0 && missing@.len() == 0,
    {
        Ok((Vec::new(), Vec::new()))
    }

    /// The version of the menu protocol.
    pub fn version(&self) -> (res: Result<u32, BusError>)
        ensures
            res matches Ok(version) && version == 3,
    {
        Ok(3)
    }

    /// The direction of the texts: left to right.
    pub fn text_direction(&self) -> (res: Result<String, BusError>)
        ensures
            res matches Ok(text) && text@ == "ltr"@,
    {
        Ok("ltr".to_string())
    }

    /// The status of the menu.
    pub fn status(&self) -> (res: Result<String, BusError>)
        ensures
            res matches Ok(text) && text@ == "normal"@,
    {
        Ok("normal".to_string())
    }

    /// The paths of the icon theme: none.
    pub fn icon_theme_path(&self) -> (res: Result<Vec<String>, BusError>)
        ensures
            res matches Ok(paths) && paths@.len() == 0,
    {
        Ok(Vec::new())
    }
}

} // verus!
