//! The tray icon in the hands of the application. Each change is a command for the service.
use vstd::prelude::*;

use crate::command::{opt_icon, show_only, Command, CommandModel, TrayIconId, UpdateModel};
use crate::icon::{Icon, IconData, IconModel};
use crate::inner::{opt_menu, opt_text};
use crate::menu::{build_menu_tree, forest, kind_trees, ContextMenu, MenuSnapshot, MenuTree};
use crate::service::ServiceStart;

verus! {

/// What the application wants the tray icon to be.
pub struct TrayIconAttributes {
    pub tooltip: Option<String>,
    pub menu: Option<ContextMenu>,
    pub icon: Option<Icon>,
    pub title: Option<String>,
}

/// A tray icon.
pub struct TrayIcon {
    pub id: TrayIconId,
    pub menu: Option<ContextMenu>,
}

/// The content of an application's optional icon.
pub open spec fn icon_content(icon: Option<Icon>) -> Option<IconModel> {
    match icon {
        Some(icon) => Some(icon@),
        None => None,
    }
}

/// The menu that the tray shows for what the application handed over: none for a submenu.
pub open spec fn menu_content(menu: Option<ContextMenu>) -> Option<Seq<MenuTree>> {
    match menu {
        Some(ContextMenu::Menu(items)) => Some(kind_trees(items@)),
        _ => None,
    }
}

/// The text in an optional string slice.
pub open spec fn str_content(text: Option<&str>) -> Option<Seq<char>> {
    match text {
        Some(t) => Some(t@),
        None => None,
    }
}

/// The pixels of an optional icon.
fn icon_data(icon: &Option<Icon>) -> (res: Option<IconData>)
    ensures
        opt_icon(res) == icon_content(*icon),
{
    match icon {
        Some(icon) => Some(IconData::from_icon(icon)),
        None => None,
    }
}

/// A copy of an optional string.
fn copy_text(text: &Option<String>) -> (res: Option<String>)
    ensures
        opt_text(res) == opt_text(*text),
{
    match text {
        Some(t) => Some(t.clone()),
        None => None,
    }
}

/// A string of its own for an optional string slice.
fn own_text(text: Option<&str>) -> (res: Option<String>)
    ensures
        opt_text(res) == str_content(text),
{
    match text {
        Some(t) => Some(t.to_string()),
        None => None,
    }
}

impl TrayIcon {
    /// A tray icon, with what its service starts from and the service's first command.
    pub fn new(id: TrayIconId, attrs: TrayIconAttributes) -> (res: (
        TrayIcon,
        ServiceStart,
        Command,
    ))
        ensures
            res.0.id == id,
            res.0.menu == attrs.menu,
            res.1.id == id,
            opt_icon(res.1.icon) == icon_content(attrs.icon),
            opt_text(res.1.tooltip) == opt_text(attrs.tooltip),
            opt_text(res.1.title) == opt_text(attrs.title),
            res.2@ == CommandModel::Update(
                UpdateModel {
                    id: id.0@,
                    icon: icon_content(attrs.icon),
                    tooltip: opt_text(attrs.tooltip),
                    title: opt_text(attrs.title),
                    visible: true,
                    menu: menu_content(attrs.menu),
                },
            ),
            match res.2 {
                Command::Update { id: sent_id, icon, tooltip, title, visible, menu } => {
                    &&& sent_id.0@ == id.0@
                    &&& icon is Some <==> attrs.icon is Some
                    &&& attrs.icon matches Some(i) ==> icon->0.width == i.inner.width
                        && icon->0.height == i.inner.height && icon->0.data@ == i.inner.rgba@
                    &&& tooltip is Some <==> attrs.tooltip is Some
                    &&& attrs.tooltip matches Some(text) ==> tooltip->0@ == text@
                    &&& title is Some <==> attrs.title is Some
                    &&& attrs.title matches Some(text) ==> title->0@ == text@
                    &&& visible
                    &&& match attrs.menu {
                        Some(ContextMenu::Menu(items)) => menu is Some && forest(menu->0.items@)
                            == kind_trees(items@),
                        _ => menu is None,
                    }
                },
                Command::Shutdown => false,
            },
            res.1.icon is Some <==> attrs.icon is Some,
            attrs.icon matches Some(i) ==> res.1.icon->0.width == i.inner.width
                && res.1.icon->0.height == i.inner.height && res.1.icon->0.data@ == i.inner.rgba@,
            res.1.tooltip is Some <==> attrs.tooltip is Some,
            attrs.tooltip matches Some(text) ==> res.1.tooltip->0@ == text@,
            res.1.title is Some <==> attrs.title is Some,
            attrs.title matches Some(text) ==> res.1.title->0@ == text@,
    {
        let start = ServiceStart {
            id: id.clone(),
            icon: icon_data(&attrs.icon),
            tooltip: copy_text(&attrs.tooltip),
            title: copy_text(&attrs.title),
        };
        let icon = icon_data(&attrs.icon);
        let tray = TrayIcon { id, menu: attrs.menu };
        let menu = tray.current_menu_snapshot();
        let command = Command::Update {
            id: tray.id.clone(),
            icon,
            tooltip: attrs.tooltip,
            title: attrs.title,
            visible: true,
            menu,
        };
        (tray, start, command)
    }

    /// The menu as it is now, as the tray shows it.
    pub fn current_menu_snapshot(&self) -> (res: Option<MenuSnapshot>)
        ensures
            opt_menu(res) == menu_content(self.menu),
            match self.menu {
                Some(ContextMenu::Menu(items)) => res is Some && forest(res->0.items@)
                    == kind_trees(items@),
                _ => res is None,
            },
    {
        match &self.menu {
            Some(menu) => match menu.as_menu() {
                Some(items) => Some(MenuSnapshot { items: build_menu_tree(items) }),
                None => None,
            },
            None => None,
        }
    }

    /// The command that sets the icon. Without one it only makes the tray visible.
    pub fn set_icon(&mut self, icon: Option<Icon>) -> (res: Command)
        ensures
            *final(self) == *old(self),
            res@ == CommandModel::Update(
                UpdateModel { icon: icon_content(icon), ..show_only(old(self).id.0@) },
            ),
            match res {
                Command::Update {
                    id,
                    icon: sent_icon,
                    tooltip: sent_tooltip,
                    title: sent_title,
                    visible: sent_visible,
                    menu: sent_menu,
                } => {
                    &&& id.0@ == old(self).id.0@
                    &&& sent_icon is Some <==> icon is Some
                    &&& icon matches Some(i) ==> sent_icon->0.width == i.inner.width
                        && sent_icon->0.height == i.inner.height && sent_icon->0.data@
                        == i.inner.rgba@
                    &&& sent_tooltip is None
                    &&& sent_title is None
                    &&& sent_visible
                    &&& sent_menu is None
                },
                Command::Shutdown => false,
            },
    {
        Command::Update {
            id: self.id.clone(),
            icon: icon_data(&icon),
            tooltip: None,
            title: None,
            visible: true,
            menu: None,
        }
    }

    /// Keeps the menu; the command sets it. Without a menu, and with a submenu, the command only
    /// makes the tray visible.
    pub fn set_menu(&mut self, menu: Option<ContextMenu>) -> (res: Command)
        ensures
            final(self).id == old(self).id,
            final(self).menu == menu,
            res@ == CommandModel::Update(
                UpdateModel { menu: menu_content(menu), ..show_only(old(self).id.0@) },
            ),
            match res {
                Command::Update {
                    id,
                    icon: sent_icon,
                    tooltip: sent_tooltip,
                    title: sent_title,
                    visible: sent_visible,
                    menu: sent_menu,
                } => {
                    &&& id.0@ == old(self).id.0@
                    &&& sent_icon is None
                    &&& sent_tooltip is None
                    &&& sent_title is None
                    &&& sent_visible
                    &&& match menu {
                        Some(ContextMenu::Menu(items)) => sent_menu is Some && forest(
                            sent_menu->0.items@,
                        ) == kind_trees(items@),
                        _ => sent_menu is None,
                    }
                },
                Command::Shutdown => false,
            },
    {
        self.menu = menu;
        let snapshot = self.current_menu_snapshot();
        Command::Update {
            id: self.id.clone(),
            icon: None,
            tooltip: None,
            title: None,
            visible: true,
            menu: snapshot,
        }
    }

    /// The command that sets the tooltip. Without one it only makes the tray visible.
    pub fn set_tooltip(&mut self, tooltip: Option<&str>) -> (res: Command)
        ensures
            *final(self) == *old(self),
            res@ == CommandModel::Update(
                UpdateModel { tooltip: str_content(tooltip), ..show_only(old(self).id.0@) },
            ),
            match res {
                Command::Update {
                    id,
                    icon: sent_icon,
                    tooltip: sent_tooltip,
                    title: sent_title,
                    visible: sent_visible,
                    menu: sent_menu,
                } => {
                    &&& id.0@ == old(self).id.0@
                    &&& sent_icon is None
                    &&& sent_tooltip is Some <==> tooltip is Some
                    &&& tooltip matches Some(text) ==> sent_tooltip->0@ == text@
                    &&& sent_title is None
                    &&& sent_visible
                    &&& sent_menu is None
                },
                Command::Shutdown => false,
            },
    {
        Command::Update {
            id: self.id.clone(),
            icon: None,
            tooltip: own_text(tooltip),
            title: None,
            visible: true,
            menu: None,
        }
    }

    /// The command that sets the title. Without one it only makes the tray visible.
    pub fn set_title(&mut self, title: Option<&str>) -> (res: Command)
        ensures
            *final(self) == *old(self),
            res@ == CommandModel::Update(
                UpdateModel { title: str_content(title), ..show_only(old(self).id.0@) },
            ),
            match res {
                Command::Update {
                    id,
                    icon: sent_icon,
                    tooltip: sent_tooltip,
                    title: sent_title,
                    visible: sent_visible,
                    menu: sent_menu,
                } => {
                    &&& id.0@ == old(self).id.0@
                    &&& sent_icon is None
                    &&& sent_tooltip is None
                    &&& sent_title is Some <==> title is Some
                    &&& title matches Some(text) ==> sent_title->0@ == text@
                    &&& sent_visible
                    &&& sent_menu is None
                },
                Command::Shutdown => false,
            },
    {
        Command::Update {
            id: self.id.clone(),
            icon: None,
            tooltip: None,
            title: own_text(title),
            visible: true,
            menu: None,
        }
    }

    /// The command that shows or hides the tray.
    pub fn set_visible(&mut self, visible: bool) -> (res: Command)
        ensures
            *final(self) == *old(self),
            res@ == CommandModel::Update(UpdateModel { visible, ..show_only(old(self).id.0@) }),
            match res {
                Command::Update {
                    id,
                    icon: sent_icon,
                    tooltip: sent_tooltip,
                    title: sent_title,
                    visible: sent_visible,
                    menu: sent_menu,
                } => {
                    &&& id.0@ == old(self).id.0@
                    &&& sent_icon is None
                    &&& sent_tooltip is None
                    &&& sent_title is None
                    &&& sent_visible == visible
                    &&& sent_menu is None
                },
                Command::Shutdown => false,
            },
    {
        Command::Update {
            id: self.id.clone(),
            icon: None,
            tooltip: None,
            title: None,
            visible,
            menu: None,
        }
    }

    /// Does nothing: icons go over the bus, not through files.
    pub fn set_temp_dir_path(&mut self, _path: Option<&str>)
        ensures
            *final(self) == *old(self),
    {
    }

    /// The command that ends the service, for when the tray icon goes away.
    pub fn shutdown(&self) -> (res: Command)
        ensures
            res is Shutdown,
    {
        Command::Shutdown
    }
}

} // verus!
