//! The tray icon as an object on the bus (`org.kde.StatusNotifierItem`).
use vstd::prelude::*;
use zbus::zvariant::ObjectPath;

use crate::icon::{pixmaps, IconPixmap};
use crate::inner::{text_or_empty, text_tool_tip, Inner, ToolTipData};
use crate::value::{object_path, path_text};

verus! {

/// Where the tray icon stands on the bus.
pub const SNI_PATH: &'static str = "/StatusNotifierItem";

/// Where the tray's menu stands on the bus.
pub const MENU_PATH: &'static str = "/MenuBar";

/// How a call over the bus fails.
#[derive(Debug)]
pub enum BusError {
    UnknownMethod(String),
    InvalidArgs(String),
}

/// Where the tray icon stands on the bus.
pub fn sni_path() -> (res: ObjectPath<'static>)
    ensures
        path_text(res) == "/StatusNotifierItem"@,
{
    object_path(SNI_PATH)
}

/// Where the tray's menu stands on the bus.
pub fn menu_path() -> (res: ObjectPath<'static>)
    ensures
        path_text(res) == "/MenuBar"@,
{
    object_path(MENU_PATH)
}

/// The tray icon on the bus, over the state at the moment of a call.
pub struct StatusNotifierItem<'a> {
    pub inner: &'a Inner,
}

impl<'a> StatusNotifierItem<'a> {
    /// The tray icon with this state.
    pub fn new(inner: &'a Inner) -> (res: Self)
        ensures
            *res.inner == *inner,
    {
        StatusNotifierItem { inner }
    }

    /// Is not offered: the host shows the menu itself.
    pub fn context_menu(&self, _x: i32, _y: i32) -> (res: Result<(), BusError>)
        ensures
            res matches Err(BusError::UnknownMethod(text)) && text@
                == "Not supported, please use `menu`"@,
    {
        Err(BusError::UnknownMethod("Not supported, please use `menu`".to_string()))
    }

    /// Does nothing.
    pub fn activate(&self, _x: i32, _y: i32) -> (res: Result<(), BusError>)
        ensures
            res is Ok,
    {
        Ok(())
    }

    /// Does nothing.
    pub fn secondary_activate(&self, _x: i32, _y: i32) -> (res: Result<(), BusError>)
        ensures
            res is Ok,
    {
        Ok(())
    }

    /// Does nothing.
    pub fn scroll(&self, _delta: i32, _dir: String) -> (res: Result<(), BusError>)
        ensures
            res is Ok,
    {
        Ok(())
    }

    /// The category of the tray icon.
    pub fn category(&self) -> (res: Result<String, BusError>)
        ensures
            res matches Ok(text) && text@ == "ApplicationStatus"@,
    {
        Ok("ApplicationStatus".to_string())
    }

    /// The name of the tray icon.
    pub fn id(&self) -> (res: Result<String, BusError>)
        ensures
            res matches Ok(text) && text@ == self.inner@.id && text@ == self.inner.id@,
    {
        Ok(self.inner.id.clone())
    }

    /// The title, empty without one.
    pub fn title(&self) -> (res: Result<String, BusError>)
        ensures
            res matches Ok(text) && text@ == text_or_empty(self.inner@.title),
            self.inner.title matches Some(title) ==> res->Ok_0@ == title@,
            self.inner.title is None ==> res->Ok_0@.len() == 0,
    {
        Ok(self.inner.get_title())
    }

    /// The status.
    pub fn status(&self) -> (res: Result<String, BusError>)
        ensures
            res matches Ok(text) && text@ == self.inner@.status && text@ == self.inner.status@,
    {
        Ok(self.inner.status.clone())
    }

    /// The window of the tray icon: none.
    pub fn window_id(&self) -> (res: Result<i32, BusError>)
        ensures
            res matches Ok(id) && id == 0,
    {
        Ok(0)
    }

    /// The path of the icon theme: none.
    pub fn icon_theme_path(&self) -> (res: Result<String, BusError>)
        ensures
            res matches Ok(text) && text@.len() == 0,
    {
        Ok(String::new())
    }

    /// Where the menu stands on the bus.
    pub fn menu(&self) -> (res: Result<ObjectPath<'static>, BusError>)
        ensures
            res matches Ok(path) && path_text(path) == "/MenuBar"@,
    {
        Ok(menu_path())
    }

    /// Whether the icon is nothing but a menu: no.
    pub fn item_is_menu(&self) -> (res: Result<bool, BusError>)
        ensures
            res matches Ok(answer) && !answer,
    {
        Ok(false)
    }

    /// The name of the icon in the theme: none.
    pub fn icon_name(&self) -> (res: Result<String, BusError>)
        ensures
            res matches Ok(text) && text@.len() == 0,
    {
        Ok(String::new())
    }

    /// The icon.
    pub fn icon_pixmap(&self) -> (res: Result<Vec<IconPixmap>, BusError>)
        ensures
            res matches Ok(icons) && pixmaps(icons@) == self.inner@.icon_pixmap,
    {
        Ok(self.inner.get_icon_pixmap())
    }

    /// The name of the overlay icon: none.
    pub fn overlay_icon_name(&self) -> (res: Result<String, BusError>)
        ensures
            res matches Ok(text) && text@.len() == 0,
    {
        Ok(String::new())
    }

    /// The overlay icon: none.
    pub fn overlay_icon_pixmap(&self) -> (res: Result<Vec<IconPixmap>, BusError>)
        ensures
            res matches Ok(icons) && icons@.len() == 0,
    {
        Ok(Vec::new())
    }

    /// The name of the attention icon: none.
    pub fn attention_icon_name(&self) -> (res: Result<String, BusError>)
        ensures
            res matches Ok(text) && text@.len() == 0,
    {
        Ok(String::new())
    }

    /// The attention icon: none.
    pub fn attention_icon_pixmap(&self) -> (res: Result<Vec<IconPixmap>, BusError>)
        ensures
            res matches Ok(icons) && icons@.len() == 0,
    {
        Ok(Vec::new())
    }

    /// The name of the attention movie: none.
    pub fn attention_movie_name(&self) -> (res: Result<String, BusError>)
        ensures
            res matches Ok(text) && text@.len() == 0,
    {
        Ok(String::new())
    }

    /// The tooltip.
    pub fn tool_tip(&self) -> (res: Result<ToolTipData, BusError>)
        ensures
            res matches Ok(tip) && tip@ == text_tool_tip(text_or_empty(self.inner@.tooltip)),
            self.inner.tooltip matches Some(text) ==> res->Ok_0.title@ == text@,
            self.inner.tooltip is None ==> res->Ok_0.title@.len() == 0,
            res->Ok_0.icon_name@.len() == 0 && res->Ok_0.icon_pixmap.len() == 0,
            res->Ok_0.description@.len() == 0,
    {
        Ok(self.inner.get_tooltip())
    }
}

} // verus!
