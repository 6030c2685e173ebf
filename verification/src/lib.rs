#![allow(unused_imports)]
pub mod command;
pub mod dbus_menu;
pub mod flat;
pub mod icon;
pub mod inner;
pub mod item_properties;
pub mod laws;
pub mod layout;
pub mod layout_laws;
pub mod layout_read;
pub mod menu;
pub mod menu_laws;
pub mod order;
pub mod properties;
pub mod run;
pub mod service;
pub mod status_item;
pub mod tray;
pub mod value;
pub mod value_laws;
