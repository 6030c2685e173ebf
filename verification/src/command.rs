//! What the application tells the service that shows the tray.
use vstd::prelude::*;

use crate::icon::{IconData, IconModel};
use crate::inner::{opt_menu, opt_text};
use crate::menu::{forest, MenuSnapshot, MenuTree};

verus! {

/// The name of a tray icon.
#[derive(Debug)]
pub struct TrayIconId(pub String);

impl Clone for TrayIconId {
    fn clone(&self) -> (res: Self)
        ensures
            res == *self,
    {
        TrayIconId(self.0.clone())
    }
}

/// A message to the service.
#[derive(Debug)]
pub enum Command {
    /// Changes what the tray shows. What is `None` stays as it is.
    Update {
        id: TrayIconId,
        icon: Option<IconData>,
        tooltip: Option<String>,
        title: Option<String>,
        visible: bool,
        menu: Option<MenuSnapshot>,
    },
    /// Ends the service.
    Shutdown,
}

/// The content of an update.
pub ghost struct UpdateModel {
    pub id: Seq<char>,
    pub icon: Option<IconModel>,
    pub tooltip: Option<Seq<char>>,
    pub title: Option<Seq<char>>,
    pub visible: bool,
    pub menu: Option<Seq<MenuTree>>,
}

/// The content of a [`Command`].
pub ghost enum CommandModel {
    Update(UpdateModel),
    Shutdown,
}

/// The content of an optional icon.
pub open spec fn opt_icon(icon: Option<IconData>) -> Option<IconModel> {
    match icon {
        Some(icon) => Some(icon@),
        None => None,
    }
}

impl View for Command {
    type V = CommandModel;

    open spec fn view(&self) -> CommandModel {
        match *self {
            Command::Update { id, icon, tooltip, title, visible, menu } => CommandModel::Update(
                UpdateModel {
                    id: id.0@,
                    icon: opt_icon(icon),
                    tooltip: opt_text(tooltip),
                    title: opt_text(title),
                    visible,
                    menu: opt_menu(menu),
                },
            ),
            Command::Shutdown => CommandModel::Shutdown,
        }
    }
}

/// The update that only makes the tray visible.
pub open spec fn show_only(id: Seq<char>) -> UpdateModel {
    UpdateModel { id, icon: None, tooltip: None, title: None, visible: true, menu: None }
}

/// The content of a command is what its fields hold.
pub proof fn commands_are_seen_as_they_are(command: Command)
    ensures
        match command {
            Command::Update { id, icon, tooltip, title, visible, menu } => {
                let update = command@->Update_0;
                &&& command@ is Update
                &&& update.id == id.0@
                &&& update.icon is Some <==> icon is Some
                &&& icon matches Some(i) ==> update.icon->0.width == i.width
                    && update.icon->0.height == i.height && update.icon->0.data == i.data@
                &&& update.tooltip is Some <==> tooltip is Some
                &&& tooltip matches Some(t) ==> update.tooltip->0 == t@
                &&& update.title is Some <==> title is Some
                &&& title matches Some(t) ==> update.title->0 == t@
                &&& update.visible == visible
                &&& update.menu is Some <==> menu is Some
                &&& menu matches Some(m) ==> update.menu->0 == forest(m.items@)
            },
            Command::Shutdown => command@ is Shutdown,
        },
{
}

} // verus!
