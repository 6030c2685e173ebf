//! The state of the service that shows the tray: how it begins, what a command changes and what is
//! announced.
use vstd::prelude::*;
use vstd::string::StringExecFns;

use crate::command::{opt_icon, Command, TrayIconId, UpdateModel};
use crate::icon::{argb_icon, pixmaps, IconData, IconModel, IconPixmap};
use crate::inner::{opt_text, Inner, InnerModel};

verus! {

/// What the service knows of the tray when it starts.
#[derive(Debug)]
pub struct ServiceStart {
    pub id: TrayIconId,
    pub icon: Option<IconData>,
    pub tooltip: Option<String>,
    pub title: Option<String>,
}

/// The icons that the bus shows for an optional icon in RGBA: one, or none.
pub open spec fn shown_icons(icon: Option<IconModel>) -> Seq<IconModel> {
    match icon {
        Some(icon) => seq![argb_icon(icon)],
        None => Seq::empty(),
    }
}

/// The status of a tray that is, or is not, visible.
pub open spec fn status_text(visible: bool) -> Seq<char> {
    if visible {
        "Active"@
    } else {
        "Passive"@
    }
}

/// The first state: visible, with the icon, the tooltip and the title, and without a menu.
pub open spec fn first_state(
    id: Seq<char>,
    icon: Option<IconModel>,
    tooltip: Option<Seq<char>>,
    title: Option<Seq<char>>,
) -> InnerModel {
    InnerModel {
        id: "tray-icon-"@ + id,
        icon_pixmap: shown_icons(icon),
        tooltip,
        title,
        status: status_text(true),
        menu: None,
        revision: 0,
        item_id_offset: 0,
    }
}

/// The state after an update: what the update holds replaces what was there, what it leaves out
/// stays. The status always follows the update. A new menu counts the revision up.
pub open spec fn updated(state: InnerModel, update: UpdateModel) -> InnerModel {
    InnerModel {
        icon_pixmap: if update.icon is Some {
            shown_icons(update.icon)
        } else {
            state.icon_pixmap
        },
        tooltip: if update.tooltip is Some {
            update.tooltip
        } else {
            state.tooltip
        },
        title: if update.title is Some {
            update.title
        } else {
            state.title
        },
        status: status_text(update.visible),
        menu: if update.menu is Some {
            update.menu
        } else {
            state.menu
        },
        revision: if update.menu is Some {
            (state.revision + 1) as u32
        } else {
            state.revision
        },
        ..state
    }
}

/// Something that the service announces on the bus.
#[derive(Debug, Clone, Copy, PartialEq, Eq, Structural)]
pub enum Signal {
    NewIcon,
    NewToolTip,
    NewTitle,
    LayoutUpdated { revision: u32, parent: i32 },
}

/// What the service does after it has taken a command.
#[derive(Debug)]
pub enum Step {
    /// Closes the connection and ends.
    Close,
    /// Announces these, in order, and waits for the next command.
    Announce(Vec<Signal>),
}

/// What is announced after every update: everything that may have changed.
pub open spec fn announcements(revision: u32) -> Seq<Signal> {
    seq![
        Signal::NewIcon,
        Signal::NewToolTip,
        Signal::NewTitle,
        Signal::LayoutUpdated { revision, parent: 0 },
    ]
}

/// The icons that the bus shows for an optional icon in RGBA.
fn show_icon(icon: &Option<IconData>) -> (res: Vec<IconPixmap>)
    ensures
        pixmaps(res@) == shown_icons(opt_icon(*icon)),
{
    let mut res: Vec<IconPixmap> = Vec::new();
    if let Some(icon) = icon {
        res.push(IconPixmap::from_data(icon));
    }
    assert(pixmaps(res@) =~= shown_icons(opt_icon(*icon)));
    res
}

impl Inner {
    /// The first state of the service.
    pub fn start(start: ServiceStart) -> (res: Inner)
        ensures
            res@ == first_state(
                start.id.0@,
                opt_icon(start.icon),
                opt_text(start.tooltip),
                opt_text(start.title),
            ),
    {
        let mut id = "tray-icon-".to_string();
        id.append(start.id.0.as_str());
        Inner {
            id,
            icon_pixmap: show_icon(&start.icon),
            tooltip: start.tooltip,
            title: start.title,
            status: "Active".to_string(),
            menu: None,
            revision: 0,
            item_id_offset: 0,
        }
    }

    /// Takes a command, or learns (by `None`) that no more commands will come.
    pub fn handle(&mut self, received: Option<Command>) -> (res: Step)
        requires
            received matches Some(Command::Update { menu: Some(_), .. }) ==> old(self).revision
                < u32::MAX,
        ensures
            match received {
                Some(Command::Update { .. }) => {
                    &&& final(self)@ == updated(old(self)@, received->0@->Update_0)
                    &&& res matches Step::Announce(signals) && signals@ == announcements(
                        final(self).revision,
                    )
                },
                _ => res is Close && *final(self) == *old(self),
            },
    {
        match received {
            Some(Command::Update { id: _, icon, tooltip, title, visible, menu }) => {
                if icon.is_some() {
                    self.icon_pixmap = show_icon(&icon);
                }
                if tooltip.is_some() {
                    self.tooltip = tooltip;
                }
                if title.is_some() {
                    self.title = title;
                }
                self.status = if visible {
                    "Active".to_string()
                } else {
                    "Passive".to_string()
                };
                if menu.is_some() {
                    self.revision = self.revision + 1;
                    self.menu = menu;
                }
                let mut signals: Vec<Signal> = Vec::new();
                signals.push(Signal::NewIcon);
                signals.push(Signal::NewToolTip);
                signals.push(Signal::NewTitle);
                signals.push(Signal::LayoutUpdated { revision: self.revision, parent: 0 });
                assert(signals@ =~= announcements(self.revision));
                Step::Announce(signals)
            },
            Some(Command::Shutdown) => Step::Close,
            None => Step::Close,
        }
    }
}

/// A decimal digit.
pub open spec fn digit(d: nat) -> char {
    (48 + d) as char
}

/// A number in decimal notation.
pub open spec fn decimal(n: nat) -> Seq<char>
    decreases n,
{
    if n < 10 {
        seq![digit(n)]
    } else {
        decimal(n / 10).push(digit(n % 10))
    }
}

/// Appends a number in decimal notation.
fn push_decimal(s: &mut String, n: u32)
    ensures
        final(s)@ == old(s)@ + decimal(n as nat),
    decreases n,
{
    if n >= 10 {
        push_decimal(s, n / 10);
    }
    let ghost before = s@;
    let d: u32 = n % 10;
    proof {
        reveal_strlit("0");
        reveal_strlit("1");
        reveal_strlit("2");
        reveal_strlit("3");
        reveal_strlit("4");
        reveal_strlit("5");
        reveal_strlit("6");
        reveal_strlit("7");
        reveal_strlit("8");
        reveal_strlit("9");
    }
    let text = match d {
        0 => "0",
        1 => "1",
        2 => "2",
        3 => "3",
        4 => "4",
        5 => "5",
        6 => "6",
        7 => "7",
        8 => "8",
        _ => "9",
    };
    assert(text@ =~= seq![digit(d as nat)]);
    s.append(text);
    proof {
        assert(s@ =~= before.push(digit(d as nat)));
        assert(s@ =~= old(s)@ + decimal(n as nat));
    }
}

/// The bus name of a tray: it holds the number of the process and the tray's own name.
pub open spec fn bus_name_text(pid: u32, id: Seq<char>) -> Seq<char> {
    "org.kde.StatusNotifierItem-"@ + decimal(pid as nat) + "-"@ + id
}

/// The bus name of a tray.
pub fn bus_name(pid: u32, id: &TrayIconId) -> (res: String)
    ensures
        res@ == bus_name_text(pid, id.0@),
{
    let mut name = "org.kde.StatusNotifierItem-".to_string();
    push_decimal(&mut name, pid);
    name.append("-");
    name.append(id.0.as_str());
    name
}

} // verus!
