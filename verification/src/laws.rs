//! What holds of the tray as a whole: what is set is what is shown, and what is shown can be
//! chosen.
use vstd::prelude::*;

use crate::command::{show_only, CommandModel, UpdateModel};
use crate::dbus_menu::{event_model, is_item, EventModel};
use crate::flat::{flat_list, item_model, lemma_child_number};
use crate::icon::{argb, argb_icon, IconModel};
use crate::inner::InnerModel;
use crate::item_properties::item_properties;
use crate::layout::{layout_value, menu_layout};
use crate::layout_laws::{layout_lists_all_items, listing};
use crate::menu::{item_ids, numbered, MenuTree};
use crate::run::{next_stage, next_state, EventContent, Stage};
use crate::service::{
    announcements, bus_name_text, decimal, digit, first_state, shown_icons, status_text, updated,
    Signal,
};
use crate::value::{variant_dict, ValueModel};

verus! {

/// The list of the items and the list of their names have the same numbers: in both, a number
/// stands for the same item of the menu.
pub proof fn lists_agree(trees: Seq<MenuTree>, number: int)
    requires
        0 <= number < numbered(trees).len(),
    ensures
        flat_list(trees).len() == item_ids(trees).len(),
        flat_list(trees)[number] == item_model(numbered(trees)[number], number),
        item_ids(trees)[number] == numbered(trees)[number].id,
{
}

/// What the layout shows can be chosen: a click on the number at some place of the layout chooses
/// the item whose properties stand at that place, if the item has a name.
pub proof fn shown_item_is_chosen(trees: Seq<MenuTree>, filter: Seq<Seq<char>>, place: int)
    requires
        0 < place < numbered(trees).len(),
        place <= i32::MAX,
        numbered(trees)[place].id.len() > 0,
    ensures
        ({
            let shown = listing(layout_value(menu_layout(trees, None, filter)))[place];
            let item = numbered(trees)[place];
            &&& shown.0 == ValueModel::I32(place as i32)
            &&& shown.1 == ValueModel::Dict(
                variant_dict(item_properties(item_model(item, place), filter)),
            )
            &&& event_model(Some(trees), place as i32, "clicked"@) == EventModel::Chosen(item.id)
        }),
{
    layout_lists_all_items(trees, filter);
    lists_agree(trees, place);
}

/// A number that no item has, or whose item has no name, chooses nothing: a click on it is
/// answered with an error.
pub proof fn other_numbers_are_refused(menu: Option<Seq<MenuTree>>, id: i32)
    requires
        id != 0,
        !is_item(menu, id) || item_ids(menu->0)[id as int].len() == 0,
    ensures
        event_model(menu, id, "clicked"@) is NotFound,
{
}

/// What a click chooses is an item of the menu, so the host may also announce that it will show
/// it.
pub proof fn chosen_item_can_be_shown(menu: Option<Seq<MenuTree>>, id: i32, event: Seq<char>)
    requires
        event_model(menu, id, event) is Chosen,
    ensures
        is_item(menu, id),
{
}

/// In the list every child comes behind its parent, and the entry with the child's number is the
/// child's.
pub proof fn children_follow_parents(trees: Seq<MenuTree>, number: int, i: int)
    requires
        0 <= number < flat_list(trees).len(),
        0 <= i < flat_list(trees)[number].children.len(),
    ensures
        ({
            let child = flat_list(trees)[number].children[i];
            &&& number < child < flat_list(trees).len()
            &&& flat_list(trees)[child] == item_model(numbered(trees)[number].children[i], child)
        }),
{
    lemma_child_number(trees, number, i);
}

/// A tooltip that was set is shown, and nothing else changes but the status.
pub proof fn tooltip_is_shown(state: InnerModel, id: Seq<char>, text: Seq<char>)
    ensures
        updated(state, UpdateModel { tooltip: Some(text), ..show_only(id) }) == (InnerModel {
            tooltip: Some(text),
            status: status_text(true),
            ..state
        }),
{
}

/// A title that was set is shown, and nothing else changes but the status.
pub proof fn title_is_shown(state: InnerModel, id: Seq<char>, text: Seq<char>)
    ensures
        updated(state, UpdateModel { title: Some(text), ..show_only(id) }) == (InnerModel {
            title: Some(text),
            status: status_text(true),
            ..state
        }),
{
}

/// An icon that was set is shown in ARGB, and nothing else changes but the status.
pub proof fn icon_is_shown(state: InnerModel, id: Seq<char>, icon: IconModel)
    ensures
        updated(state, UpdateModel { icon: Some(icon), ..show_only(id) }) == (InnerModel {
            icon_pixmap: seq![argb_icon(icon)],
            status: status_text(true),
            ..state
        }),
{
}

/// A menu that was set is shown under the next revision, and nothing else changes but the status.
pub proof fn menu_is_shown(state: InnerModel, id: Seq<char>, trees: Seq<MenuTree>)
    requires
        state.revision < u32::MAX,
    ensures
        updated(state, UpdateModel { menu: Some(trees), ..show_only(id) }) == (InnerModel {
            menu: Some(trees),
            revision: (state.revision + 1) as u32,
            status: status_text(true),
            ..state
        }),
{
}

/// To show or hide the tray changes the status alone. So does an update that sets nothing.
pub proof fn visibility_is_the_status(state: InnerModel, id: Seq<char>, visible: bool)
    ensures
        updated(state, UpdateModel { visible, ..show_only(id) }) == (InnerModel {
            status: status_text(visible),
            ..state
        }),
{
}

/// The status tells whether the tray is visible.
pub proof fn status_tells_visibility(a: bool, b: bool)
    requires
        status_text(a) == status_text(b),
    ensures
        a == b,
{
    reveal_strlit("Active");
    reveal_strlit("Passive");
    assert(status_text(true).len() != status_text(false).len());
}

/// An update without a menu that comes twice does what it does once.
pub proof fn repeated_update_changes_nothing(state: InnerModel, update: UpdateModel)
    requires
        update.menu is None,
    ensures
        updated(updated(state, update), update) == updated(state, update),
{
}

/// The service shows the icon, the tooltip and the title from the start: its first command only
/// brings the menu, if there is one, under revision 1.
pub proof fn first_command_brings_the_menu(
    id: Seq<char>,
    icon: Option<IconModel>,
    tooltip: Option<Seq<char>>,
    title: Option<Seq<char>>,
    menu: Option<Seq<MenuTree>>,
)
    ensures
        updated(
            first_state(id, icon, tooltip, title),
            UpdateModel { id, icon, tooltip, title, visible: true, menu },
        ) == (InnerModel {
            menu,
            revision: if menu is Some {
                1
            } else {
                0
            },
            ..first_state(id, icon, tooltip, title)
        }),
{
}

/// The state after a number of updates.
pub open spec fn updated_by_all(state: InnerModel, updates: Seq<UpdateModel>) -> InnerModel
    decreases updates.len(),
{
    if updates.len() == 0 {
        state
    } else {
        updated(updated_by_all(state, updates.drop_last()), updates.last())
    }
}

/// How many of the updates bring a menu.
pub open spec fn menus_in(updates: Seq<UpdateModel>) -> nat
    decreases updates.len(),
{
    if updates.len() == 0 {
        0
    } else {
        menus_in(updates.drop_last()) + if updates.last().menu is Some {
            1nat
        } else {
            0nat
        }
    }
}

/// The revision counts the menus that came, and the name of the tray never changes.
pub proof fn revision_counts_menus(state: InnerModel, updates: Seq<UpdateModel>)
    requires
        state.revision + menus_in(updates) <= u32::MAX,
    ensures
        updated_by_all(state, updates).revision == state.revision + menus_in(updates),
        updated_by_all(state, updates).id == state.id,
        updated_by_all(state, updates).item_id_offset == state.item_id_offset,
    decreases updates.len(),
{
    if updates.len() > 0 {
        revision_counts_menus(state, updates.drop_last());
    }
}

/// What an update leaves out stays as it is, and so does the name of the tray: the name in the
/// update does not count.
pub proof fn what_is_left_out_stays(state: InnerModel, update: UpdateModel)
    ensures
        update.icon is None ==> updated(state, update).icon_pixmap == state.icon_pixmap,
        update.tooltip is None ==> updated(state, update).tooltip == state.tooltip,
        update.title is None ==> updated(state, update).title == state.title,
        update.menu is None ==> updated(state, update).menu == state.menu && updated(
            state,
            update,
        ).revision == state.revision,
        updated(state, update).id == state.id,
        updated(state, update).item_id_offset == state.item_id_offset,
{
}

/// The last of `later` that is there, or else `first`.
pub open spec fn last_some<T>(first: Option<T>, later: Seq<Option<T>>) -> Option<T>
    decreases later.len(),
{
    if later.len() == 0 {
        first
    } else if later.last() is Some {
        later.last()
    } else {
        last_some(first, later.drop_last())
    }
}

/// The icons that some updates bring.
pub open spec fn icons_of(updates: Seq<UpdateModel>) -> Seq<Option<IconModel>> {
    Seq::new(updates.len(), |i: int| updates[i].icon)
}

/// The tooltips that some updates bring.
pub open spec fn tooltips_of(updates: Seq<UpdateModel>) -> Seq<Option<Seq<char>>> {
    Seq::new(updates.len(), |i: int| updates[i].tooltip)
}

/// The titles that some updates bring.
pub open spec fn titles_of(updates: Seq<UpdateModel>) -> Seq<Option<Seq<char>>> {
    Seq::new(updates.len(), |i: int| updates[i].title)
}

/// The menus that some updates bring.
pub open spec fn menus_of(updates: Seq<UpdateModel>) -> Seq<Option<Seq<MenuTree>>> {
    Seq::new(updates.len(), |i: int| updates[i].menu)
}

/// After any updates the tray shows, of the icons, the tooltips, the titles and the menus, the last
/// that came, and what it began with where none came. The icon is shown in ARGB.
pub proof fn the_last_one_is_shown(
    id: Seq<char>,
    icon: Option<IconModel>,
    tooltip: Option<Seq<char>>,
    title: Option<Seq<char>>,
    updates: Seq<UpdateModel>,
)
    ensures
        ({
            let state = updated_by_all(first_state(id, icon, tooltip, title), updates);
            &&& state.icon_pixmap == shown_icons(last_some(icon, icons_of(updates)))
            &&& state.tooltip == last_some(tooltip, tooltips_of(updates))
            &&& state.title == last_some(title, titles_of(updates))
            &&& state.menu == last_some(None, menus_of(updates))
        }),
    decreases updates.len(),
{
    if updates.len() > 0 {
        let init = updates.drop_last();
        the_last_one_is_shown(id, icon, tooltip, title, init);
        assert(icons_of(updates).drop_last() =~= icons_of(init));
        assert(tooltips_of(updates).drop_last() =~= tooltips_of(init));
        assert(titles_of(updates).drop_last() =~= titles_of(init));
        assert(menus_of(updates).drop_last() =~= menus_of(init));
    }
}

/// The status is always one of two. The tray begins as active; afterwards the last update alone
/// counts, so an update that is visible and only sets a title shows a hidden tray again.
pub proof fn status_follows_last_update(
    id: Seq<char>,
    icon: Option<IconModel>,
    tooltip: Option<Seq<char>>,
    title: Option<Seq<char>>,
    updates: Seq<UpdateModel>,
)
    ensures
        ({
            let status = updated_by_all(first_state(id, icon, tooltip, title), updates).status;
            &&& status == "Active"@ || status == "Passive"@
            &&& updates.len() == 0 ==> status == "Active"@
            &&& updates.len() > 0 ==> (status == "Active"@ <==> updates.last().visible)
        }),
{
    if updates.len() > 0 && !updates.last().visible && status_text(true) == status_text(false) {
        status_tells_visibility(true, false);
    }
}

/// What a service shows after some events, and where it stands then.
pub open spec fn after_events(
    state: InnerModel,
    stage: Stage,
    events: Seq<EventContent>,
) -> (InnerModel, Stage)
    decreases events.len(),
{
    if events.len() == 0 {
        (state, stage)
    } else {
        let before = after_events(state, stage, events.drop_last());
        (
            next_state(before.0, before.1, events.last()),
            next_stage(before.1, events.last()),
        )
    }
}

/// The arrival of some updates.
pub open spec fn arrivals(updates: Seq<UpdateModel>) -> Seq<EventContent> {
    Seq::new(
        updates.len(),
        |i: int| EventContent::Received(Some(CommandModel::Update(updates[i]))),
    )
}

/// A service that got its connection takes every update that comes, and goes on serving.
pub proof fn connected_service_takes_all_updates(
    state: InnerModel,
    named: bool,
    registered: bool,
    updates: Seq<UpdateModel>,
)
    ensures
        after_events(
            state,
            Stage::Connecting,
            seq![
                EventContent::Connected(true),
                EventContent::Named(named),
                EventContent::Registered(registered),
            ] + arrivals(updates),
        ) == (updated_by_all(state, updates), Stage::Serving),
    decreases updates.len(),
{
    let opening = seq![
        EventContent::Connected(true),
        EventContent::Named(named),
        EventContent::Registered(registered),
    ];
    let events = opening + arrivals(updates);
    if updates.len() == 0 {
        let two = opening.drop_last();
        let one = two.drop_last();
        assert(events =~= opening);
        assert(one.drop_last() =~= Seq::empty());
        assert(after_events(state, Stage::Connecting, one.drop_last()) == (
            state,
            Stage::Connecting,
        ));
        assert(one.last() == EventContent::Connected(true));
        assert(after_events(state, Stage::Connecting, one) == (state, Stage::Naming));
        assert(two.last() == EventContent::Named(named));
        assert(after_events(state, Stage::Connecting, two) == (state, Stage::Registering));
    } else {
        let init = updates.drop_last();
        connected_service_takes_all_updates(state, named, registered, init);
        assert(events.drop_last() =~= opening + arrivals(init));
        assert(events.last() == EventContent::Received(
            Some(CommandModel::Update(updates.last())),
        ));
    }
}

/// An icon, a tooltip, a title or a menu never goes away again.
pub proof fn what_is_shown_stays(state: InnerModel, update: UpdateModel)
    ensures
        state.icon_pixmap.len() > 0 ==> updated(state, update).icon_pixmap.len() > 0,
        state.tooltip is Some ==> updated(state, update).tooltip is Some,
        state.title is Some ==> updated(state, update).title is Some,
        state.menu is Some ==> updated(state, update).menu is Some,
{
}

/// A decimal number has only digits, and no two numbers look the same.
proof fn lemma_decimal(m: nat, n: nat)
    ensures
        decimal(n).len() > 0,
        forall|i: int| 0 <= i < decimal(n).len() ==> '0' <= #[trigger] decimal(n)[i] <= '9',
        decimal(m) == decimal(n) ==> m == n,
    decreases m + n,
{
    let tail = |k: nat| digit(k % 10);
    assert('0' <= digit(n % 10) <= '9');
    assert(decimal(n).last() == tail(n));
    assert(decimal(m).last() == tail(m));
    if n >= 10 {
        lemma_decimal(n / 10, n / 10);
    }
    if m >= 10 {
        lemma_decimal(m / 10, m / 10);
    }
    if decimal(m) == decimal(n) {
        assert(m % 10 == n % 10);
        if m >= 10 && n >= 10 {
            lemma_decimal(m / 10, n / 10);
            assert(decimal(m).drop_last() =~= decimal(m / 10));
            assert(decimal(n).drop_last() =~= decimal(n / 10));
        } else if m >= 10 {
            assert(decimal(m).len() > 1);
        } else if n >= 10 {
            assert(decimal(n).len() > 1);
        }
    }
}

/// No two trays have the same bus name: neither two in one process nor two in different ones.
pub proof fn bus_names_differ(pid_a: u32, a: Seq<char>, pid_b: u32, b: Seq<char>)
    requires
        bus_name_text(pid_a, a) == bus_name_text(pid_b, b),
    ensures
        pid_a == pid_b,
        a == b,
{
    reveal_strlit("-");
    let prefix = "org.kde.StatusNotifierItem-"@;
    let da = decimal(pid_a as nat);
    let db = decimal(pid_b as nat);
    let name = bus_name_text(pid_a, a);
    let at = prefix.len() as int;
    lemma_decimal(pid_b as nat, pid_a as nat);
    lemma_decimal(pid_a as nat, pid_b as nat);
    assert(name[at + da.len()] == '-');
    assert(name[at + db.len()] == '-');
    if da.len() < db.len() {
        assert(name[at + da.len()] == db[da.len() as int]);
    } else if db.len() < da.len() {
        assert(name[at + db.len()] == da[db.len() as int]);
    }
    assert(da =~= name.subrange(at, at + da.len()));
    assert(db =~= name.subrange(at, at + db.len()));
    assert(a =~= name.skip(at + da.len() + 1));
    assert(b =~= name.skip(at + db.len() + 1));
}

/// What an update brings is shown: the icon in ARGB and alone, the tooltip, the title, and the menu
/// under the next revision. The tray is active if the update is visible, and passive if it is not.
pub proof fn what_an_update_brings_is_shown(state: InnerModel, update: UpdateModel)
    ensures
        ({
            let shown = updated(state, update);
            &&& update.icon matches Some(icon) ==> {
                &&& shown.icon_pixmap.len() == 1
                &&& shown.icon_pixmap[0].width == icon.width
                &&& shown.icon_pixmap[0].height == icon.height
                &&& shown.icon_pixmap[0].data == argb(icon.data)
            }
            &&& update.tooltip is Some ==> shown.tooltip == update.tooltip
            &&& update.title is Some ==> shown.title == update.title
            &&& update.menu is Some ==> shown.menu == update.menu
            &&& update.menu is Some && state.revision < u32::MAX ==> shown.revision
                == state.revision + 1
            &&& update.visible ==> shown.status == "Active"@
            &&& !update.visible ==> shown.status == "Passive"@
        }),
{
}

/// The service begins as active, without a menu and at revision 0, under the name of its tray, and
/// with the icon, the tooltip and the title that it was given.
pub proof fn the_service_begins_with_what_it_was_given(
    id: Seq<char>,
    icon: Option<IconModel>,
    tooltip: Option<Seq<char>>,
    title: Option<Seq<char>>,
)
    ensures
        ({
            let state = first_state(id, icon, tooltip, title);
            &&& state.id == "tray-icon-"@ + id
            &&& icon is None ==> state.icon_pixmap.len() == 0
            &&& icon matches Some(given) ==> {
                &&& state.icon_pixmap.len() == 1
                &&& state.icon_pixmap[0].width == given.width
                &&& state.icon_pixmap[0].height == given.height
                &&& state.icon_pixmap[0].data == argb(given.data)
            }
            &&& state.tooltip == tooltip
            &&& state.title == title
            &&& state.status == "Active"@
            &&& state.menu is None
            &&& state.revision == 0
            &&& state.item_id_offset == 0
        }),
{
}

/// Every update is announced by four signals: the icon, the tooltip, the title, and the layout of
/// the whole menu under its revision.
pub proof fn four_signals_announce_an_update(revision: u32)
    ensures
        announcements(revision).len() == 4,
        announcements(revision)[0] == Signal::NewIcon,
        announcements(revision)[1] == Signal::NewToolTip,
        announcements(revision)[2] == Signal::NewTitle,
        announcements(revision)[3] == (Signal::LayoutUpdated { revision, parent: 0 }),
{
}

/// The number that decimal digits stand for.
pub open spec fn number_of(digits: Seq<char>) -> int
    decreases digits.len(),
{
    if digits.len() == 0 {
        0
    } else {
        10 * number_of(digits.drop_last()) + (digits.last() as int - '0' as int)
    }
}

proof fn lemma_number_of(n: nat)
    ensures
        number_of(decimal(n)) == n,
        decimal(n).len() > 0,
        decimal(n).len() > 1 ==> decimal(n)[0] != '0',
        n > 0 ==> decimal(n)[0] != '0',
    decreases n,
{
    let last = decimal(n).last();
    assert(last == digit(n % 10));
    assert(last as int - '0' as int == n % 10);
    if n < 10 {
        assert(decimal(n).drop_last() =~= Seq::empty());
        assert(number_of(decimal(n).drop_last()) == 0);
    } else {
        lemma_number_of(n / 10);
        assert(decimal(n).drop_last() =~= decimal(n / 10));
        assert(decimal(n)[0] == decimal(n / 10)[0]);
    }
}

/// A bus name is the name of the interface, the number of the process in decimal without leading
/// zeros, and the name of the tray, with a hyphen between them.
pub proof fn bus_names_tell_process_and_tray(pid: u32, id: Seq<char>)
    ensures
        exists|digits: Seq<char>| #[trigger]
            number_of(digits) == pid && digits.len() > 0 && (digits.len() > 1 ==> digits[0] != '0')
                && (forall|i: int| 0 <= i < digits.len() ==> '0' <= #[trigger] digits[i] <= '9')
                && bus_name_text(pid, id) == "org.kde.StatusNotifierItem-"@ + digits + "-"@ + id,
{
    lemma_number_of(pid as nat);
    lemma_decimal(pid as nat, pid as nat);
    assert(number_of(decimal(pid as nat)) == pid);
}

} // verus!
