use tray_icon::command::{Command, TrayIconId};
use tray_icon::icon::{Icon, IconData, PlatformIcon};
use tray_icon::inner::Inner;
use tray_icon::menu::{ContextMenu, MenuId, MenuItemKind, MenuSnapshot};
use tray_icon::run::{Action, Event, Service, Stage};
use tray_icon::service::{bus_name, Signal, Step};
use tray_icon::tray::{TrayIcon, TrayIconAttributes};

fn id() -> TrayIconId {
    TrayIconId("main".to_string())
}

fn icon(alpha: u8) -> Icon {
    Icon { inner: PlatformIcon { rgba: vec![1, 2, 3, alpha], width: 1, height: 1 } }
}

fn menu(names: &[&str]) -> ContextMenu {
    ContextMenu::Menu(
        names
            .iter()
            .map(|n| MenuItemKind::MenuItem {
                id: MenuId::new(n),
                text: n.to_string(),
                enabled: true,
            })
            .collect(),
    )
}

fn bare() -> TrayIconAttributes {
    TrayIconAttributes { tooltip: None, menu: None, icon: None, title: None }
}

fn full() -> TrayIconAttributes {
    TrayIconAttributes {
        tooltip: Some("tip".to_string()),
        menu: Some(menu(&["a", "b"])),
        icon: Some(icon(9)),
        title: Some("title".to_string()),
    }
}

fn started() -> (TrayIcon, Inner) {
    let (tray, start, command) = TrayIcon::new(id(), full());
    let mut inner = Inner::start(start);
    inner.handle(Some(command));
    (tray, inner)
}

fn signals(step: Step) -> Vec<Signal> {
    match step {
        Step::Announce(signals) => signals,
        Step::Close => panic!("closed"),
    }
}

/// Everything that the state shows, as text.
fn shown(inner: &Inner) -> String {
    format!(
        "{} {:?} {:?} {:?} {} {:?} {} {}",
        inner.id,
        inner.icon_pixmap,
        inner.tooltip,
        inner.title,
        inner.status,
        inner.menu,
        inner.revision,
        inner.item_id_offset
    )
}

#[test]
fn the_first_state_shows_what_is_known() {
    let (_, start, _) = TrayIcon::new(id(), full());
    let inner = Inner::start(start);
    assert_eq!(inner.id, "tray-icon-main");
    assert_eq!(inner.icon_pixmap.len(), 1);
    assert_eq!(inner.icon_pixmap[0].data, vec![9, 1, 2, 3]);
    assert_eq!(inner.tooltip.as_deref(), Some("tip"));
    assert_eq!(inner.title.as_deref(), Some("title"));
    assert_eq!(inner.status, "Active");
    assert!(inner.menu.is_none());
    assert_eq!((inner.revision, inner.item_id_offset), (0, 0));
}

#[test]
fn a_bare_tray_shows_nothing() {
    let (tray, start, command) = TrayIcon::new(id(), bare());
    assert!(tray.current_menu_snapshot().is_none());
    let mut inner = Inner::start(start);
    let before = shown(&inner);
    let step = inner.handle(Some(command));
    assert_eq!(shown(&inner), before);
    assert!(inner.icon_pixmap.is_empty());
    assert_eq!(inner.tooltip, None);
    assert_eq!(inner.title, None);
    assert_eq!(signals(step)[3], Signal::LayoutUpdated { revision: 0, parent: 0 });
}

#[test]
fn the_first_command_brings_the_menu_only() {
    let (_, start, command) = TrayIcon::new(id(), full());
    let mut inner = Inner::start(start);
    let step = inner.handle(Some(command));
    assert_eq!(
        signals(step),
        vec![
            Signal::NewIcon,
            Signal::NewToolTip,
            Signal::NewTitle,
            Signal::LayoutUpdated { revision: 1, parent: 0 },
        ]
    );
    assert_eq!(inner.menu.as_ref().unwrap().items.len(), 2);
    assert_eq!(inner.revision, 1);
    inner.menu = None;
    inner.revision = 0;
    let (_, start, _) = TrayIcon::new(id(), full());
    assert_eq!(shown(&inner), shown(&Inner::start(start)));
}

#[test]
fn what_is_set_is_shown() {
    let (mut tray, mut inner) = started();
    inner.handle(Some(tray.set_tooltip(Some("new tip"))));
    assert_eq!(inner.tooltip.as_deref(), Some("new tip"));
    assert_eq!(inner.title.as_deref(), Some("title"));
    inner.handle(Some(tray.set_title(Some("new title"))));
    assert_eq!(inner.title.as_deref(), Some("new title"));
    assert_eq!(inner.tooltip.as_deref(), Some("new tip"));
    inner.handle(Some(tray.set_icon(Some(icon(5)))));
    assert_eq!(inner.icon_pixmap.len(), 1);
    assert_eq!(inner.icon_pixmap[0].data, vec![5, 1, 2, 3]);
    assert_eq!(inner.revision, 1);
    inner.handle(Some(tray.set_menu(Some(menu(&["x", "y", "z"])))));
    assert_eq!(inner.menu.as_ref().unwrap().items[2].label, "z");
    assert_eq!(inner.revision, 2);
    assert_eq!(inner.tooltip.as_deref(), Some("new tip"));
    assert_eq!(inner.id, "tray-icon-main");
}

#[test]
fn visibility_is_the_status_alone() {
    let (mut tray, mut inner) = started();
    let before = shown(&inner);
    inner.handle(Some(tray.set_visible(false)));
    assert_eq!(inner.status, "Passive");
    inner.handle(Some(tray.set_visible(false)));
    assert_eq!(inner.status, "Passive");
    inner.handle(Some(tray.set_visible(true)));
    assert_eq!(shown(&inner), before);
}

#[test]
fn to_set_nothing_only_shows_the_tray() {
    let (mut tray, mut inner) = started();
    let before = shown(&inner);
    let commands = vec![
        tray.set_icon(None),
        tray.set_tooltip(None),
        tray.set_title(None),
        tray.set_menu(None),
    ];
    for command in commands {
        inner.handle(Some(tray.set_visible(false)));
        inner.handle(Some(command));
        assert_eq!(shown(&inner), before);
    }
    assert!(tray.menu.is_none());
    tray.set_temp_dir_path(Some("/tmp"));
    assert_eq!(tray.id.0, "main");
}

#[test]
fn a_submenu_is_kept_but_not_shown() {
    let (mut tray, mut inner) = started();
    let before = shown(&inner);
    inner.handle(Some(tray.set_menu(Some(ContextMenu::Submenu(Vec::new())))));
    assert_eq!(shown(&inner), before);
    assert!(tray.menu.is_some());
    assert!(tray.current_menu_snapshot().is_none());
}

#[test]
fn an_empty_menu_is_a_menu() {
    let (mut tray, mut inner) = started();
    inner.handle(Some(tray.set_menu(Some(menu(&[])))));
    assert_eq!(inner.menu.as_ref().unwrap().items.len(), 0);
    assert_eq!(inner.revision, 2);
}

#[test]
fn revisions_count_menus() {
    let (mut tray, mut inner) = started();
    for i in 0..5 {
        inner.handle(Some(tray.set_title(Some("t"))));
        let step = inner.handle(Some(tray.set_menu(Some(menu(&["a"])))));
        assert_eq!(inner.revision, i + 2);
        assert_eq!(signals(step)[3], Signal::LayoutUpdated { revision: i + 2, parent: 0 });
    }
}

#[test]
fn an_update_twice_is_an_update_once() {
    let (mut tray, mut inner) = started();
    inner.handle(Some(tray.set_icon(Some(icon(3)))));
    let once = shown(&inner);
    inner.handle(Some(tray.set_icon(Some(icon(3)))));
    assert_eq!(shown(&inner), once);
}

#[test]
fn an_update_can_hold_everything() {
    let (_, mut inner) = started();
    let step = inner.handle(Some(Command::Update {
        id: TrayIconId("other".to_string()),
        icon: Some(IconData { width: 4, height: 5, data: vec![0, 0, 0, 255] }),
        tooltip: Some("t1".to_string()),
        title: Some("t2".to_string()),
        visible: false,
        menu: Some(MenuSnapshot { items: Vec::new() }),
    }));
    assert_eq!(inner.id, "tray-icon-main");
    assert_eq!(inner.icon_pixmap[0].width, 4);
    assert_eq!(inner.icon_pixmap[0].height, 5);
    assert_eq!(inner.icon_pixmap[0].data, vec![255, 0, 0, 0]);
    assert_eq!(inner.tooltip.as_deref(), Some("t1"));
    assert_eq!(inner.title.as_deref(), Some("t2"));
    assert_eq!(inner.status, "Passive");
    assert_eq!(inner.revision, 2);
    assert_eq!(signals(step).len(), 4);
}

#[test]
fn shutdown_closes_and_changes_nothing() {
    let (tray, mut inner) = started();
    let before = shown(&inner);
    assert!(matches!(inner.handle(Some(tray.shutdown())), Step::Close));
    assert!(matches!(inner.handle(None), Step::Close));
    assert_eq!(shown(&inner), before);
}

fn text(action: &Action) -> String {
    format!("{action:?}")
}

/// A service that takes commands, and the state that it shows.
fn serving() -> (Service, Inner) {
    let (_, start, _) = TrayIcon::new(id(), full());
    let (mut service, mut inner) = Service::new(7, start);
    service.step(&mut inner, Event::Connected(true));
    service.step(&mut inner, Event::Named(true));
    service.step(&mut inner, Event::Registered(true));
    (service, inner)
}

#[test]
fn a_connected_service_comes_to_serve() {
    for named in [true, false] {
        for registered in [true, false] {
            let (_, start, _) = TrayIcon::new(id(), full());
            let (mut service, mut inner) = Service::new(7, start);
            let before = shown(&inner);
            let name = "org.kde.StatusNotifierItem-7-main";
            assert_eq!(text(&service.action()), "Connect");
            let action = service.step(&mut inner, Event::Connected(true));
            assert_eq!(text(&action), format!("RequestName({name:?})"));
            assert_eq!(service.stage, Stage::Naming);
            let action = service.step(&mut inner, Event::Named(named));
            assert_eq!(text(&action), format!("Register({name:?})"));
            assert_eq!(service.stage, Stage::Registering);
            let action = service.step(&mut inner, Event::Registered(registered));
            assert_eq!(text(&action), "Receive");
            assert_eq!(service.stage, Stage::Serving);
            assert_eq!(shown(&inner), before);
        }
    }
}

#[test]
fn without_a_connection_the_service_stops() {
    let (_, start, _) = TrayIcon::new(id(), bare());
    let (mut service, mut inner) = Service::new(7, start);
    let action = service.step(&mut inner, Event::Connected(false));
    assert_eq!(text(&action), "Stop");
    assert_eq!(service.stage, Stage::Ended);
    let action = service.step(&mut inner, Event::Connected(true));
    assert_eq!(text(&action), "Stop");
}

#[test]
fn a_serving_service_announces_updates() {
    let (mut tray, _, first) = TrayIcon::new(id(), full());
    let (mut service, mut inner) = serving();
    let action = service.step(&mut inner, Event::Received(Some(first)));
    assert_eq!(
        text(&action),
        "Announce([NewIcon, NewToolTip, NewTitle, LayoutUpdated { revision: 1, parent: 0 }])"
    );
    let action = service.step(&mut inner, Event::Received(Some(tray.set_visible(false))));
    assert!(matches!(action, Action::Announce(_)));
    assert_eq!(inner.status, "Passive");
    assert_eq!((service.stage, inner.revision), (Stage::Serving, 1));
}

#[test]
fn the_end_of_the_commands_closes_the_service() {
    for last in [Some(Command::Shutdown), None] {
        let (mut service, mut inner) = serving();
        let before = shown(&inner);
        let action = service.step(&mut inner, Event::Received(last));
        assert_eq!(text(&action), "Close");
        assert_eq!(service.stage, Stage::Ended);
        assert_eq!(shown(&inner), before);
        let (mut tray, _, _) = TrayIcon::new(id(), bare());
        let late = Event::Received(Some(tray.set_title(Some("late"))));
        assert_eq!(text(&service.step(&mut inner, late)), "Stop");
        assert_eq!(shown(&inner), before);
    }
}

#[test]
fn events_of_another_stage_change_nothing() {
    let (mut service, mut inner) = serving();
    let before = shown(&inner);
    for event in [Event::Connected(false), Event::Named(false), Event::Registered(false)] {
        assert_eq!(text(&service.step(&mut inner, event)), "Receive");
    }
    let (_, start, first) = TrayIcon::new(id(), full());
    let (mut early, mut state) = Service::new(7, start);
    assert_eq!(text(&early.step(&mut state, Event::Received(Some(first)))), "Connect");
    assert_eq!((shown(&inner), shown(&state)), (before.clone(), before));
}

#[test]
fn bus_names_hold_the_process_and_the_tray() {
    assert_eq!(bus_name(0, &id()), "org.kde.StatusNotifierItem-0-main");
    assert_eq!(bus_name(10203, &id()), "org.kde.StatusNotifierItem-10203-main");
    assert_eq!(
        bus_name(u32::MAX, &TrayIconId(String::new())),
        "org.kde.StatusNotifierItem-4294967295-"
    );
    let a = bus_name(1, &TrayIconId("2-3".to_string()));
    let b = bus_name(12, &TrayIconId("3".to_string()));
    assert_ne!(a, b);
}

#[test]
fn the_last_of_each_kind_is_shown() {
    let (mut tray, start, _) = TrayIcon::new(id(), bare());
    let mut inner = Inner::start(start);
    let commands = vec![
        tray.set_title(Some("one")),
        tray.set_icon(Some(icon(1))),
        tray.set_menu(Some(menu(&["a"]))),
        tray.set_title(Some("two")),
        tray.set_icon(Some(icon(2))),
        tray.set_menu(None),
        tray.set_title(None),
    ];
    for command in commands {
        inner.handle(Some(command));
    }
    assert_eq!(inner.title.as_deref(), Some("two"));
    assert_eq!(inner.tooltip, None);
    assert_eq!(inner.icon_pixmap.len(), 1);
    assert_eq!(inner.icon_pixmap[0].data, vec![2, 1, 2, 3]);
    assert_eq!(inner.menu.as_ref().unwrap().items.len(), 1);
    assert_eq!(inner.revision, 1);
}

#[test]
fn a_title_shows_a_hidden_tray_again() {
    let (mut tray, mut inner) = started();
    assert_eq!(inner.status, "Active");
    inner.handle(Some(tray.set_visible(false)));
    assert_eq!(inner.status, "Passive");
    inner.handle(Some(tray.set_title(Some("t"))));
    assert_eq!(inner.status, "Active");
}

#[test]
fn a_serving_service_takes_every_update() {
    let (mut tray, _, _) = TrayIcon::new(id(), bare());
    let (mut service, mut inner) = serving();
    for text in ["a", "b", "c"] {
        let event = Event::Received(Some(tray.set_tooltip(Some(text))));
        service.step(&mut inner, event);
        assert_eq!(inner.tooltip.as_deref(), Some(text));
        assert_eq!(service.stage, Stage::Serving);
    }
}
