use tray_icon::dbus_menu::{BusEvent, DbusMenu};
use tray_icon::icon::IconPixmap;
use tray_icon::inner::{Inner, ToolTipData};
use tray_icon::layout::Layout;
use tray_icon::menu::{MenuId, MenuItemNode, MenuSnapshot};
use tray_icon::status_item::{
    menu_path, sni_path, BusError, StatusNotifierItem, MENU_PATH, SNI_PATH,
};
use zbus::zvariant::{OwnedValue, Value};

fn node(name: &str, children: Vec<MenuItemNode>) -> MenuItemNode {
    MenuItemNode {
        id: MenuId::new(name),
        label: format!("label of {name}"),
        enabled: true,
        checked: None,
        is_separator: false,
        is_submenu: false,
        children,
    }
}

/// a > (b), (without a name), c
fn state() -> Inner {
    let items = vec![node("a", vec![node("b", vec![])]), node("", vec![]), node("c", vec![])];
    Inner {
        id: "tray-icon-x".to_string(),
        icon_pixmap: vec![IconPixmap { width: 1, height: 1, data: vec![4, 3, 2, 1] }],
        tooltip: Some("tip".to_string()),
        title: Some("title".to_string()),
        status: "Passive".to_string(),
        menu: Some(MenuSnapshot { items }),
        revision: 12,
        item_id_offset: 0,
    }
}

fn no_menu() -> Inner {
    Inner { menu: None, tooltip: None, title: None, icon_pixmap: Vec::new(), ..state() }
}

fn data() -> OwnedValue {
    OwnedValue::from(0i32)
}

fn event(id: i32, kind: &str) -> BusEvent {
    (id, kind.to_string(), data(), 0)
}

fn invalid_args<T>(res: Result<T, BusError>) -> String {
    match res {
        Err(BusError::InvalidArgs(text)) => text,
        Err(BusError::UnknownMethod(_)) => panic!("another error"),
        Ok(_) => panic!("no error"),
    }
}

fn click(inner: &Inner, id: i32) -> Result<Option<MenuId>, BusError> {
    DbusMenu::new(inner).event(id, "clicked".to_string(), data(), 0)
}

/// Number and label of a layout and all its descendants.
fn listing(layout: Layout, out: &mut Vec<(i32, String)>) {
    let label = match layout.properties.get("label") {
        Some(v) => {
            let mut value: Value = (**v).try_clone().unwrap();
            while let Value::Value(inner) = value {
                value = *inner;
            }
            String::try_from(value).unwrap()
        }
        None => String::new(),
    };
    out.push((layout.id, label));
    for child in layout.children {
        listing(Layout::try_from(child).unwrap(), out);
    }
}

#[test]
fn the_item_shows_the_state() {
    let inner = state();
    let item = StatusNotifierItem::new(&inner);
    assert_eq!(item.id().unwrap(), "tray-icon-x");
    assert_eq!(item.title().unwrap(), "title");
    assert_eq!(item.status().unwrap(), "Passive");
    let icons = item.icon_pixmap().unwrap();
    assert_eq!(icons.len(), 1);
    assert_eq!(icons[0].data, vec![4, 3, 2, 1]);
    let tip = item.tool_tip().unwrap();
    assert_eq!((tip.icon_name.as_str(), tip.title.as_str()), ("", "tip"));
    assert_eq!(tip.description, "");
    assert!(tip.icon_pixmap.is_empty());
}

#[test]
fn what_is_missing_is_empty() {
    let inner = no_menu();
    let item = StatusNotifierItem::new(&inner);
    assert_eq!(item.title().unwrap(), "");
    assert_eq!(item.tool_tip().unwrap().title, "");
    assert!(item.icon_pixmap().unwrap().is_empty());
}

#[test]
fn the_item_answers_the_rest_as_always() {
    let inner = state();
    let item = StatusNotifierItem::new(&inner);
    match item.context_menu(1, 2) {
        Err(BusError::UnknownMethod(text)) => {
            assert_eq!(text, "Not supported, please use `menu`")
        }
        _ => panic!("offered"),
    }
    assert!(item.activate(1, 2).is_ok());
    assert!(item.secondary_activate(1, 2).is_ok());
    assert!(item.scroll(3, "vertical".to_string()).is_ok());
    assert_eq!(item.category().unwrap(), "ApplicationStatus");
    assert_eq!(item.window_id().unwrap(), 0);
    assert_eq!(item.icon_theme_path().unwrap(), "");
    assert_eq!(item.menu().unwrap().as_str(), "/MenuBar");
    assert!(!item.item_is_menu().unwrap());
    assert_eq!(item.icon_name().unwrap(), "");
    assert_eq!(item.overlay_icon_name().unwrap(), "");
    assert!(item.overlay_icon_pixmap().unwrap().is_empty());
    assert_eq!(item.attention_icon_name().unwrap(), "");
    assert!(item.attention_icon_pixmap().unwrap().is_empty());
    assert_eq!(item.attention_movie_name().unwrap(), "");
}

#[test]
fn paths_on_the_bus() {
    assert_eq!(sni_path().as_str(), "/StatusNotifierItem");
    assert_eq!(menu_path().as_str(), "/MenuBar");
    assert_eq!((SNI_PATH, MENU_PATH), ("/StatusNotifierItem", "/MenuBar"));
}

#[test]
fn a_tooltip_is_a_structure_on_the_bus() {
    let tip = ToolTipData {
        icon_name: "n".to_string(),
        icon_pixmap: vec![IconPixmap { width: 3, height: 4, data: vec![7] }],
        title: "t".to_string(),
        description: "d".to_string(),
    };
    let structure = tip.into_structure();
    assert_eq!(structure.signature().to_string(), "(sa(iiay)ss)");
    let fields = structure.into_fields();
    assert_eq!(fields[0], Value::from("n"));
    assert_eq!(fields[1], Value::from(vec![(3i32, 4i32, vec![7u8])]));
    assert_eq!(fields[2], Value::from("t"));
    assert_eq!(fields[3], Value::from("d"));
    let none = ToolTipData::default().into_structure().into_fields();
    assert_eq!(none[0], Value::from(""));
    assert_eq!(none[2], Value::from(""));
}

#[test]
fn the_layout_comes_with_its_revision() {
    let inner = state();
    let menu = DbusMenu::new(&inner);
    let (revision, layout) = menu.get_layout(0, -1, Vec::new()).unwrap();
    assert_eq!(revision, 12);
    assert_eq!((layout.id, layout.children.len()), (0, 3));
    let (_, layout) = menu.get_layout(0, 0, Vec::new()).unwrap();
    assert!(layout.children.is_empty());
    let (_, layout) = menu.get_layout(0, i32::MAX, vec!["label".to_string()]).unwrap();
    assert_eq!(layout.properties.len(), 0);
    assert_eq!(invalid_args(menu.get_layout(1, -1, Vec::new())), "parentId not found");
    let empty = no_menu();
    let refused = DbusMenu::new(&empty).get_layout(5, -1, Vec::new());
    assert_eq!(invalid_args(refused), "parentId not found");
}

#[test]
fn what_the_layout_shows_can_be_chosen() {
    let inner = state();
    let (_, layout) = DbusMenu::new(&inner).get_layout(0, -1, Vec::new()).unwrap();
    let mut shown = Vec::new();
    listing(layout, &mut shown);
    let numbers: Vec<i32> = shown.iter().map(|s| s.0).collect();
    assert_eq!(numbers, vec![0, 1, 2, 3, 4]);
    for (number, label) in shown {
        match click(&inner, number) {
            Ok(Some(name)) => assert_eq!(label, format!("label of {}", name.0)),
            Ok(None) => assert_eq!(number, 0),
            Err(_) => assert_eq!(number, 3),
        }
    }
}

#[test]
fn clicks_choose_items() {
    let inner = state();
    assert_eq!(click(&inner, 1).unwrap().unwrap().0, "a");
    assert_eq!(click(&inner, 2).unwrap().unwrap().0, "b");
    assert_eq!(click(&inner, 4).unwrap().unwrap().0, "c");
    assert!(click(&inner, 0).unwrap().is_none());
}

#[test]
fn other_numbers_are_not_found() {
    let inner = state();
    for id in [3, 5, -1, i32::MIN, i32::MAX] {
        assert_eq!(invalid_args(click(&inner, id)), "id not found");
    }
    assert_eq!(invalid_args(click(&no_menu(), 1)), "id not found");
    assert!(click(&no_menu(), 0).unwrap().is_none());
}

#[test]
fn other_events_are_ignored() {
    let inner = state();
    let menu = DbusMenu::new(&inner);
    for id in [0, 1, 99] {
        assert!(menu.event(id, "hovered".to_string(), data(), 0).unwrap().is_none());
        assert!(menu.event(id, String::new(), data(), 0).unwrap().is_none());
    }
}

#[test]
fn a_group_of_events_is_taken_in_order() {
    let inner = state();
    let events = vec![
        event(4, "clicked"),
        event(9, "clicked"),
        event(9, "opened"),
        event(1, "clicked"),
        event(0, "clicked"),
        event(3, "clicked"),
        event(4, "clicked"),
    ];
    let (missing, chosen) = DbusMenu::new(&inner).event_group(events);
    assert_eq!(missing, vec![9, 3]);
    let names: Vec<&str> = chosen.iter().map(|c| c.0.as_str()).collect();
    assert_eq!(names, vec!["c", "a", "c"]);
    let (missing, chosen) = DbusMenu::new(&inner).event_group(Vec::new());
    assert!(missing.is_empty() && chosen.is_empty());
}

#[test]
fn items_can_be_shown() {
    let inner = state();
    let menu = DbusMenu::new(&inner);
    for id in 0..5 {
        assert!(!menu.about_to_show(id).unwrap());
    }
    for id in [5, -1, i32::MAX] {
        assert_eq!(invalid_args(menu.about_to_show(id)), "id not found");
    }
    let empty = no_menu();
    for id in [0, 1] {
        assert_eq!(invalid_args(DbusMenu::new(&empty).about_to_show(id)), "id not found");
    }
}

#[test]
fn the_menu_answers_the_rest_as_always() {
    let inner = state();
    let menu = DbusMenu::new(&inner);
    assert!(menu.get_group_properties(vec![1], Vec::new()).unwrap().is_empty());
    assert_eq!(invalid_args(menu.get_property(1, "label".to_string())), "not implemented");
    let (updates, missing) = menu.about_to_show_group(vec![1, 2]).unwrap();
    assert!(updates.is_empty() && missing.is_empty());
    assert_eq!(menu.version().unwrap(), 3);
    assert_eq!(menu.text_direction().unwrap(), "ltr");
    assert_eq!(menu.status().unwrap(), "normal");
    assert!(menu.icon_theme_path().unwrap().is_empty());
}

#[test]
fn a_copy_of_a_tooltip_is_the_same() {
    let tip = ToolTipData {
        icon_name: "n".to_string(),
        icon_pixmap: vec![IconPixmap { width: 3, height: 4, data: vec![7] }],
        title: "t".to_string(),
        description: "d".to_string(),
    };
    assert_eq!(format!("{:?}", tip.clone()), format!("{tip:?}"));
    assert_eq!(tip.clone().into_structure(), tip.into_structure());
}
