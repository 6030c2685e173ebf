use tray_icon::flat::FlatItem;
use tray_icon::inner::Inner;
use tray_icon::menu::{
    build_menu_tree, flatten_ids, flatten_ids_recurse, ContextMenu, MenuId, MenuItemKind,
    MenuItemNode, MenuSnapshot,
};

fn id(text: &str) -> MenuId {
    MenuId::new(text)
}

fn item(name: &str) -> MenuItemKind {
    MenuItemKind::MenuItem { id: id(name), text: format!("{name}!"), enabled: true }
}

/// open, recent > (one, more > (two), three), -, wrap, quit
fn menu() -> Vec<MenuItemKind> {
    vec![
        item("open"),
        MenuItemKind::Submenu {
            id: id("recent"),
            text: "Recent".to_string(),
            enabled: true,
            items: vec![
                item("one"),
                MenuItemKind::Submenu {
                    id: id("more"),
                    text: "More".to_string(),
                    enabled: false,
                    items: vec![item("two")],
                },
                item("three"),
            ],
        },
        MenuItemKind::Predefined { id: id("sep"), text: String::new() },
        MenuItemKind::Check {
            id: id("wrap"),
            text: "Wrap".to_string(),
            enabled: true,
            checked: true,
        },
        item("quit"),
    ]
}

fn state(items: Vec<MenuItemNode>) -> Inner {
    Inner {
        id: "tray-icon-a".to_string(),
        icon_pixmap: Vec::new(),
        tooltip: None,
        title: None,
        status: "Active".to_string(),
        menu: Some(MenuSnapshot { items }),
        revision: 1,
        item_id_offset: 0,
    }
}

#[test]
fn every_kind_of_item_is_read() {
    let kinds = vec![
        MenuItemKind::MenuItem { id: id("a"), text: "A".to_string(), enabled: false },
        MenuItemKind::Check {
            id: id("b"),
            text: "B".to_string(),
            enabled: true,
            checked: false,
        },
        MenuItemKind::Icon { id: id("c"), text: "C".to_string(), enabled: true },
        MenuItemKind::Predefined { id: id("d"), text: "Copy".to_string() },
        MenuItemKind::Predefined { id: id("e"), text: String::new() },
        MenuItemKind::Submenu {
            id: id("f"),
            text: "F".to_string(),
            enabled: false,
            items: vec![item("g")],
        },
    ];
    let nodes = build_menu_tree(&kinds);
    let read: Vec<(&str, &str, bool, Option<bool>, bool, bool, usize)> = nodes
        .iter()
        .map(|n| {
            (
                n.id.0.as_str(),
                n.label.as_str(),
                n.enabled,
                n.checked,
                n.is_separator,
                n.is_submenu,
                n.children.len(),
            )
        })
        .collect();
    assert_eq!(
        read,
        vec![
            ("a", "A", false, None, false, false, 0),
            ("b", "B", true, Some(false), false, false, 0),
            ("c", "C", true, None, false, false, 0),
            ("d", "Copy", true, None, false, false, 0),
            ("e", "", true, None, true, false, 0),
            ("f", "F", false, None, false, true, 1),
        ]
    );
    assert_eq!(nodes[5].children[0].id.0, "g");
    assert_eq!(nodes[5].children[0].label, "g!");
}

#[test]
fn only_a_menu_is_a_menu() {
    let menu = ContextMenu::Menu(vec![item("a"), item("b")]);
    assert_eq!(menu.as_menu().unwrap().len(), 2);
    let submenu = ContextMenu::Submenu(vec![item("a")]);
    assert!(submenu.as_menu().is_none());
}

#[test]
fn names_are_listed_by_number() {
    let nodes = build_menu_tree(&menu());
    assert_eq!(
        flatten_ids(&nodes),
        vec!["", "open", "recent", "one", "more", "two", "three", "sep", "wrap", "quit"]
    );
    assert_eq!(flatten_ids(&[]), vec![""]);
    let mut names = vec!["x".to_string()];
    flatten_ids_recurse(&nodes[1].children, &mut names);
    assert_eq!(names, vec!["x", "one", "more", "two", "three"]);
}

#[test]
fn entries_are_listed_by_number() {
    let flat = state(build_menu_tree(&menu())).flatten_items();
    let children: Vec<Vec<usize>> = flat.iter().map(|f| f.children.clone()).collect();
    assert_eq!(
        children,
        vec![
            vec![1, 2, 7, 8, 9],
            vec![],
            vec![3, 4, 6],
            vec![],
            vec![5],
            vec![],
            vec![],
            vec![],
            vec![],
            vec![],
        ]
    );
    let labels: Vec<&str> = flat.iter().map(|f| f.label.as_str()).collect();
    assert_eq!(
        labels,
        vec!["", "open!", "Recent", "one!", "More", "two!", "three!", "", "Wrap", "quit!"]
    );
    assert_eq!(flat[7].item_type, "separator");
    assert!(flat.iter().enumerate().all(|(i, f)| i == 7 || f.item_type == "standard"));
    assert_eq!(flat[8].toggle_state, Some(1));
    assert!(!flat[4].enabled);
    assert!(flat.iter().all(|f| f.id == 0));
}

#[test]
fn entries_and_names_have_the_same_numbers() {
    let nodes = build_menu_tree(&menu());
    let names = flatten_ids(&nodes);
    let flat = state(nodes).flatten_items();
    assert_eq!(flat.len(), names.len());
    for (number, entry) in flat.iter().enumerate() {
        for child in &entry.children {
            assert!(number < *child && *child < flat.len());
        }
    }
    assert_eq!(flat[5].label, format!("{}!", names[5]));
    assert_eq!(flat[9].label, format!("{}!", names[9]));
}

#[test]
fn without_a_menu_nothing_is_listed() {
    let mut inner = state(Vec::new());
    assert_eq!(inner.flatten_items().len(), 1);
    inner.menu = None;
    assert_eq!(inner.flatten_items().len(), 0);
}

#[test]
fn a_separator_shows_nothing_of_its_node() {
    let node = MenuItemNode {
        id: id("s"),
        label: "hidden".to_string(),
        enabled: false,
        checked: Some(true),
        is_separator: true,
        is_submenu: false,
        children: vec![MenuItemNode {
            id: id("t"),
            label: "T".to_string(),
            enabled: true,
            checked: Some(false),
            is_separator: false,
            is_submenu: true,
            children: Vec::new(),
        }],
    };
    let copy = node.clone();
    assert_eq!(copy.children[0].label, "T");
    let flat = state(vec![copy]).flatten_items();
    assert_eq!(flat[1].label, "");
    assert!(flat[1].enabled);
    assert_eq!(flat[1].toggle_state, None);
    assert_eq!(flat[1].children, vec![2]);
    assert_eq!(flat[2].toggle_state, Some(0));
}

#[test]
fn entries_of_each_kind() {
    let root = FlatItem::root(3);
    assert_eq!((root.label.as_str(), root.enabled, root.item_type), ("", true, "standard"));
    let standard = FlatItem::standard("x", false);
    assert_eq!((standard.label.as_str(), standard.enabled), ("x", false));
    let separator = FlatItem::separator(4);
    assert_eq!((separator.id, separator.item_type), (0, "separator"));
    assert_eq!(FlatItem::check("c", true, true).toggle_state, Some(1));
    assert_eq!(FlatItem::check("c", true, false).toggle_state, Some(0));
    let submenu = FlatItem::submenu("s", true, 5);
    assert_eq!((submenu.label.as_str(), submenu.toggle_state), ("s", None));
    assert!(submenu.children.is_empty());
}

#[test]
fn a_copy_of_an_entry_is_the_same() {
    let flat = state(build_menu_tree(&menu())).flatten_items();
    let copy = flat[2].clone();
    assert_eq!((copy.id, copy.label.as_str(), copy.enabled), (0, "Recent", true));
    assert_eq!((copy.item_type, copy.toggle_state), ("standard", None));
    assert_eq!(copy.children, vec![3, 4, 6]);
    assert_eq!(flat[8].clone().toggle_state, Some(1));
}
