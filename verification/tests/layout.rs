use std::collections::HashMap;
use tray_icon::flat::FlatItem;
use tray_icon::inner::Inner;
use tray_icon::item_properties::same_text;
use tray_icon::layout::Layout;
use tray_icon::layout_read::{read_entry, ItemPropsHelper};
use tray_icon::menu::{MenuId, MenuItemNode, MenuSnapshot};
use tray_icon::order::{are_entries_sortable, is_sortable};
use tray_icon::properties::Properties;
use tray_icon::value::ValueError;
use zbus::zvariant::{
    Array, Dict, Fd, ObjectPath, OwnedValue, Signature, StructureBuilder, Value,
};

fn node(name: &str, children: Vec<MenuItemNode>) -> MenuItemNode {
    MenuItemNode {
        id: MenuId::new(name),
        label: name.to_string(),
        enabled: true,
        checked: None,
        is_separator: false,
        is_submenu: !children.is_empty(),
        children,
    }
}

/// a > (b > (c), d), e
fn state() -> Inner {
    let items = vec![
        node("a", vec![node("b", vec![node("c", vec![])]), node("d", vec![])]),
        node("e", vec![]),
    ];
    Inner {
        id: "tray-icon-a".to_string(),
        icon_pixmap: Vec::new(),
        tooltip: None,
        title: None,
        status: "Active".to_string(),
        menu: Some(MenuSnapshot { items }),
        revision: 1,
        item_id_offset: 0,
    }
}

/// Number, label and children of a layout, as text.
fn outline(layout: Layout) -> String {
    let label = match layout.properties.get("label") {
        Some(v) => text_of(v),
        None => String::new(),
    };
    let children: Vec<String> = layout
        .children
        .into_iter()
        .map(|c| outline(Layout::try_from(c).unwrap()))
        .collect();
    format!("{}{}[{}]", layout.id, label, children.concat())
}

/// The text in a value, under any variants around it.
fn text_of(value: &OwnedValue) -> String {
    let mut inner: Value = (**value).try_clone().unwrap();
    while let Value::Value(v) = inner {
        inner = *v;
    }
    match inner {
        Value::Str(s) => s.to_string(),
        other => panic!("not a text: {other:?}"),
    }
}

fn value_of(properties: &Properties, name: &str) -> Value<'static> {
    properties.get(name).unwrap().try_clone().unwrap().into()
}

fn names(texts: &[&str]) -> Vec<String> {
    texts.iter().map(|t| t.to_string()).collect()
}

fn busy_item() -> FlatItem {
    FlatItem {
        id: 0,
        label: "L".to_string(),
        enabled: false,
        item_type: "separator",
        toggle_state: Some(1),
        children: vec![4],
    }
}

#[test]
fn all_properties_are_told() {
    let map = busy_item().to_dbus_map(&[]);
    assert_eq!(map.len(), 6);
    assert_eq!(value_of(&map, "type"), Value::from("separator"));
    assert_eq!(value_of(&map, "children-display"), Value::from("submenu"));
    assert_eq!(value_of(&map, "label"), Value::from("L"));
    assert_eq!(value_of(&map, "enabled"), Value::from(false));
    assert_eq!(value_of(&map, "toggle-type"), Value::from("checkmark"));
    assert_eq!(value_of(&map, "toggle-state"), Value::from(1i32));
}

#[test]
fn defaults_are_not_told() {
    let map = FlatItem::root(0).to_dbus_map(&[]);
    assert_eq!(map.len(), 0);
    assert!(map.get("label").is_none());
    let map = FlatItem::standard("x", true).to_dbus_map(&[]);
    assert_eq!(map.len(), 1);
}

#[test]
fn a_filter_selects_properties() {
    let map = busy_item().to_dbus_map(&names(&["enabled", "label", "visible"]));
    assert_eq!(map.len(), 2);
    assert_eq!(value_of(&map, "label"), Value::from("L"));
    assert_eq!(value_of(&map, "enabled"), Value::from(false));
    let map = busy_item().to_dbus_map(&names(&["toggle-state"]));
    assert_eq!(map.len(), 1);
    assert_eq!(value_of(&map, "toggle-state"), Value::from(1i32));
    assert_eq!(busy_item().to_dbus_map(&names(&["Label"])).len(), 0);
}

#[test]
fn texts_are_compared_exactly() {
    assert!(same_text("clicked", "clicked"));
    assert!(!same_text("clicked", "Clicked"));
    assert!(!same_text("", " "));
}

#[test]
fn a_later_value_takes_the_place_of_an_earlier_one() {
    let mut map = Properties::new();
    assert_eq!(map.len(), 0);
    map.insert("a".to_string(), OwnedValue::from(1i32));
    map.insert("b".to_string(), OwnedValue::from(2i32));
    map.insert("a".to_string(), OwnedValue::from(3i32));
    assert_eq!(map.len(), 2);
    assert_eq!(value_of(&map, "a"), Value::from(3i32));
    assert!(map.get("c").is_none());
    let mut entries: Vec<(String, i32)> = map
        .into_entries()
        .into_iter()
        .map(|(k, v)| (k, i32::try_from(v).unwrap()))
        .collect();
    entries.sort();
    assert_eq!(entries, vec![("a".to_string(), 3), ("b".to_string(), 2)]);
}

#[test]
fn the_whole_menu_is_laid_out() {
    let layout = state().build_layout(0, None, &[]).unwrap();
    assert_eq!(outline(layout), "0[1a[2b[3c[]]4d[]]5e[]]");
}

#[test]
fn a_depth_limit_leaves_items_out() {
    let outlines: Vec<String> = (0..4)
        .map(|limit| outline(state().build_layout(0, Some(limit), &[]).unwrap()))
        .collect();
    assert_eq!(
        outlines,
        vec!["0[]", "0[1a[]5e[]]", "0[1a[2b[]4d[]]5e[]]", "0[1a[2b[3c[]]4d[]]5e[]]"]
    );
}

#[test]
fn a_depth_limit_keeps_the_properties() {
    let layout = state().build_layout(0, Some(0), &[]).unwrap();
    assert!(layout.children.is_empty());
    assert_eq!(value_of(&layout.properties, "children-display"), Value::from("submenu"));
}

#[test]
fn a_filter_reaches_all_items() {
    let layout = state().build_layout(0, None, &names(&["children-display"])).unwrap();
    assert_eq!(outline(layout), "0[1[2[3[]]4[]]5[]]");
}

#[test]
fn only_the_menu_itself_is_laid_out() {
    assert!(state().build_layout(1, None, &[]).is_none());
    assert!(state().build_layout(-1, None, &[]).is_none());
    let mut inner = state();
    inner.menu = None;
    assert!(inner.build_layout(3, None, &[]).is_none());
}

fn small_layout() -> Layout {
    let mut properties = Properties::new();
    properties.insert("label".to_string(), OwnedValue::try_from(Value::from("x")).unwrap());
    properties.insert("toggle-state".to_string(), OwnedValue::from(1i32));
    Layout { id: 7, properties, children: vec![Value::from(5i32), Value::from("y")] }
}

#[test]
fn a_layout_is_a_structure_on_the_bus() {
    let value = small_layout().into_value();
    assert_eq!(value.value_signature().to_string(), "(ia{sv}av)");
    let fields = match value {
        Value::Structure(s) => s.into_fields(),
        _ => panic!("not a structure"),
    };
    assert_eq!(fields.len(), 3);
    assert_eq!(fields[0], Value::I32(7));
    let entries: HashMap<String, Value> = match fields[1].try_clone().unwrap() {
        Value::Dict(d) => d.into_iter().map(|(k, v)| (String::try_from(k).unwrap(), v)).collect(),
        _ => panic!("not a dictionary"),
    };
    assert_eq!(entries.len(), 2);
    assert_eq!(entries["label"], Value::Value(Box::new(Value::from("x"))));
    assert_eq!(entries["toggle-state"], Value::Value(Box::new(Value::from(1i32))));
    let children: Vec<Value> = match &fields[2] {
        Value::Array(a) => a.iter().map(|v| v.try_clone().unwrap()).collect(),
        _ => panic!("not an array"),
    };
    assert_eq!(
        children,
        vec![
            Value::Value(Box::new(Value::from(5i32))),
            Value::Value(Box::new(Value::from("y"))),
        ]
    );
}

#[test]
fn a_layout_can_be_read_back() {
    let layout = Layout::try_from(small_layout().into_value()).unwrap();
    assert_eq!(layout.id, 7);
    assert_eq!(layout.children, vec![Value::from(5i32), Value::from("y")]);
    assert_eq!(layout.properties.len(), 2);
    assert_eq!(
        value_of(&layout.properties, "label"),
        Value::Value(Box::new(Value::from("x")))
    );
    assert_eq!(
        value_of(&layout.properties, "toggle-state"),
        Value::Value(Box::new(Value::from(1i32)))
    );
}

#[test]
fn a_layout_owned_is_the_same_value() {
    let owned = small_layout().into_owned_value();
    assert_eq!(*owned, small_layout().into_value());
    let owned = small_layout().try_into_owned_value().unwrap();
    assert_eq!(*owned, small_layout().into_value());
    let menu = state().build_layout(0, None, &[]).unwrap();
    assert!(menu.try_into_owned_value().is_ok());
}

fn empty_dict() -> Value<'static> {
    Value::Dict(Dict::new(&Signature::Str, &Signature::Variant))
}

fn variants(values: Vec<Value<'static>>) -> Value<'static> {
    Value::from(values)
}

fn structure(fields: Vec<Value<'static>>) -> Value<'static> {
    let mut builder = StructureBuilder::new();
    for field in fields {
        builder = builder.append_field(field);
    }
    Value::Structure(builder.build().unwrap())
}

#[test]
fn what_is_no_layout_is_refused() {
    let refused = vec![
        Value::from(1i32),
        Value::from("x"),
        structure(vec![Value::from("x"), empty_dict(), variants(vec![])]),
        structure(vec![Value::from(1u32)]),
        structure(vec![Value::from(1i32), Value::from(2i32)]),
        structure(vec![Value::from(1i32), empty_dict(), Value::from(true)]),
    ];
    for value in refused {
        assert_eq!(Layout::try_from(value).err(), Some(ValueError::IncorrectType));
    }
}

#[test]
fn a_structure_that_ends_early_is_told_apart() {
    assert!(Layout::checked_try_from(structure(vec![Value::from(1i32)])).is_none());
    assert!(Layout::checked_try_from(structure(vec![Value::from(1i32), empty_dict()])).is_none());
    let wrong = Layout::checked_try_from(structure(vec![Value::from(true)]));
    assert_eq!(wrong.unwrap().err(), Some(ValueError::IncorrectType));
    let whole = structure(vec![Value::from(1i32), empty_dict(), variants(vec![]), Value::from(9i32)]);
    assert_eq!(Layout::checked_try_from(whole).unwrap().unwrap().id, 1);
}

#[test]
fn one_variant_layer_is_taken_off() {
    let layer = |v: Value<'static>| Value::Value(Box::new(v));
    let value = structure(vec![
        layer(Value::from(3i32)),
        layer(empty_dict()),
        layer(variants(vec![layer(Value::from(4i32)), Value::from(5i32)])),
    ]);
    let layout = Layout::try_from(value).unwrap();
    assert_eq!(layout.id, 3);
    assert_eq!(layout.properties.len(), 0);
    assert_eq!(layout.children, vec![layer(Value::from(4i32)), Value::from(5i32)]);
    let twice = structure(vec![layer(layer(Value::from(3i32))), empty_dict(), variants(vec![])]);
    assert_eq!(Layout::try_from(twice).err(), Some(ValueError::IncorrectType));
}

#[test]
fn elements_of_any_type_are_children() {
    let numbers = Value::Array(Array::from(vec![1i32, 2i32]));
    let layout = Layout::try_from(structure(vec![Value::from(0i32), empty_dict(), numbers])).unwrap();
    assert_eq!(layout.children, vec![Value::from(1i32), Value::from(2i32)]);
}

#[test]
fn properties_are_read_from_a_dictionary() {
    let mut dict = Dict::new(&Signature::Str, &Signature::I32);
    dict.append(Value::from("b"), Value::from(2i32)).unwrap();
    dict.append(Value::from("a"), Value::from(1i32)).unwrap();
    let props = ItemPropsHelper::try_from(Value::Dict(dict)).unwrap().0;
    assert_eq!(props.len(), 2);
    assert_eq!(value_of(&props, "a"), Value::from(1i32));
    assert_eq!(value_of(&props, "b"), Value::from(2i32));
    let refused = ItemPropsHelper::try_from(Value::from(1i32));
    assert_eq!(refused.err(), Some(ValueError::IncorrectType));
}

#[test]
fn keys_that_are_no_texts_share_the_empty_name() {
    let mut dict = Dict::new(&Signature::I32, &Signature::Str);
    dict.append(Value::from(2i32), Value::from("two")).unwrap();
    dict.append(Value::from(1i32), Value::from("one")).unwrap();
    let props = ItemPropsHelper::try_from(Value::Dict(dict)).unwrap().0;
    assert_eq!(props.len(), 1);
    assert_eq!(value_of(&props, ""), Value::from("two"));
}

#[test]
fn an_entry_that_cannot_be_read_has_no_name_and_is_false() {
    let (name, value) = read_entry(None, None);
    assert_eq!(name, "");
    assert_eq!(Value::from(value), Value::from(false));
    let (name, value) = read_entry(Some("n".to_string()), Some(OwnedValue::from(6i32)));
    assert_eq!(name, "n");
    assert_eq!(Value::from(value), Value::from(6i32));
}

#[test]
fn values_of_every_basic_type_are_kept() {
    let path = ObjectPath::from_static_str_unchecked("/a/b");
    let values = vec![
        Value::from(200u8),
        Value::from(true),
        Value::from(-3i16),
        Value::from(4u16),
        Value::from(-5i32),
        Value::from(6u32),
        Value::from(-7i64),
        Value::from(8u64),
        Value::from(0.5f64),
        Value::from("text"),
        Value::Signature(Signature::try_from("a{sv}").unwrap()),
        Value::ObjectPath(path),
    ];
    for value in values {
        let mut dict = Dict::new(&Signature::Str, value.value_signature());
        dict.append(Value::from("k"), value.try_clone().unwrap()).unwrap();
        let props = ItemPropsHelper::try_from(Value::Dict(dict)).unwrap().0;
        assert_eq!(props.len(), 1);
        assert_eq!(value_of(&props, "k"), value);
    }
}

#[test]
fn inner_dictionaries_with_simple_keys_are_kept() {
    let mut inner = Dict::new(&Signature::I32, &Signature::Str);
    inner.append(Value::from(2i32), Value::from("two")).unwrap();
    inner.append(Value::from(-1i32), Value::from("minus one")).unwrap();
    let inner = Value::Dict(inner);
    let mut dict = Dict::new(&Signature::Str, inner.value_signature());
    dict.append(Value::from("k"), inner.try_clone().unwrap()).unwrap();
    let props = ItemPropsHelper::try_from(Value::Dict(dict)).unwrap().0;
    assert_eq!(value_of(&props, "k"), inner);

    let mut layout = small_layout();
    layout.children.push(inner.try_clone().unwrap());
    assert_eq!(layout.into_owned_value().try_clone().unwrap(), {
        let mut same = small_layout();
        same.children.push(inner);
        same.try_into_owned_value().unwrap()
    });
}

/// A value with a file descriptor of its own in it.
fn descriptor() -> Value<'static> {
    let out = std::io::stdout();
    Value::Fd(Fd::from(&out)).try_into_owned().unwrap().into()
}

#[test]
fn a_layout_with_a_descriptor_has_its_names_again() {
    let mut layout = small_layout();
    layout.properties.insert("fd".to_string(), OwnedValue::try_from(descriptor()).unwrap());
    let read = Layout::try_from(layout.into_value()).unwrap();
    assert_eq!((read.id, read.properties.len(), read.children.len()), (7, 3, 2));
    assert_eq!(value_of(&read.properties, "label"), Value::Value(Box::new(Value::from("x"))));
    match value_of(&read.properties, "fd") {
        Value::Value(inner) => assert!(matches!(*inner, Value::Fd(_))),
        other => panic!("not kept: {other:?}"),
    }
}

#[test]
fn a_layout_with_a_descriptor_can_be_owned() {
    let mut layout = small_layout();
    layout.children.push(descriptor());
    let owned = layout.try_into_owned_value().unwrap();
    let read = Layout::try_from(owned.into()).unwrap();
    assert_eq!(read.children.len(), 3);
    assert!(matches!(read.children[2], Value::Fd(_)));
}

#[test]
fn an_empty_layout_has_nothing() {
    let layout = Layout::default();
    assert_eq!((layout.id, layout.properties.len(), layout.children.len()), (0, 0, 0));
}

fn signature_key(text: &str) -> Value<'static> {
    Value::Signature(Signature::try_from(text).unwrap())
}

fn dict_of(entries: Vec<(Value<'static>, Value<'static>)>) -> Value<'static> {
    let mut dict = Dict::new(entries[0].0.value_signature(), entries[0].1.value_signature());
    for (key, value) in entries {
        dict.append(key, value).unwrap();
    }
    Value::Dict(dict)
}

/// A dictionary with two signatures as keys.
fn unsortable() -> Value<'static> {
    dict_of(vec![
        (signature_key("(yy)"), Value::from(2i32)),
        (signature_key("(y)"), Value::from(1i32)),
    ])
}

#[test]
fn keys_without_a_total_order_are_found() {
    assert!(!is_sortable(&unsortable()));
    assert!(!is_sortable(&variants(vec![Value::from(1i32), unsortable()])));
    assert!(!is_sortable(&structure(vec![Value::from(1i32), unsortable()])));
    assert!(!is_sortable(&dict_of(vec![(Value::from("k"), unsortable())])));
    let arrays = vec![
        (Value::from(vec![1i32]), Value::from(1i32)),
        (Value::from(vec![2i32]), Value::from(2i32)),
    ];
    assert!(!is_sortable(&dict_of(arrays)));
}

#[test]
fn keys_with_a_total_order_are_found() {
    assert!(is_sortable(&Value::from(1i32)));
    assert!(is_sortable(&signature_key("as")));
    assert!(is_sortable(&descriptor()));
    assert!(is_sortable(&small_layout().into_value()));
    assert!(is_sortable(&dict_of(vec![(signature_key("as"), Value::from(1i32))])));
    assert!(is_sortable(&dict_of(vec![(Value::from(vec![1i32]), Value::from(1i32))])));
    assert!(!is_sortable(&dict_of(vec![(unsortable(), Value::from(1i32))])));
    let descriptors =
        vec![(descriptor(), Value::from(1i32)), (descriptor(), Value::from(2i32))];
    assert!(is_sortable(&dict_of(descriptors)));
}

#[test]
fn properties_that_cannot_be_sorted_are_told_apart() {
    let props = dict_of(vec![(Value::from("k"), unsortable())]);
    assert!(!are_entries_sortable(&props));
    assert!(ItemPropsHelper::checked_try_from(props.try_clone().unwrap()).is_none());
    let value = structure(vec![Value::from(1i32), props, variants(vec![])]);
    assert!(Layout::checked_try_from(value).is_none());
    let wrong = ItemPropsHelper::checked_try_from(Value::from(1i32));
    assert_eq!(wrong.unwrap().err(), Some(ValueError::IncorrectType));
    let right = ItemPropsHelper::checked_try_from(empty_dict());
    assert_eq!(right.unwrap().unwrap().0.len(), 0);
    assert!(are_entries_sortable(&unsortable()));
    assert_eq!(ItemPropsHelper::try_from(unsortable()).unwrap().0.len(), 1);
}

#[test]
fn a_layout_that_cannot_be_sorted_is_not_owned() {
    let mut layout = small_layout();
    layout.children.push(unsortable());
    assert_eq!(layout.try_into_owned_value().err(), Some(ValueError::Unsortable));
}

#[test]
fn a_single_key_of_any_type_is_kept() {
    for key in [signature_key("as"), Value::from(vec![1i32]), Value::from((1i32, "x"))] {
        let inner = dict_of(vec![(key, Value::from(1i32))]);
        let props = dict_of(vec![(Value::from("k"), inner.try_clone().unwrap())]);
        let read = ItemPropsHelper::try_from(props).unwrap().0;
        assert_eq!(value_of(&read, "k"), inner);
    }
}

#[test]
fn the_value_of_the_last_key_stays() {
    let path = |p: &'static str| Value::ObjectPath(ObjectPath::from_static_str_unchecked(p));
    let ascending = vec![
        vec![Value::from(false), Value::from(true)],
        vec![Value::from(-7i64), Value::from(-1i64), Value::from(0i64), Value::from(9i64)],
        vec![Value::from(3u8), Value::from(200u8)],
        vec![
            Value::from(f64::NEG_INFINITY),
            Value::from(-2.5f64),
            Value::from(-0.5f64),
            Value::from(-0.0f64),
            Value::from(1e-9f64),
            Value::from(7.0f64),
            Value::from(f64::INFINITY),
            Value::from(f64::NAN),
        ],
        vec![path("/a"), path("/a/b"), path("/b")],
    ];
    for keys in ascending {
        for n in 1..=keys.len() {
            let mut entries: Vec<(Value, Value)> = keys[..n]
                .iter()
                .enumerate()
                .map(|(i, k)| (k.try_clone().unwrap(), Value::from(i as u32)))
                .collect();
            entries.reverse();
            let read = ItemPropsHelper::try_from(dict_of(entries)).unwrap().0;
            assert_eq!(read.len(), 1);
            assert_eq!(value_of(&read, ""), Value::from(n as u32 - 1));
        }
    }
}

#[test]
fn an_owned_layout_has_the_type_of_a_layout() {
    let owned = Layout::default().into_owned_value();
    assert_eq!(owned.value_signature().to_string(), "(ia{sv}av)");
}
