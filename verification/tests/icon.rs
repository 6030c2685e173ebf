use tray_icon::icon::{rgba_to_argb32, Icon, IconData, IconPixmap, PlatformIcon};
use zbus::zvariant::Value;

#[test]
fn pixels_turn_from_rgba_to_argb() {
    assert_eq!(rgba_to_argb32(&[1, 2, 3, 4, 5, 6, 7, 8]), vec![4, 1, 2, 3, 8, 5, 6, 7]);
}

#[test]
fn bytes_behind_the_last_pixel_stay() {
    assert_eq!(rgba_to_argb32(&[1, 2, 3, 4, 5, 6, 7]), vec![4, 1, 2, 3, 5, 6, 7]);
    assert_eq!(rgba_to_argb32(&[1, 2, 3]), vec![1, 2, 3]);
    assert_eq!(rgba_to_argb32(&[]), Vec::<u8>::new());
}

#[test]
fn four_turns_give_the_pixels_back() {
    let pixels: Vec<u8> = (0..23).collect();
    let mut turned = pixels.clone();
    for _ in 0..4 {
        assert_eq!(turned.len(), pixels.len());
        turned = rgba_to_argb32(&turned);
    }
    assert_eq!(turned, pixels);
    assert_ne!(rgba_to_argb32(&pixels), pixels);
}

#[test]
fn icons_keep_their_size() {
    let icon = Icon {
        inner: PlatformIcon { rgba: vec![10, 20, 30, 40], width: 1, height: 7 },
    };
    let data = IconData::from_icon(&icon);
    assert_eq!((data.width, data.height, &data.data), (1, 7, &vec![10, 20, 30, 40]));
    let pixmap = IconPixmap::from_data(&data.clone());
    assert_eq!((pixmap.width, pixmap.height, &pixmap.data), (1, 7, &vec![40, 10, 20, 30]));
}

#[test]
fn an_icon_is_a_structure_on_the_bus() {
    let pixmap = IconPixmap { width: 2, height: 3, data: vec![9, 8] };
    let value = pixmap.clone().into_value();
    assert_eq!(value.value_signature().to_string(), "(iiay)");
    assert_eq!(value, Value::from((2i32, 3i32, vec![9u8, 8u8])));
    let fields = match value {
        Value::Structure(s) => s.into_fields(),
        _ => panic!("not a structure"),
    };
    assert_eq!(fields[0], Value::I32(2));
    assert_eq!(fields[1], Value::I32(3));
    let bytes: Vec<u8> = fields[2].clone().downcast().unwrap();
    assert_eq!(bytes, vec![9, 8]);
}
