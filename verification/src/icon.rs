//! Icons: from the application's RGBA pixels to the ARGB32 pixels of the bus.
use vstd::prelude::*;
use zbus::zvariant::Value;

use crate::value::{pixmap_model, pixmap_value, value_holds, value_type, ValueModel};

verus! {

/// The pixels of an icon, four bytes each: red, green, blue, alpha.
pub struct PlatformIcon {
    pub rgba: Vec<u8>,
    pub width: i32,
    pub height: i32,
}

/// An icon as the application makes it.
pub struct Icon {
    pub inner: PlatformIcon,
}

/// An icon on its way to the bus, still in RGBA.
#[derive(Debug)]
pub struct IconData {
    pub width: i32,
    pub height: i32,
    pub data: Vec<u8>,
}

/// An icon as the bus takes it: ARGB32 in network byte order.
#[derive(Debug)]
pub struct IconPixmap {
    pub width: i32,
    pub height: i32,
    pub data: Vec<u8>,
}

/// The content of an icon: its size and its bytes.
pub ghost struct IconModel {
    pub width: i32,
    pub height: i32,
    pub data: Seq<u8>,
}

impl View for Icon {
    type V = IconModel;

    open spec fn view(&self) -> IconModel {
        IconModel { width: self.inner.width, height: self.inner.height, data: self.inner.rgba@ }
    }
}

impl View for IconData {
    type V = IconModel;

    open spec fn view(&self) -> IconModel {
        IconModel { width: self.width, height: self.height, data: self.data@ }
    }
}

impl View for IconPixmap {
    type V = IconModel;

    open spec fn view(&self) -> IconModel {
        IconModel { width: self.width, height: self.height, data: self.data@ }
    }
}

impl Clone for IconData {
    fn clone(&self) -> (res: Self)
        ensures
            res@ == self@,
    {
        let data = self.data.clone();
        assert(data@ =~= self.data@);
        IconData { width: self.width, height: self.height, data }
    }
}

impl Clone for IconPixmap {
    fn clone(&self) -> (res: Self)
        ensures
            res@ == self@,
    {
        let data = self.data.clone();
        assert(data@ =~= self.data@);
        IconPixmap { width: self.width, height: self.height, data }
    }
}

/// The contents of a list of icons.
pub open spec fn pixmaps(icons: Seq<IconPixmap>) -> Seq<IconModel> {
    Seq::new(icons.len(), |i: int| icons[i]@)
}

/// RGBA bytes as ARGB bytes: in each whole pixel the last byte comes first. Bytes behind the last
/// whole pixel stay as they are.
pub open spec fn argb(rgba: Seq<u8>) -> Seq<u8> {
    Seq::new(
        rgba.len(),
        |i: int|
            if i < rgba.len() - rgba.len() % 4 {
                if i % 4 == 0 {
                    rgba[i + 3]
                } else {
                    rgba[i - 1]
                }
            } else {
                rgba[i]
            },
    )
}

/// The icon that the bus shows for an icon in RGBA.
pub open spec fn argb_icon(icon: IconModel) -> IconModel {
    IconModel { data: argb(icon.data), ..icon }
}

/// Turns RGBA bytes into ARGB32 in network byte order.
pub fn rgba_to_argb32(rgba: &[u8]) -> (res: Vec<u8>)
    ensures
        res@ == argb(rgba@),
        res.len() == rgba.len(),
        forall|k: int|
            0 <= k && k + 4 <= rgba.len() && k % 4 == 0 ==> #[trigger] res@[k] == rgba@[k + 3]
                && res@[k + 1] == rgba@[k] && res@[k + 2] == rgba@[k + 1] && res@[k + 3]
                == rgba@[k + 2],
{
    let mut data: Vec<u8> = Vec::new();
    data.extend_from_slice(rgba);
    assert(data@ =~= rgba@);
    let whole: usize = data.len() - data.len() % 4;
    let mut i: usize = 0;
    while i < whole
        invariant
            data.len() == rgba.len(),
            whole == data.len() - data.len() % 4,
            i <= whole,
            i % 4 == 0,
            forall|k: int| 0 <= k < i ==> data[k] == argb(rgba@)[k],
            forall|k: int| i <= k < data.len() ==> data[k] == rgba[k],
        decreases whole - i,
    {
        let alpha: u8 = data[i + 3];
        let blue: u8 = data[i + 2];
        let green: u8 = data[i + 1];
        let red: u8 = data[i];
        data.set(i, alpha);
        data.set(i + 1, red);
        data.set(i + 2, green);
        data.set(i + 3, blue);
        i = i + 4;
    }
    assert(data@ =~= argb(rgba@));
    data
}

impl IconPixmap {
    /// The icon that the bus shows for an icon in RGBA.
    pub fn from_data(icon: &IconData) -> (res: IconPixmap)
        ensures
            res@ == argb_icon(icon@),
            res.width == icon.width,
            res.height == icon.height,
            res.data@ == argb(icon.data@),
    {
        IconPixmap {
            width: icon.width,
            height: icon.height,
            data: rgba_to_argb32(icon.data.as_slice()),
        }
    }

    /// The icon as a D-Bus value: width, height and bytes.
    pub fn into_value(self) -> (res: Value<'static>)
        ensures
            value_holds(res) == pixmap_model(self.width, self.height, self.data@),
            value_type(res) == "(iiay)"@,
    {
        pixmap_value(self.width, self.height, self.data)
    }
}

impl IconData {
    /// The pixels of an application's icon.
    pub fn from_icon(icon: &Icon) -> (res: IconData)
        ensures
            res@ == icon@,
            res.width == icon.inner.width,
            res.height == icon.inner.height,
            res.data@ == icon.inner.rgba@,
    {
        let data = icon.inner.rgba.clone();
        assert(data@ =~= icon.inner.rgba@);
        IconData { width: icon.inner.width, height: icon.inner.height, data }
    }
}

/// Every whole pixel is turned: its alpha byte comes first, and red, green and blue follow.
pub proof fn every_pixel_is_turned(rgba: Seq<u8>, pixel: int)
    requires
        0 <= pixel,
        4 * pixel + 4 <= rgba.len(),
    ensures
        argb(rgba)[4 * pixel] == rgba[4 * pixel + 3],
        argb(rgba)[4 * pixel + 1] == rgba[4 * pixel],
        argb(rgba)[4 * pixel + 2] == rgba[4 * pixel + 1],
        argb(rgba)[4 * pixel + 3] == rgba[4 * pixel + 2],
{
}

/// The bytes behind the last whole pixel stay as they are.
pub proof fn bytes_behind_the_pixels_stay(rgba: Seq<u8>, pixels: int, i: int)
    requires
        0 <= pixels,
        4 * pixels <= i < rgba.len() < 4 * pixels + 4,
    ensures
        argb(rgba)[i] == rgba[i],
{
}

/// The icon on the bus has the size of the icon, and its pixels in ARGB.
pub proof fn icons_keep_their_size(icon: IconModel)
    ensures
        argb_icon(icon).width == icon.width,
        argb_icon(icon).height == icon.height,
        argb_icon(icon).data == argb(icon.data),
{
}

/// The content of icons is what their fields hold, and a list of icons keeps its order.
pub proof fn icons_are_seen_as_they_are(
    icon: Icon,
    data: IconData,
    shown: Seq<IconPixmap>,
    i: int,
)
    requires
        0 <= i < shown.len(),
    ensures
        icon@.width == icon.inner.width,
        icon@.height == icon.inner.height,
        icon@.data == icon.inner.rgba@,
        data@.width == data.width,
        data@.height == data.height,
        data@.data == data.data@,
        pixmaps(shown).len() == shown.len(),
        pixmaps(shown)[i].width == shown[i].width,
        pixmaps(shown)[i].height == shown[i].height,
        pixmaps(shown)[i].data == shown[i].data@,
{
}

/// An icon on the bus is its width, its height and its bytes, in this order.
pub proof fn icons_on_the_bus(width: i32, height: i32, data: Seq<u8>, i: int)
    requires
        0 <= i < data.len(),
    ensures
        ({
            let fields = pixmap_model(width, height, data)->Structure_0;
            &&& pixmap_model(width, height, data) is Structure
            &&& fields.len() == 3
            &&& fields[0] == ValueModel::I32(width)
            &&& fields[1] == ValueModel::I32(height)
            &&& fields[2] is Array
            &&& fields[2]->Array_0.len() == data.len()
            &&& fields[2]->Array_0[i] == ValueModel::U8(data[i])
        }),
{
}

/// The conversion keeps the number of bytes.
pub proof fn argb_keeps_length(rgba: Seq<u8>)
    ensures
        argb(rgba).len() == rgba.len(),
{
}

/// The conversion turns each pixel by one byte, so doing it four times changes nothing.
pub proof fn argb_four_times_is_identity(rgba: Seq<u8>)
    ensures
        argb(argb(argb(argb(rgba)))) == rgba,
{
    assert(argb(argb(argb(argb(rgba)))) =~= rgba);
}

/// No two icons look the same on the bus.
pub proof fn argb_is_injective(a: Seq<u8>, b: Seq<u8>)
    requires
        argb(a) == argb(b),
    ensures
        a == b,
{
    argb_four_times_is_identity(a);
    argb_four_times_is_identity(b);
}

} // verus!
