//! The state that the tray shows on the bus.
use vstd::prelude::*;

use zbus::zvariant::Structure;

use crate::icon::{pixmaps, IconModel, IconPixmap};
use crate::menu::{forest, MenuSnapshot, MenuTree};
use crate::value::{pixmap_model, structure_holds, structure_type, tool_tip_structure, ValueModel};

verus! {

/// What the bus can ask about the tray.
pub struct Inner {
    pub id: String,
    pub icon_pixmap: Vec<IconPixmap>,
    pub tooltip: Option<String>,
    pub title: Option<String>,
    pub status: String,
    pub menu: Option<MenuSnapshot>,
    pub revision: u32,
    pub item_id_offset: i32,
}

/// The content of [`Inner`].
pub ghost struct InnerModel {
    pub id: Seq<char>,
    pub icon_pixmap: Seq<IconModel>,
    pub tooltip: Option<Seq<char>>,
    pub title: Option<Seq<char>>,
    pub status: Seq<char>,
    pub menu: Option<Seq<MenuTree>>,
    pub revision: u32,
    pub item_id_offset: i32,
}

/// The text in an optional string.
pub open spec fn opt_text(s: Option<String>) -> Option<Seq<char>> {
    match s {
        Some(s) => Some(s@),
        None => None,
    }
}

/// The items in an optional menu.
pub open spec fn opt_menu(menu: Option<MenuSnapshot>) -> Option<Seq<MenuTree>> {
    match menu {
        Some(m) => Some(forest(m.items@)),
        None => None,
    }
}

impl View for Inner {
    type V = InnerModel;

    open spec fn view(&self) -> InnerModel {
        InnerModel {
            id: self.id@,
            icon_pixmap: pixmaps(self.icon_pixmap@),
            tooltip: opt_text(self.tooltip),
            title: opt_text(self.title),
            status: self.status@,
            menu: opt_menu(self.menu),
            revision: self.revision,
            item_id_offset: self.item_id_offset,
        }
    }
}

/// The tooltip as the bus takes it.
#[derive(Debug)]
pub struct ToolTipData {
    pub icon_name: String,
    pub icon_pixmap: Vec<IconPixmap>,
    pub title: String,
    pub description: String,
}

/// The content of a [`ToolTipData`].
pub ghost struct ToolTipModel {
    pub icon_name: Seq<char>,
    pub icon_pixmap: Seq<IconModel>,
    pub title: Seq<char>,
    pub description: Seq<char>,
}

impl View for ToolTipData {
    type V = ToolTipModel;

    open spec fn view(&self) -> ToolTipModel {
        ToolTipModel {
            icon_name: self.icon_name@,
            icon_pixmap: pixmaps(self.icon_pixmap@),
            title: self.title@,
            description: self.description@,
        }
    }
}

/// A tooltip that shows a text and nothing else.
pub open spec fn text_tool_tip(title: Seq<char>) -> ToolTipModel {
    ToolTipModel {
        icon_name: Seq::empty(),
        icon_pixmap: Seq::empty(),
        title,
        description: Seq::empty(),
    }
}

/// The fields of a tooltip on the bus.
pub open spec fn tool_tip_fields(tip: ToolTipModel) -> Seq<ValueModel> {
    seq![
        ValueModel::Str(tip.icon_name),
        ValueModel::Array(
            Seq::new(
                tip.icon_pixmap.len(),
                |i: int|
                    pixmap_model(
                        tip.icon_pixmap[i].width,
                        tip.icon_pixmap[i].height,
                        tip.icon_pixmap[i].data,
                    ),
            ),
        ),
        ValueModel::Str(tip.title),
        ValueModel::Str(tip.description),
    ]
}

impl Default for ToolTipData {
    fn default() -> (res: Self)
        ensures
            res@ == text_tool_tip(Seq::empty()),
            res.icon_name@.len() == 0 && res.icon_pixmap.len() == 0,
            res.title@.len() == 0 && res.description@.len() == 0,
    {
        let res = ToolTipData {
            icon_name: String::new(),
            icon_pixmap: Vec::new(),
            title: String::new(),
            description: String::new(),
        };
        assert(res@.icon_pixmap =~= Seq::empty());
        res
    }
}

impl Clone for ToolTipData {
    fn clone(&self) -> (res: Self)
        ensures
            res@ == self@,
    {
        ToolTipData {
            icon_name: self.icon_name.clone(),
            icon_pixmap: copy_icons(&self.icon_pixmap),
            title: self.title.clone(),
            description: self.description.clone(),
        }
    }
}

impl ToolTipData {
    /// The tooltip as a D-Bus structure.
    pub fn into_structure(self) -> (res: Structure<'static>)
        ensures
            structure_holds(res) == tool_tip_fields(self@),
            structure_type(res) == "(sa(iiay)ss)"@,
    {
        let ghost tip = self@;
        let ghost icons = self.icon_pixmap@;
        let mut icon_pixmap: Vec<(i32, i32, Vec<u8>)> = Vec::new();
        for icon in iter: self.icon_pixmap
            invariant
                iter.seq() == icons,
                icon_pixmap.len() == iter.index(),
                forall|j: int|
                    0 <= j < iter.index() ==> {
                        &&& (#[trigger] icon_pixmap[j]).0 == icons[j].width
                        &&& icon_pixmap[j].1 == icons[j].height
                        &&& icon_pixmap[j].2@ == icons[j].data@
                    },
        {
            icon_pixmap.push((icon.width, icon.height, icon.data));
        }
        let ghost listed = Seq::new(
            icon_pixmap@.len(),
            |i: int| pixmap_model(icon_pixmap[i].0, icon_pixmap[i].1, icon_pixmap[i].2@),
        );
        assert(ValueModel::Array(listed) == tool_tip_fields(tip)[1]) by {
            assert(listed =~= tool_tip_fields(tip)[1]->Array_0);
        }
        tool_tip_structure(self.icon_name, icon_pixmap, self.title, self.description)
    }
}

/// The text in an optional text, empty without one.
pub open spec fn text_or_empty(text: Option<Seq<char>>) -> Seq<char> {
    match text {
        Some(t) => t,
        None => Seq::empty(),
    }
}

/// A copy of the text in an optional string, empty without one.
fn copy_or_empty(text: &Option<String>) -> (res: String)
    ensures
        res@ == text_or_empty(opt_text(*text)),
{
    match text {
        Some(t) => t.clone(),
        None => String::new(),
    }
}

/// A copy of a list of icons.
fn copy_icons(icons: &Vec<IconPixmap>) -> (res: Vec<IconPixmap>)
    ensures
        pixmaps(res@) == pixmaps(icons@),
{
    let mut res: Vec<IconPixmap> = Vec::new();
    let mut i: usize = 0;
    while i < icons.len()
        invariant
            i <= icons.len(),
            res.len() == i,
            forall|j: int| 0 <= j < i ==> (#[trigger] res[j])@ == icons[j]@,
        decreases icons.len() - i,
    {
        res.push(icons[i].clone());
        i = i + 1;
    }
    assert(pixmaps(res@) =~= pixmaps(icons@));
    res
}

impl Inner {
    /// The icon as the bus takes it.
    pub fn get_icon_pixmap(&self) -> (res: Vec<IconPixmap>)
        ensures
            pixmaps(res@) == self@.icon_pixmap,
    {
        copy_icons(&self.icon_pixmap)
    }

    /// The tooltip as the bus takes it: the text as the title, the rest empty.
    pub fn get_tooltip(&self) -> (res: ToolTipData)
        ensures
            res@ == text_tool_tip(text_or_empty(self@.tooltip)),
            res.icon_name@.len() == 0,
            res.icon_pixmap.len() == 0,
            res.description@.len() == 0,
            self.tooltip matches Some(text) ==> res.title@ == text@,
            self.tooltip is None ==> res.title@.len() == 0,
    {
        let res = ToolTipData {
            icon_name: String::new(),
            icon_pixmap: Vec::new(),
            title: copy_or_empty(&self.tooltip),
            description: String::new(),
        };
        assert(res@.icon_pixmap =~= Seq::empty());
        res
    }

    /// The title, empty without one.
    pub fn get_title(&self) -> (res: String)
        ensures
            res@ == text_or_empty(self@.title),
            self.title matches Some(text) ==> res@ == text@,
            self.title is None ==> res@.len() == 0,
    {
        copy_or_empty(&self.title)
    }
}

/// The content of the state is what its fields hold.
pub proof fn the_state_is_seen_as_it_is(inner: Inner)
    ensures
        inner@.id == inner.id@,
        inner@.icon_pixmap == pixmaps(inner.icon_pixmap@),
        inner@.tooltip is Some <==> inner.tooltip is Some,
        inner.tooltip matches Some(t) ==> inner@.tooltip->0 == t@,
        inner@.title is Some <==> inner.title is Some,
        inner.title matches Some(t) ==> inner@.title->0 == t@,
        inner@.status == inner.status@,
        inner@.menu is Some <==> inner.menu is Some,
        inner.menu matches Some(m) ==> inner@.menu->0 == forest(m.items@),
        inner@.revision == inner.revision,
        inner@.item_id_offset == inner.item_id_offset,
{
}

/// A tooltip on the bus is the name of its icon, its icons, its title and its description, in this
/// order.
pub proof fn tooltips_on_the_bus(tip: ToolTipData, i: int)
    requires
        0 <= i < tip.icon_pixmap.len(),
    ensures
        ({
            let fields = tool_tip_fields(tip@);
            let icons = fields[1]->Array_0;
            &&& fields.len() == 4
            &&& fields[0] == ValueModel::Str(tip.icon_name@)
            &&& fields[1] is Array
            &&& icons.len() == tip.icon_pixmap.len()
            &&& icons[i] == pixmap_model(
                tip.icon_pixmap[i].width,
                tip.icon_pixmap[i].height,
                tip.icon_pixmap[i].data@,
            )
            &&& fields[2] == ValueModel::Str(tip.title@)
            &&& fields[3] == ValueModel::Str(tip.description@)
        }),
{
}

} // verus!
