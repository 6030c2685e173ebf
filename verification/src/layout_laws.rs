//! What holds of every layout of a menu.
use vstd::prelude::*;

use crate::dbus_menu::depth_limit;
use crate::flat::{
    flat_list, item_model, lemma_child_number, lemma_sibling_numbers, sibling_numbers,
};
use crate::item_properties::item_properties;
use crate::layout::{at_limit, item_layout, layout_children, layout_value, menu_layout, LayoutModel};
use crate::layout_read::{layout_reads, layout_reads_back, plain_layout_reads_back};
use crate::menu::{menu_root, numbered, preorder, MenuTree};
use crate::value::{peeled, plain, variant, variant_array, variant_dict, KeyModel, ValueModel};

verus! {

/// The numbers and the properties that a layout shows, each item directly before its children.
pub open spec fn listing(layout: ValueModel) -> Seq<(ValueModel, ValueModel)>
    decreases layout, 1nat,
{
    match layout {
        ValueModel::Structure(fields) if fields.len() == 3 => match fields[2] {
            ValueModel::Array(children) => seq![(fields[0], fields[1])] + listing_all(children),
            _ => Seq::empty(),
        },
        _ => Seq::empty(),
    }
}

/// The numbers and the properties that a list of layouts shows, each layout in a variant.
pub open spec fn listing_all(layouts: Seq<ValueModel>) -> Seq<(ValueModel, ValueModel)>
    decreases layouts, 0nat,
{
    if layouts.len() == 0 {
        Seq::empty()
    } else {
        match layouts[0] {
            ValueModel::Variant(layout) => listing(*layout) + listing_all(layouts.drop_first()),
            _ => Seq::empty(),
        }
    }
}

/// What a layout shows of the item with this number.
pub open spec fn shown(tree: MenuTree, number: int, filter: Seq<Seq<char>>) -> (
    ValueModel,
    ValueModel,
) {
    (
        ValueModel::I32(number as i32),
        ValueModel::Dict(variant_dict(item_properties(item_model(tree, number), filter))),
    )
}

proof fn lemma_listing_children(
    trees: Seq<MenuTree>,
    base: int,
    depth: nat,
    filter: Seq<Seq<char>>,
)
    ensures
        listing_all(
            variant_array(layout_children(trees, base, depth, None, filter))->Array_0,
        ) == Seq::new(
            preorder(trees).len(),
            |k: int| shown(preorder(trees)[k], base + k, filter),
        ),
    decreases trees,
{
    let values = layout_children(trees, base, depth, None, filter);
    let array = variant_array(values)->Array_0;
    let goal = Seq::new(
        preorder(trees).len(),
        |k: int| shown(preorder(trees)[k], base + k, filter),
    );
    if trees.len() == 0 {
        assert(listing_all(array) =~= goal);
    } else {
        let first = trees[0];
        let rest = trees.drop_first();
        let next = base + 1 + preorder(first.children).len();
        let rest_values = layout_children(rest, next, depth, None, filter);
        let layout = item_layout(first, base, depth, None, filter);
        lemma_listing_children(first.children, base + 1, depth + 1, filter);
        lemma_listing_children(rest, next, depth, filter);
        assert(array.len() == values.len());
        assert(array[0] == variant(layout_value(layout)));
        assert(array.drop_first() =~= variant_array(rest_values)->Array_0);
        let fields = layout_value(layout)->Structure_0;
        assert(fields.len() == 3);
        assert(fields[2] == variant_array(layout.children));
        assert(listing(layout_value(layout)) == seq![(fields[0], fields[1])] + listing_all(
            variant_array(layout.children)->Array_0,
        ));
        assert(listing_all(array) =~= goal);
    }
}

/// A layout without a depth limit shows every number of the menu once, in order, with the
/// properties of the item that has this number in the list.
pub proof fn layout_lists_all_items(trees: Seq<MenuTree>, filter: Seq<Seq<char>>)
    ensures
        listing(layout_value(menu_layout(trees, None, filter))) == Seq::new(
            numbered(trees).len(),
            |k: int|
                (
                    ValueModel::I32(k as i32),
                    ValueModel::Dict(
                        variant_dict(item_properties(flat_list(trees)[k], filter)),
                    ),
                ),
        ),
{
    let layout = menu_layout(trees, None, filter);
    let fields = layout_value(layout)->Structure_0;
    lemma_listing_children(trees, 1, 1, filter);
    assert(fields.len() == 3);
    assert(fields[2] == variant_array(layout.children));
    assert(listing(layout_value(layout)) == seq![(fields[0], fields[1])] + listing_all(
        variant_array(layout.children)->Array_0,
    ));
    assert(listing(layout_value(layout)) =~= Seq::new(
        numbered(trees).len(),
        |k: int|
            (
                ValueModel::I32(k as i32),
                ValueModel::Dict(variant_dict(item_properties(flat_list(trees)[k], filter))),
            ),
    ));
}

/// A layout without the items that are more than `depth` levels below it.
pub open spec fn pruned(layout: ValueModel, depth: nat) -> ValueModel
    decreases depth,
{
    let fields = layout->Structure_0;
    let children = fields[2]->Array_0;
    ValueModel::Structure(
        seq![
            fields[0],
            fields[1],
            ValueModel::Array(
                if depth == 0 {
                    Seq::empty()
                } else {
                    Seq::new(
                        children.len(),
                        |i: int| variant(pruned(peeled(children[i]), (depth - 1) as nat)),
                    )
                },
            ),
        ],
    )
}

proof fn lemma_pruned_item(
    tree: MenuTree,
    number: int,
    depth: nat,
    limit: usize,
    filter: Seq<Seq<char>>,
)
    requires
        depth <= limit,
    ensures
        layout_value(item_layout(tree, number, depth, Some(limit), filter)) == pruned(
            layout_value(item_layout(tree, number, depth, None, filter)),
            (limit - depth) as nat,
        ),
    decreases tree, 1nat,
{
    let full = item_layout(tree, number, depth, None, filter);
    let cut = item_layout(tree, number, depth, Some(limit), filter);
    let fields = layout_value(full)->Structure_0;
    assert(fields[0] == ValueModel::I32(full.id));
    assert(fields[1] == ValueModel::Dict(variant_dict(full.properties)));
    assert(fields[2] == variant_array(full.children));
    let children = fields[2]->Array_0;
    let d = (limit - depth) as nat;
    if d > 0 {
        lemma_pruned_children(tree.children, number + 1, depth + 1, limit, filter);
        let kept = Seq::new(
            children.len(),
            |i: int| variant(pruned(peeled(children[i]), (d - 1) as nat)),
        );
        assert(variant_array(cut.children)->Array_0 =~= kept);
        assert(pruned(layout_value(full), d)->Structure_0[2]->Array_0 =~= kept) by {
            reveal_with_fuel(pruned, 2);
        }
    } else {
        assert(variant_array(cut.children)->Array_0 =~= Seq::empty());
    }
    assert(layout_value(cut)->Structure_0 =~= pruned(layout_value(full), d)->Structure_0);
}

proof fn lemma_pruned_children(
    trees: Seq<MenuTree>,
    base: int,
    depth: nat,
    limit: usize,
    filter: Seq<Seq<char>>,
)
    requires
        depth <= limit,
    ensures
        layout_children(trees, base, depth, Some(limit), filter).len() == layout_children(
            trees,
            base,
            depth,
            None,
            filter,
        ).len(),
        forall|i: int|
            0 <= i < layout_children(trees, base, depth, None, filter).len()
                ==> #[trigger] layout_children(trees, base, depth, Some(limit), filter)[i]
                == pruned(
                layout_children(trees, base, depth, None, filter)[i],
                (limit - depth) as nat,
            ),
    decreases trees, 0nat,
{
    if trees.len() > 0 {
        let next = base + 1 + preorder(trees[0].children).len();
        lemma_pruned_item(trees[0], base, depth, limit, filter);
        lemma_pruned_children(trees.drop_first(), next, depth, limit, filter);
        let cut = layout_children(trees, base, depth, Some(limit), filter);
        let full = layout_children(trees, base, depth, None, filter);
        let cut_rest = layout_children(trees.drop_first(), next, depth, Some(limit), filter);
        let full_rest = layout_children(trees.drop_first(), next, depth, None, filter);
        assert forall|i: int| 0 <= i < full.len() implies #[trigger] cut[i] == pruned(
            full[i],
            (limit - depth) as nat,
        ) by {
            if i > 0 {
                assert(cut[i] == cut_rest[i - 1]);
                assert(full[i] == full_rest[i - 1]);
            }
        }
    }
}

/// A depth limit leaves items out and changes nothing else: not the numbers, not the properties.
pub proof fn depth_limit_prunes(trees: Seq<MenuTree>, limit: usize, filter: Seq<Seq<char>>)
    ensures
        layout_value(menu_layout(trees, Some(limit), filter)) == pruned(
            layout_value(menu_layout(trees, None, filter)),
            limit as nat,
        ),
{
    lemma_pruned_item(menu_root(trees), 0, 0, limit, filter);
}

proof fn lemma_item_plain(
    tree: MenuTree,
    number: int,
    depth: nat,
    limit: Option<usize>,
    filter: Seq<Seq<char>>,
)
    ensures
        plain(layout_value(item_layout(tree, number, depth, limit, filter))),
    decreases tree, 1nat,
{
    let layout = item_layout(tree, number, depth, limit, filter);
    let m = layout_value(layout);
    let fields = m->Structure_0;
    let dict = variant_dict(layout.properties);
    let array = variant_array(layout.children)->Array_0;
    assert(fields[0] == ValueModel::I32(layout.id));
    assert(fields[1] == ValueModel::Dict(dict));
    assert(fields[2] == variant_array(layout.children));
    assert(plain(fields[1])) by {
        assert forall|k: KeyModel| dict.contains_key(k) implies plain(
            #[trigger] dict[k],
        ) by {
            let value = layout.properties[k->Str_0];
            assert(plain(value));
            assert(plain(variant(value)));
        }
    }
    assert(plain(fields[2])) by {
        let all = layout_children(tree.children, number + 1, depth + 1, limit, filter);
        if !at_limit(limit, depth) {
            lemma_children_plain(tree.children, number + 1, depth + 1, limit, filter);
            assert(layout.children == all);
        }
        assert forall|i: int| 0 <= i < array.len() implies plain(#[trigger] array[i]) by {
            assert(plain(all[i]));
            assert(plain(variant(layout.children[i])));
        }
    }
    assert(plain(fields[0]));
    assert forall|i: int| 0 <= i < fields.len() implies plain(#[trigger] fields[i]) by {
        assert(i == 0 || i == 1 || i == 2);
    }
}

proof fn lemma_children_plain(
    trees: Seq<MenuTree>,
    base: int,
    depth: nat,
    limit: Option<usize>,
    filter: Seq<Seq<char>>,
)
    ensures
        forall|i: int|
            0 <= i < layout_children(trees, base, depth, limit, filter).len() ==> plain(
                #[trigger] layout_children(trees, base, depth, limit, filter)[i],
            ),
    decreases trees, 0nat,
{
    if trees.len() > 0 {
        let next = base + 1 + preorder(trees[0].children).len();
        lemma_item_plain(trees[0], base, depth, limit, filter);
        lemma_children_plain(trees.drop_first(), next, depth, limit, filter);
        let all = layout_children(trees, base, depth, limit, filter);
        let rest = layout_children(trees.drop_first(), next, depth, limit, filter);
        assert forall|i: int| 0 <= i < all.len() implies plain(#[trigger] all[i]) by {
            if i > 0 {
                assert(all[i] == rest[i - 1]);
            }
        }
    }
}

/// The layout of a menu holds no file descriptors, and its dictionaries can be sorted.
pub proof fn menu_layout_is_plain(
    trees: Seq<MenuTree>,
    limit: Option<usize>,
    filter: Seq<Seq<char>>,
)
    ensures
        plain(layout_value(menu_layout(trees, limit, filter))),
{
    lemma_item_plain(menu_root(trees), 0, 0, limit, filter);
}

/// Who reads the layout of a menu gets the menu's number, its items, and its properties with each
/// value in one more variant.
pub proof fn menu_layout_reads_back(
    trees: Seq<MenuTree>,
    limit: Option<usize>,
    filter: Seq<Seq<char>>,
    got: LayoutModel,
)
    requires
        layout_reads(layout_value(menu_layout(trees, limit, filter)), got),
    ensures
        got.id == 0,
        got.properties == menu_layout(trees, limit, filter).properties.map_values(
            |m: ValueModel| variant(m),
        ),
        got.children == menu_layout(trees, limit, filter).children,
{
    let layout = menu_layout(trees, limit, filter);
    layout_reads_back(layout, got);
    plain_layout_reads_back(layout, got);
}

/// Whether a layout shows these items, and below them theirs, down to so many levels and no
/// further.
pub open spec fn shows_levels(
    layout: ValueModel,
    items: Seq<MenuTree>,
    levels: Option<nat>,
) -> bool
    decreases items,
{
    match layout {
        ValueModel::Structure(fields) => fields.len() == 3 && match fields[2] {
            ValueModel::Array(shown) => if levels == Some(0nat) {
                shown.len() == 0
            } else {
                &&& shown.len() == items.len()
                &&& forall|i: int|
                    0 <= i < items.len() ==> match #[trigger] shown[i] {
                        ValueModel::Variant(child) => shows_levels(
                            *child,
                            items[i].children,
                            match levels {
                                Some(l) => Some((l - 1) as nat),
                                None => None,
                            },
                        ),
                        _ => false,
                    }
            },
            _ => false,
        },
        _ => false,
    }
}

/// Siblings are laid out one by one.
proof fn lemma_layout_child(
    trees: Seq<MenuTree>,
    base: int,
    depth: nat,
    limit: Option<usize>,
    filter: Seq<Seq<char>>,
    i: int,
)
    requires
        0 <= i < trees.len(),
    ensures
        layout_children(trees, base, depth, limit, filter).len() == trees.len(),
        layout_children(trees, base, depth, limit, filter)[i] == layout_value(
            item_layout(trees[i], sibling_numbers(trees, base)[i], depth, limit, filter),
        ),
    decreases trees.len(),
{
    let rest = trees.drop_first();
    let next = base + 1 + preorder(trees[0].children).len();
    lemma_sibling_numbers(trees, base);
    if i > 0 {
        lemma_layout_child(rest, next, depth, limit, filter, i - 1);
    } else if rest.len() > 0 {
        lemma_layout_child(rest, next, depth, limit, filter, 0);
    } else {
        assert(layout_children(rest, next, depth, limit, filter).len() == 0);
    }
}

proof fn lemma_item_levels(
    tree: MenuTree,
    number: int,
    depth: nat,
    limit: Option<usize>,
    filter: Seq<Seq<char>>,
)
    requires
        limit is Some ==> depth <= limit->0,
    ensures
        shows_levels(
            layout_value(item_layout(tree, number, depth, limit, filter)),
            tree.children,
            match limit {
                Some(l) => Some((l - depth) as nat),
                None => None,
            },
        ),
    decreases tree,
{
    let layout = item_layout(tree, number, depth, limit, filter);
    let fields = layout_value(layout)->Structure_0;
    let items = tree.children;
    assert(fields.len() == 3);
    assert(fields[2] == variant_array(layout.children));
    let shown = fields[2]->Array_0;
    assert(shown.len() == layout.children.len());
    if at_limit(limit, depth) {
        assert(shown.len() == 0);
    } else {
        let numbers = sibling_numbers(items, number + 1);
        if items.len() > 0 {
            lemma_layout_child(items, number + 1, depth + 1, limit, filter, 0);
        }
        assert(shown.len() == items.len());
        let below: Option<nat> = match limit {
            Some(l) => Some((l - depth - 1) as nat),
            None => None,
        };
        assert forall|i: int| 0 <= i < items.len() implies (match #[trigger] shown[i] {
            ValueModel::Variant(child) => shows_levels(*child, items[i].children, below),
            _ => false,
        }) by {
            lemma_layout_child(items, number + 1, depth + 1, limit, filter, i);
            let child = item_layout(items[i], numbers[i], depth + 1, limit, filter);
            assert(shown[i] == variant(layout_value(child)));
            lemma_item_levels(items[i], numbers[i], depth + 1, limit, filter);
        }
    }
}

/// A layout that is asked for down to some depth shows the items of the menu, and below each its
/// own, down to just this many levels; one of a negative depth shows them all. Items that a depth
/// leaves out are left out of the whole layout, and nothing else changes: not the numbers, not the
/// properties.
pub proof fn depth_is_as_asked(trees: Seq<MenuTree>, depth: i32, filter: Seq<Seq<char>>)
    ensures
        ({
            let layout = menu_layout(trees, depth_limit(depth), filter);
            let whole = menu_layout(trees, depth_limit((-1) as i32), filter);
            &&& layout.id == 0
            &&& depth < 0 ==> shows_levels(layout_value(layout), trees, None)
            &&& depth < 0 ==> layout == whole
            &&& depth >= 0 ==> shows_levels(layout_value(layout), trees, Some(depth as nat))
            &&& depth >= 0 ==> layout_value(layout) == pruned(layout_value(whole), depth as nat)
            &&& depth == 0 ==> layout.children.len() == 0
            &&& depth != 0 ==> layout.children.len() == trees.len()
        }),
        depth < 0 ==> depth_limit(depth) is None,
        depth >= 0 ==> depth_limit(depth) == Some(depth as usize),
{
    let limit = depth_limit(depth);
    lemma_item_levels(menu_root(trees), 0, 0, limit, filter);
    if depth >= 0 {
        depth_limit_prunes(trees, depth as usize, filter);
    }
    if depth != 0 {
        if trees.len() > 0 {
            lemma_layout_child(trees, 1, 1, limit, filter, 0);
        } else {
            assert(layout_children(trees, 1, 1, limit, filter).len() == 0);
        }
    }
}

/// At any depth that shows it, an item's layout has the item's own number and properties, and the
/// layouts of its children in order: the child with the number that the list gives it.
pub proof fn each_item_has_its_own_layout(
    trees: Seq<MenuTree>,
    number: int,
    depth: nat,
    limit: Option<usize>,
    filter: Seq<Seq<char>>,
    i: int,
)
    requires
        0 <= number < numbered(trees).len(),
        0 <= i < numbered(trees)[number].children.len(),
        limit is Some ==> depth < limit->0,
    ensures
        ({
            let item = numbered(trees)[number];
            let layout = item_layout(item, number, depth, limit, filter);
            let child = flat_list(trees)[number].children[i];
            &&& layout.id == number as i32
            &&& layout.properties == item_properties(flat_list(trees)[number], filter)
            &&& layout.children.len() == item.children.len()
            &&& layout.children[i] == layout_value(
                item_layout(numbered(trees)[child], child, depth + 1, limit, filter),
            )
        }),
{
    let item = numbered(trees)[number];
    lemma_layout_child(item.children, number + 1, depth + 1, limit, filter, i);
    lemma_child_number(trees, number, i);
}

/// On the bus a layout is its number, its properties by name, and its children, in this order,
/// with every property and every child in a variant.
pub proof fn layouts_on_the_bus(layout: LayoutModel, name: Seq<char>, i: int)
    requires
        0 <= i < layout.children.len(),
    ensures
        ({
            let fields = layout_value(layout)->Structure_0;
            let dict = fields[1]->Dict_0;
            let array = fields[2]->Array_0;
            &&& layout_value(layout) is Structure
            &&& fields.len() == 3
            &&& fields[0] == ValueModel::I32(layout.id)
            &&& fields[1] is Dict
            &&& dict.contains_key(KeyModel::Str(name)) <==> layout.properties.contains_key(name)
            &&& layout.properties.contains_key(name) ==> dict[KeyModel::Str(name)]
                == ValueModel::Variant(Box::new(layout.properties[name]))
            &&& forall|k: KeyModel| #[trigger] dict.contains_key(k) ==> k is Str
            &&& fields[2] is Array
            &&& array.len() == layout.children.len()
            &&& array[i] == ValueModel::Variant(Box::new(layout.children[i]))
        }),
{
    let fields = layout_value(layout)->Structure_0;
    assert(fields[1] == ValueModel::Dict(variant_dict(layout.properties)));
    assert(fields[2] == variant_array(layout.children));
}

} // verus!
