//! The menu as a numbered list.
use vstd::prelude::*;

use crate::inner::Inner;
use crate::menu::{
    forest, lemma_preorder_append, lemma_tree_children, menu_root, numbered, preorder, MenuItemNode,
    MenuTree,
};

verus! {

/// One entry of the numbered list: what the bus is told about an item, and the numbers of its
/// children.
pub struct FlatItem {
    pub id: i32,
    pub label: String,
    pub enabled: bool,
    pub item_type: &'static str,
    pub toggle_state: Option<i32>,
    pub children: Vec<usize>,
}

impl Clone for FlatItem {
    fn clone(&self) -> (res: Self)
        ensures
            res@ == self@,
    {
        let children = self.children.clone();
        assert(children@ =~= self.children@);
        FlatItem {
            id: self.id,
            label: self.label.clone(),
            enabled: self.enabled,
            item_type: self.item_type,
            toggle_state: self.toggle_state,
            children,
        }
    }
}

/// The content of a [`FlatItem`].
pub ghost struct FlatModel {
    pub id: i32,
    pub label: Seq<char>,
    pub enabled: bool,
    pub item_type: Seq<char>,
    pub toggle_state: Option<i32>,
    pub children: Seq<int>,
}

impl View for FlatItem {
    type V = FlatModel;

    open spec fn view(&self) -> FlatModel {
        FlatModel {
            id: self.id,
            label: self.label@,
            enabled: self.enabled,
            item_type: self.item_type@,
            toggle_state: self.toggle_state,
            children: self.children@.map_values(|c: usize| c as int),
        }
    }
}

/// The contents of a numbered list.
pub open spec fn flat_models(items: Seq<FlatItem>) -> Seq<FlatModel> {
    Seq::new(items.len(), |i: int| items[i]@)
}

/// An entry with these properties and no children yet.
pub open spec fn childless(
    label: Seq<char>,
    enabled: bool,
    item_type: Seq<char>,
    toggle_state: Option<i32>,
) -> FlatModel {
    FlatModel { id: 0, label, enabled, item_type, toggle_state, children: Seq::empty() }
}

/// The content of an entry is what its fields hold, and a list of entries keeps its order.
pub proof fn entries_are_seen_as_they_are(items: Seq<FlatItem>, i: int)
    requires
        0 <= i < items.len(),
    ensures
        flat_models(items).len() == items.len(),
        flat_models(items)[i].id == items[i].id,
        flat_models(items)[i].label == items[i].label@,
        flat_models(items)[i].enabled == items[i].enabled,
        flat_models(items)[i].item_type == items[i].item_type@,
        flat_models(items)[i].toggle_state == items[i].toggle_state,
        flat_models(items)[i].children.len() == items[i].children.len(),
        forall|j: int|
            0 <= j < items[i].children.len() ==> #[trigger] flat_models(items)[i].children[j]
                == items[i].children[j],
{
}

impl FlatItem {
    /// The entry of the menu itself.
    pub fn root(child_count: usize) -> (res: Self)
        ensures
            res@ == childless(Seq::empty(), true, "standard"@, None),
            res.label@.len() == 0 && res.enabled && res.item_type@ == "standard"@,
            res.toggle_state is None && res.children.len() == 0,
    {
        let res = FlatItem {
            id: 0,
            label: String::new(),
            enabled: true,
            item_type: "standard",
            toggle_state: None,
            children: Vec::with_capacity(child_count),
        };
        assert(res@.children =~= Seq::empty());
        res
    }

    /// The entry of an ordinary item.
    pub fn standard(label: &str, enabled: bool) -> (res: Self)
        ensures
            res@ == childless(label@, enabled, "standard"@, None),
            res.label@ == label@ && res.enabled == enabled && res.item_type@ == "standard"@,
            res.toggle_state is None && res.children.len() == 0,
    {
        let res = FlatItem {
            id: 0,
            label: label.to_string(),
            enabled,
            item_type: "standard",
            toggle_state: None,
            children: Vec::new(),
        };
        assert(res@.children =~= Seq::empty());
        res
    }

    /// The entry of a separator.
    pub fn separator(_id: usize) -> (res: Self)
        ensures
            res@ == childless(Seq::empty(), true, "separator"@, None),
            res.label@.len() == 0 && res.enabled && res.item_type@ == "separator"@,
            res.toggle_state is None && res.children.len() == 0,
    {
        let res = FlatItem {
            id: 0,
            label: String::new(),
            enabled: true,
            item_type: "separator",
            toggle_state: None,
            children: Vec::new(),
        };
        assert(res@.children =~= Seq::empty());
        res
    }

    /// The entry of an item with a check mark.
    pub fn check(label: &str, enabled: bool, checked: bool) -> (res: Self)
        ensures
            res@ == childless(
                label@,
                enabled,
                "standard"@,
                Some(
                    if checked {
                        1i32
                    } else {
                        0i32
                    },
                ),
            ),
            res.label@ == label@ && res.enabled == enabled && res.item_type@ == "standard"@,
            checked ==> res.toggle_state == Some(1i32),
            !checked ==> res.toggle_state == Some(0i32),
            res.children.len() == 0,
    {
        let res = FlatItem {
            id: 0,
            label: label.to_string(),
            enabled,
            item_type: "standard",
            toggle_state: Some(
                if checked {
                    1
                } else {
                    0
                },
            ),
            children: Vec::new(),
        };
        assert(res@.children =~= Seq::empty());
        res
    }

    /// The entry of a submenu.
    pub fn submenu(label: &str, enabled: bool, _child_count: usize) -> (res: Self)
        ensures
            res@ == childless(label@, enabled, "standard"@, None),
            res.label@ == label@ && res.enabled == enabled && res.item_type@ == "standard"@,
            res.toggle_state is None && res.children.len() == 0,
    {
        let res = FlatItem {
            id: 0,
            label: label.to_string(),
            enabled,
            item_type: "standard",
            toggle_state: None,
            children: Vec::new(),
        };
        assert(res@.children =~= Seq::empty());
        res
    }

    /// The entry of a menu item, its children not yet numbered.
    fn of_node(node: &MenuItemNode, idx: usize) -> (res: Self)
        ensures
            res@ == (FlatModel { children: Seq::empty(), ..item_model(node@, idx as int) }),
    {
        proof {
            lemma_tree_children(*node);
        }
        if node.is_separator {
            FlatItem::separator(idx)
        } else if node.checked.is_some() {
            FlatItem::check(node.label.as_str(), node.enabled, node.checked.unwrap_or(false))
        } else if node.is_submenu || !node.children.is_empty() {
            FlatItem::submenu(node.label.as_str(), node.enabled, node.children.len())
        } else {
            FlatItem::standard(node.label.as_str(), node.enabled)
        }
    }
}

/// The numbers of a list of sibling items, where `base` is the number of the first: each comes
/// behind all items of its elder siblings.
pub open spec fn sibling_numbers(trees: Seq<MenuTree>, base: int) -> Seq<int> {
    Seq::new(trees.len(), |i: int| base + preorder(trees.take(i)).len())
}

/// The entry of the item with this number. Its children are numbered from the next number on.
///
/// A separator has no text and is never disabled; an item with a check mark has its state as 0
/// or 1.
pub open spec fn item_model(tree: MenuTree, number: int) -> FlatModel {
    FlatModel {
        id: 0,
        label: if tree.is_separator {
            Seq::empty()
        } else {
            tree.label
        },
        enabled: tree.is_separator || tree.enabled,
        item_type: if tree.is_separator {
            "separator"@
        } else {
            "standard"@
        },
        toggle_state: match tree.checked {
            Some(checked) if !tree.is_separator => Some(
                if checked {
                    1i32
                } else {
                    0i32
                },
            ),
            _ => None,
        },
        children: sibling_numbers(tree.children, number + 1),
    }
}

/// The entries of the items of a menu whose first item has the number `base`.
pub open spec fn flat_forest(trees: Seq<MenuTree>, base: int) -> Seq<FlatModel> {
    Seq::new(preorder(trees).len(), |k: int| item_model(preorder(trees)[k], base + k))
}

/// The numbered list of a menu.
pub open spec fn flat_list(trees: Seq<MenuTree>) -> Seq<FlatModel> {
    Seq::new(numbered(trees).len(), |k: int| item_model(numbered(trees)[k], k))
}

/// The list `r` with more children for one of its entries.
spec fn with_children(r: Seq<FlatModel>, parent: int, extra: Seq<int>) -> Seq<FlatModel> {
    r.update(parent, FlatModel { children: r[parent].children + extra, ..r[parent] })
}

/// The list `r` once the siblings `rest` are numbered and listed as children of `parent`.
spec fn attach(r: Seq<FlatModel>, rest: Seq<MenuTree>, parent: int) -> Seq<FlatModel> {
    with_children(r, parent, sibling_numbers(rest, r.len() as int)) + flat_forest(
        rest,
        r.len() as int,
    )
}

/// The list `r` once all the work on the stack is done, from the top down.
spec fn finish(r: Seq<FlatModel>, stack: Seq<(Seq<MenuTree>, int)>) -> Seq<FlatModel>
    decreases stack.len(),
{
    if stack.len() == 0 {
        r
    } else {
        finish(attach(r, stack.last().0, stack.last().1), stack.drop_last())
    }
}

/// How many items are still to be listed.
spec fn pending(stack: Seq<(Seq<MenuTree>, int)>) -> nat
    decreases stack.len(),
{
    if stack.len() == 0 {
        0
    } else {
        pending(stack.drop_last()) + preorder(stack.last().0).len()
    }
}

/// The work that one frame of the stack stands for: the siblings from a position on, and their
/// parent's number.
spec fn frame(f: (&Vec<MenuItemNode>, usize, usize)) -> (Seq<MenuTree>, int) {
    (forest(f.0@).skip(f.1 as int), f.2 as int)
}

/// The work on the stack.
spec fn frames(stack: Seq<(&Vec<MenuItemNode>, usize, usize)>) -> Seq<(Seq<MenuTree>, int)> {
    Seq::new(stack.len(), |j: int| frame(stack[j]))
}

/// Whether every frame of the stack names an entry of the list as the parent and a position in
/// its siblings.
spec fn frames_fit(stack: Seq<(&Vec<MenuItemNode>, usize, usize)>, len: nat) -> bool {
    forall|j: int|
        0 <= j < stack.len() ==> (#[trigger] stack[j]).1 <= stack[j].0.len() && stack[j].2 < len
}

proof fn lemma_frames_push(
    stack: Seq<(&Vec<MenuItemNode>, usize, usize)>,
    f: (&Vec<MenuItemNode>, usize, usize),
)
    ensures
        frames(stack.push(f)) == frames(stack).push(frame(f)),
        pending(frames(stack.push(f))) == pending(frames(stack)) + preorder(frame(f).0).len(),
{
    assert(frames(stack.push(f)) =~= frames(stack).push(frame(f)));
    assert(frames(stack).push(frame(f)).drop_last() =~= frames(stack));
}

proof fn lemma_finish_push(
    r: Seq<FlatModel>,
    stack: Seq<(Seq<MenuTree>, int)>,
    f: (Seq<MenuTree>, int),
)
    ensures
        finish(r, stack.push(f)) == finish(attach(r, f.0, f.1), stack),
{
    assert(stack.push(f).drop_last() =~= stack);
}

/// The numbers of siblings: the first has the base, the others follow its items.
pub proof fn lemma_sibling_numbers(trees: Seq<MenuTree>, base: int)
    requires
        trees.len() > 0,
    ensures
        sibling_numbers(trees, base) == seq![base] + sibling_numbers(
            trees.drop_first(),
            base + 1 + preorder(trees[0].children).len(),
        ),
{
    let rest = trees.drop_first();
    let next = base + 1 + preorder(trees[0].children).len();
    let whole = seq![base] + sibling_numbers(rest, next);
    assert forall|i: int| 0 <= i < trees.len() implies #[trigger] sibling_numbers(trees, base)[i]
        == whole[i] by {
        let head = trees.take(i);
        if i > 0 {
            assert(head[0] == trees[0]);
            assert(head.drop_first() =~= rest.take(i - 1));
            assert(sibling_numbers(rest, next)[i - 1] == next + preorder(rest.take(i - 1)).len());
        } else {
            assert(preorder(head).len() == 0);
        }
    }
    assert(sibling_numbers(trees, base) =~= whole);
}

/// Nothing to attach changes nothing.
proof fn lemma_attach_nothing(r: Seq<FlatModel>, parent: int)
    requires
        0 <= parent < r.len(),
    ensures
        attach(r, Seq::empty(), parent) == r,
{
    assert(r[parent].children + sibling_numbers(Seq::empty(), r.len() as int)
        =~= r[parent].children);
    assert(attach(r, Seq::empty(), parent) =~= r);
}

/// To attach siblings is to list the first, attach its children to it, and attach the others.
proof fn lemma_attach_step(r: Seq<FlatModel>, rest: Seq<MenuTree>, parent: int)
    requires
        0 <= parent < r.len(),
        rest.len() > 0,
    ensures
        ({
            let n = r.len() as int;
            let entry = FlatModel { children: Seq::empty(), ..item_model(rest[0], n) };
            let listed = with_children(r.push(entry), parent, seq![n]);
            attach(r, rest, parent) == attach(
                attach(listed, rest[0].children, n),
                rest.drop_first(),
                parent,
            )
        }),
{
    let n = r.len() as int;
    let first = rest[0];
    let others = rest.drop_first();
    let entry = FlatModel { children: Seq::empty(), ..item_model(first, n) };
    let listed = with_children(r.push(entry), parent, seq![n]);
    let with_sub = attach(listed, first.children, n);
    let goal = attach(r, rest, parent);
    let got = attach(with_sub, others, parent);
    let next = n + 1 + preorder(first.children).len();
    lemma_sibling_numbers(rest, n);
    assert(with_sub.len() == next);
    assert(preorder(rest).len() == 1 + preorder(first.children).len() + preorder(others).len());
    assert(goal.len() == got.len());
    assert(r[parent].children + (seq![n] + sibling_numbers(others, next)) =~= (r[parent].children
        + seq![n]) + sibling_numbers(others, next));
    assert(got[parent] == goal[parent]);
    assert(Seq::<int>::empty() + sibling_numbers(first.children, n + 1) =~= sibling_numbers(
        first.children,
        n + 1,
    ));
    assert(got[n] == item_model(first, n));
    assert(goal =~= got);
}

/// The items behind an item in the numbering are, first of all, its own.
proof fn lemma_descendants(trees: Seq<MenuTree>, k: int)
    requires
        0 <= k < preorder(trees).len(),
    ensures
        ({
            let own = preorder(preorder(trees)[k].children);
            &&& k + 1 + own.len() <= preorder(trees).len()
            &&& preorder(trees).subrange(k + 1, k + 1 + own.len()) == own
        }),
    decreases trees,
{
    let all = preorder(trees);
    let first = preorder(trees[0].children);
    let others = preorder(trees.drop_first());
    let own = preorder(all[k].children);
    assert(all == seq![trees[0]] + first + others);
    if k == 0 {
        assert(all.subrange(1, 1 + own.len() as int) =~= own);
    } else if k <= first.len() {
        lemma_descendants(trees[0].children, k - 1);
        assert(all[k] == first[k - 1]);
        assert(all.subrange(k + 1, k + 1 + own.len()) =~= first.subrange(k, k + own.len()));
    } else {
        let j = k - 1 - first.len();
        lemma_descendants(trees.drop_first(), j);
        assert(all[k] == others[j]);
        assert(all.subrange(k + 1, k + 1 + own.len()) =~= others.subrange(j + 1, j + 1 + own.len()));
    }
}

/// A sibling comes directly behind the items of its elder siblings.
proof fn lemma_sibling_position(trees: Seq<MenuTree>, i: int)
    requires
        0 <= i < trees.len(),
    ensures
        preorder(trees.take(i)).len() < preorder(trees).len(),
        preorder(trees)[preorder(trees.take(i)).len() as int] == trees[i],
{
    lemma_preorder_append(trees.take(i), trees.skip(i));
    assert(trees.take(i) + trees.skip(i) =~= trees);
    assert(preorder(trees.skip(i))[0] == trees[i]);
}

/// The items of a menu by number are the menu itself and everything in it.
pub proof fn lemma_numbered(trees: Seq<MenuTree>)
    ensures
        numbered(trees) == preorder(seq![menu_root(trees)]),
{
    let root = seq![menu_root(trees)];
    assert(preorder(root.drop_first()) =~= Seq::empty());
    assert(numbered(trees) =~= preorder(root));
}

/// The numbers in the list are right: the item with the number that an entry gives for a child is
/// that child, and it comes behind its parent.
pub proof fn lemma_child_number(trees: Seq<MenuTree>, k: int, i: int)
    requires
        0 <= k < numbered(trees).len(),
        0 <= i < numbered(trees)[k].children.len(),
    ensures
        ({
            let children = numbered(trees)[k].children;
            let number = sibling_numbers(children, k + 1)[i];
            &&& k < number < numbered(trees).len()
            &&& numbered(trees)[number] == children[i]
        }),
{
    let all = numbered(trees);
    let children = all[k].children;
    lemma_numbered(trees);
    lemma_descendants(seq![menu_root(trees)], k);
    lemma_sibling_position(children, i);
    let p = preorder(children.take(i)).len() as int;
    assert(all.subrange(k + 1, k + 1 + preorder(children).len())[p] == all[k + 1 + p]);
}

impl Inner {
    /// The menu as a numbered list, or the empty list without a menu.
    pub fn flatten_items(&self) -> (res: Vec<FlatItem>)
        ensures
            flat_models(res@) == match self@.menu {
                Some(trees) => flat_list(trees),
                None => Seq::empty(),
            },
    {
        let items = match &self.menu {
            Some(m) => &m.items,
            None => {
                let none: Vec<FlatItem> = Vec::new();
                assert(flat_models(none@) =~= Seq::empty());
                return none;
            },
        };
        let ghost target = flat_list(forest(items@));

        let mut result: Vec<FlatItem> = Vec::new();
        result.push(FlatItem::root(items.len()));

        let mut stack: Vec<(&Vec<MenuItemNode>, usize, usize)> = Vec::new();
        proof {
            let start: (&Vec<MenuItemNode>, usize, usize) = (items, 0, 0);
            let trees = forest(items@);
            let r = flat_models(result@);
            lemma_frames_push(stack@, start);
            lemma_finish_push(r, frames(stack@), frame(start));
            assert(trees.skip(0) =~= trees);
            assert(r[0].children + sibling_numbers(trees, 1) =~= sibling_numbers(trees, 1));
            assert(attach(r, trees, 0) =~= target);
        }
        stack.push((items, 0, 0));

        while stack.len() > 0
            invariant
                frames_fit(stack@, result@.len()),
                finish(flat_models(result@), frames(stack@)) == target,
            decreases pending(frames(stack@)), stack.len(),
        {
            let ghost before = stack@;
            let (nodes, start, parent_idx) = stack.pop().unwrap();
            let ghost top = before.last();
            proof {
                assert(before =~= stack@.push(top));
                lemma_frames_push(stack@, top);
                lemma_finish_push(flat_models(result@), frames(stack@), frame(top));
            }
            let ghost popped = stack@;
            let mut pos: usize = start;
            loop
                invariant_except_break
                    stack@ == popped,
                    start <= pos <= nodes.len(),
                    parent_idx < result.len(),
                    frames_fit(stack@, result@.len()),
                    finish(
                        attach(
                            flat_models(result@),
                            forest(nodes@).skip(pos as int),
                            parent_idx as int,
                        ),
                        frames(stack@),
                    ) == target,
                    before.len() == popped.len() + 1,
                    pending(frames(before)) == pending(frames(popped)) + preorder(
                        forest(nodes@).skip(start as int),
                    ).len(),
                    preorder(forest(nodes@).skip(pos as int)).len() <= preorder(
                        forest(nodes@).skip(start as int),
                    ).len() - (pos - start),
                ensures
                    frames_fit(stack@, result@.len()),
                    finish(flat_models(result@), frames(stack@)) == target,
                    pending(frames(stack@)) < pending(frames(before)) || (pending(frames(stack@))
                        == pending(frames(before)) && stack.len() < before.len()),
                decreases nodes.len() - pos,
            {
                if pos >= nodes.len() {
                    proof {
                        assert(forest(nodes@).skip(pos as int) =~= Seq::empty());
                        lemma_attach_nothing(flat_models(result@), parent_idx as int);
                    }
                    break;
                }
                let node = &nodes[pos];
                let idx: usize = result.len();
                let ghost r = flat_models(result@);
                let ghost rest = forest(nodes@).skip(pos as int);
                proof {
                    lemma_attach_step(r, rest, parent_idx as int);
                    lemma_tree_children(*node);
                    assert(rest[0] == node@);
                    assert(rest.drop_first() =~= forest(nodes@).skip(pos + 1));
                }
                result.push(FlatItem::of_node(node, idx));
                let ghost entry = FlatModel {
                    children: Seq::empty(),
                    ..item_model(node@, idx as int)
                };
                assert(flat_models(result@) =~= r.push(entry));
                let ghost pushed = result@;
                result[parent_idx].children.push(idx);
                proof {
                    let listed = with_children(r.push(entry), parent_idx as int, seq![idx as int]);
                    assert(result@[parent_idx as int]@.children
                        =~= pushed[parent_idx as int]@.children + seq![idx as int]);
                    assert(flat_models(result@) =~= listed);
                }
                pos = pos + 1;
                if !node.children.is_empty() {
                    proof {
                        let lower: (&Vec<MenuItemNode>, usize, usize) = (nodes, pos, parent_idx);
                        let upper: (&Vec<MenuItemNode>, usize, usize) = (&node.children, 0, idx);
                        lemma_frames_push(stack@, lower);
                        lemma_frames_push(stack@.push(lower), upper);
                        assert(forest(node.children@).skip(0) =~= node@.children);
                        let listed = flat_models(result@);
                        lemma_finish_push(listed, frames(stack@.push(lower)), frame(upper));
                        lemma_finish_push(
                            attach(listed, node@.children, idx as int),
                            frames(stack@),
                            frame(lower),
                        );
                    }
                    stack.push((nodes, pos, parent_idx));
                    stack.push((&node.children, 0, idx));
                    break;
                }
                proof {
                    assert(node@.children =~= Seq::empty());
                    lemma_attach_nothing(flat_models(result@), idx as int);
                }
            }
        }
        result
    }
}

} // verus!
