//! The menu as the bus sees it: a tree of numbered items with their properties.
use vstd::pervasive::unreached;
use vstd::prelude::*;
use zbus::zvariant::Value;

use crate::flat::{
    flat_list, flat_models, item_model, lemma_child_number, lemma_sibling_numbers, sibling_numbers,
};
use crate::inner::Inner;
use crate::item_properties::item_properties;
use crate::menu::{menu_root, numbered, preorder, texts, MenuTree};
use crate::properties::Properties;
use crate::value::{
    all_hold, layout_structure, value_from_structure, value_holds, value_type, variant, variant_array,
    variant_dict, KeyModel, ValueModel,
};

verus! {

/// One item of the menu on the bus. The children are layouts themselves, each as a value.
#[derive(Debug)]
pub struct Layout {
    pub id: i32,
    pub properties: Properties,
    pub children: Vec<Value<'static>>,
}

/// The content of a [`Layout`].
pub ghost struct LayoutModel {
    pub id: i32,
    pub properties: Map<Seq<char>, ValueModel>,
    pub children: Seq<ValueModel>,
}

impl View for Layout {
    type V = LayoutModel;

    open spec fn view(&self) -> LayoutModel {
        LayoutModel {
            id: self.id,
            properties: self.properties@,
            children: all_hold(self.children@),
        }
    }
}

impl Default for Layout {
    fn default() -> (res: Self)
        ensures
            res@ == (LayoutModel { id: 0, properties: Map::empty(), children: Seq::empty() }),
    {
        let res = Layout { id: 0, properties: Properties::new(), children: Vec::new() };
        assert(res@.children =~= Seq::empty());
        res
    }
}

/// A layout as a value: its number, its properties and its children.
pub open spec fn layout_value(layout: LayoutModel) -> ValueModel {
    ValueModel::Structure(
        seq![
            ValueModel::I32(layout.id),
            ValueModel::Dict(variant_dict(layout.properties)),
            variant_array(layout.children),
        ],
    )
}

impl Layout {
    /// The layout as a D-Bus value.
    pub fn into_value(self) -> (res: Value<'static>)
        ensures
            value_holds(res) == layout_value(self@),
            value_type(res) == "(ia{sv}av)"@,
    {
        value_from_structure(
            layout_structure(self.id, self.properties.into_entries(), self.children),
        )
    }
}

/// Whether items at this depth are shown without their children.
pub open spec fn at_limit(limit: Option<usize>, depth: nat) -> bool {
    limit matches Some(l) && depth >= l
}

/// The layout of the item with this number, at this depth below the menu: the item's properties
/// that the request asks for and, unless the depth limit is reached, its children.
pub open spec fn item_layout(
    tree: MenuTree,
    number: int,
    depth: nat,
    limit: Option<usize>,
    filter: Seq<Seq<char>>,
) -> LayoutModel
    decreases tree, 1nat,
{
    LayoutModel {
        id: number as i32,
        properties: item_properties(item_model(tree, number), filter),
        children: if at_limit(limit, depth) {
            Seq::empty()
        } else {
            layout_children(tree.children, number + 1, depth + 1, limit, filter)
        },
    }
}

/// The layouts of sibling items as values, where `base` is the number of the first.
pub open spec fn layout_children(
    trees: Seq<MenuTree>,
    base: int,
    depth: nat,
    limit: Option<usize>,
    filter: Seq<Seq<char>>,
) -> Seq<ValueModel>
    decreases trees, 0nat,
{
    if trees.len() == 0 {
        Seq::empty()
    } else {
        seq![layout_value(item_layout(trees[0], base, depth, limit, filter))] + layout_children(
            trees.drop_first(),
            base + 1 + preorder(trees[0].children).len(),
            depth,
            limit,
            filter,
        )
    }
}

/// The layout of a whole menu.
pub open spec fn menu_layout(
    trees: Seq<MenuTree>,
    limit: Option<usize>,
    filter: Seq<Seq<char>>,
) -> LayoutModel {
    item_layout(menu_root(trees), 0, 0, limit, filter)
}

/// A task on the work stack: an item to be laid out, or one whose children are laid out already.
ghost struct Task {
    tree: MenuTree,
    number: int,
    depth: nat,
    processed: bool,
}

/// How many of the finished layouts belong to a task as its children.
spec fn own_children(task: Task, limit: Option<usize>) -> nat {
    if at_limit(limit, task.depth) {
        0
    } else {
        task.tree.children.len()
    }
}

/// The finished layouts once a task is done.
spec fn done(
    task: Task,
    finished: Seq<ValueModel>,
    limit: Option<usize>,
    filter: Seq<Seq<char>>,
) -> Seq<ValueModel> {
    if task.processed {
        let split = finished.len() - own_children(task, limit);
        finished.take(split).push(
            layout_value(
                LayoutModel {
                    id: task.number as i32,
                    properties: item_properties(item_model(task.tree, task.number), filter),
                    children: finished.skip(split),
                },
            ),
        )
    } else {
        finished.push(
            layout_value(item_layout(task.tree, task.number, task.depth, limit, filter)),
        )
    }
}

/// The finished layouts once all tasks are done, from the top of the stack down.
spec fn all_done(
    tasks: Seq<Task>,
    finished: Seq<ValueModel>,
    limit: Option<usize>,
    filter: Seq<Seq<char>>,
) -> Seq<ValueModel>
    decreases tasks.len(),
{
    if tasks.len() == 0 {
        finished
    } else {
        all_done(tasks.drop_last(), done(tasks.last(), finished, limit, filter), limit, filter)
    }
}

/// A bound on the steps that the tasks take.
spec fn steps(tasks: Seq<Task>) -> nat
    decreases tasks.len(),
{
    if tasks.len() == 0 {
        0
    } else {
        steps(tasks.drop_last()) + if tasks.last().processed {
            1
        } else {
            2 + 2 * preorder(tasks.last().tree.children).len()
        }
    }
}

/// Whether each task, when its turn comes, finds the layouts of its children among `n` and more
/// finished ones.
spec fn enough(tasks: Seq<Task>, n: int, limit: Option<usize>) -> bool
    decreases tasks.len(),
{
    if tasks.len() == 0 {
        true
    } else if tasks.last().processed {
        &&& n >= own_children(tasks.last(), limit)
        &&& enough(tasks.drop_last(), n - own_children(tasks.last(), limit) + 1, limit)
    } else {
        enough(tasks.drop_last(), n + 1, limit)
    }
}

/// The tasks of laying out siblings, in order.
spec fn sibling_tasks(trees: Seq<MenuTree>, base: int, depth: nat) -> Seq<Task> {
    Seq::new(
        trees.len(),
        |i: int|
            Task {
                tree: trees[i],
                number: sibling_numbers(trees, base)[i],
                depth,
                processed: false,
            },
    )
}

proof fn lemma_task_push(
    tasks: Seq<Task>,
    task: Task,
    finished: Seq<ValueModel>,
    limit: Option<usize>,
    filter: Seq<Seq<char>>,
)
    ensures
        all_done(tasks.push(task), finished, limit, filter) == all_done(
            tasks,
            done(task, finished, limit, filter),
            limit,
            filter,
        ),
        steps(tasks.push(task)) == steps(tasks) + if task.processed {
            1
        } else {
            2 + 2 * preorder(task.tree.children).len()
        },
        enough(tasks.push(task), finished.len() as int, limit) == if task.processed {
            &&& finished.len() >= own_children(task, limit)
            &&& enough(tasks, finished.len() - own_children(task, limit) + 1, limit)
        } else {
            enough(tasks, finished.len() as int + 1, limit)
        },
{
    assert(tasks.push(task).drop_last() =~= tasks);
}

/// Siblings on the stack, the eldest on top, end up as their layouts in order.
proof fn lemma_siblings_done(
    tasks: Seq<Task>,
    trees: Seq<MenuTree>,
    base: int,
    depth: nat,
    finished: Seq<ValueModel>,
    limit: Option<usize>,
    filter: Seq<Seq<char>>,
)
    ensures
        all_done(tasks + sibling_tasks(trees, base, depth).reverse(), finished, limit, filter)
            == all_done(
            tasks,
            finished + layout_children(trees, base, depth, limit, filter),
            limit,
            filter,
        ),
        steps(tasks + sibling_tasks(trees, base, depth).reverse()) == steps(tasks) + 2 * preorder(
            trees,
        ).len(),
        enough(
            tasks + sibling_tasks(trees, base, depth).reverse(),
            finished.len() as int,
            limit,
        ) == enough(tasks, (finished.len() + trees.len()) as int, limit),
    decreases trees.len(),
{
    let siblings = sibling_tasks(trees, base, depth).reverse();
    if trees.len() == 0 {
        assert(tasks + siblings =~= tasks);
        assert(finished + layout_children(trees, base, depth, limit, filter) =~= finished);
    } else {
        let rest = trees.drop_first();
        let next = base + 1 + preorder(trees[0].children).len();
        let first = Task { tree: trees[0], number: base, depth, processed: false };
        let younger = sibling_tasks(rest, next, depth).reverse();
        lemma_sibling_numbers(trees, base);
        assert(siblings =~= younger.push(first));
        assert(tasks + siblings =~= (tasks + younger).push(first));
        lemma_task_push(tasks + younger, first, finished, limit, filter);
        let with_first = done(first, finished, limit, filter);
        lemma_siblings_done(tasks, rest, next, depth, with_first, limit, filter);
        assert(with_first + layout_children(rest, next, depth, limit, filter) =~= finished
            + layout_children(trees, base, depth, limit, filter));
    }
}

/// To lay out an item is to lay out its children and then collect them.
proof fn lemma_task_opens(
    tasks: Seq<Task>,
    task: Task,
    finished: Seq<ValueModel>,
    limit: Option<usize>,
    filter: Seq<Seq<char>>,
)
    requires
        !task.processed,
    ensures
        ({
            let closing = tasks.push(Task { processed: true, ..task });
            let opened = if at_limit(limit, task.depth) {
                closing
            } else {
                closing + sibling_tasks(
                    task.tree.children,
                    task.number + 1,
                    task.depth + 1,
                ).reverse()
            };
            &&& all_done(opened, finished, limit, filter) == all_done(
                tasks.push(task),
                finished,
                limit,
                filter,
            )
            &&& steps(opened) < steps(tasks.push(task))
            &&& enough(opened, finished.len() as int, limit) == enough(
                tasks.push(task),
                finished.len() as int,
                limit,
            )
        }),
{
    let close = Task { processed: true, ..task };
    lemma_task_push(tasks, task, finished, limit, filter);
    if at_limit(limit, task.depth) {
        lemma_task_push(tasks, close, finished, limit, filter);
        assert(finished.take(finished.len() as int) =~= finished);
        assert(finished.skip(finished.len() as int) =~= Seq::empty());
    } else {
        let children = task.tree.children;
        let values = layout_children(children, task.number + 1, task.depth + 1, limit, filter);
        lemma_layout_children_len(children, task.number + 1, task.depth + 1, limit, filter);
        lemma_siblings_done(
            tasks.push(close),
            children,
            task.number + 1,
            task.depth + 1,
            finished,
            limit,
            filter,
        );
        lemma_task_push(tasks, close, finished + values, limit, filter);
        assert((finished + values).take(finished.len() as int) =~= finished);
        assert((finished + values).skip(finished.len() as int) =~= values);
    }
}

proof fn lemma_layout_children_len(
    trees: Seq<MenuTree>,
    base: int,
    depth: nat,
    limit: Option<usize>,
    filter: Seq<Seq<char>>,
)
    ensures
        layout_children(trees, base, depth, limit, filter).len() == trees.len(),
    decreases trees.len(),
{
    if trees.len() > 0 {
        lemma_layout_children_len(
            trees.drop_first(),
            base + 1 + preorder(trees[0].children).len(),
            depth,
            limit,
            filter,
        );
    }
}

/// No two layouts make the same value.
pub proof fn layout_value_is_injective(a: LayoutModel, b: LayoutModel)
    requires
        layout_value(a) == layout_value(b),
    ensures
        a == b,
{
    let fa = layout_value(a)->Structure_0;
    let fb = layout_value(b)->Structure_0;
    assert(fa[0] == fb[0] && fa[1] == fb[1] && fa[2] == fb[2]);
    let da = variant_dict(a.properties);
    let db = variant_dict(b.properties);
    assert(da == db);
    assert forall|name: Seq<char>| #[trigger]
        a.properties.contains_key(name) == b.properties.contains_key(name) by {
        assert(da.contains_key(KeyModel::Str(name)) == db.contains_key(KeyModel::Str(name)));
    }
    assert forall|name: Seq<char>| #[trigger]
        a.properties.contains_key(name) implies a.properties[name] == b.properties[name] by {
        assert(da[KeyModel::Str(name)] == db[KeyModel::Str(name)]);
    }
    assert(a.properties =~= b.properties);
    let ca = variant_array(a.children)->Array_0;
    let cb = variant_array(b.children)->Array_0;
    assert(ca == cb);
    assert(ca.len() == a.children.len() && cb.len() == b.children.len());
    assert forall|i: int| 0 <= i < a.children.len() implies a.children[i] == b.children[i] by {
        assert(ca[i] == cb[i]);
        assert(ca[i] == variant(a.children[i]) && cb[i] == variant(b.children[i]));
    }
    assert(a.children =~= b.children);
}

/// Whether the tasks are about items of the menu, in the numbering of the menu, with the menu
/// itself at the bottom and nowhere else.
spec fn tasks_fit(tasks: Seq<Task>, trees: Seq<MenuTree>) -> bool {
    forall|j: int|
        0 <= j < tasks.len() ==> {
            let task = #[trigger] tasks[j];
            &&& 0 <= task.number < numbered(trees).len()
            &&& task.tree == numbered(trees)[task.number]
            &&& task.depth <= task.number
            &&& task.number == 0 <==> j == 0
        }
}

/// Whether the stack holds exactly these tasks.
spec fn stack_holds(stack: Seq<(usize, usize, bool)>, tasks: Seq<Task>) -> bool {
    &&& stack.len() == tasks.len()
    &&& forall|j: int|
        0 <= j < tasks.len() ==> {
            &&& (#[trigger] stack[j]).0 == tasks[j].number
            &&& stack[j].1 == tasks[j].depth
            &&& stack[j].2 == tasks[j].processed
        }
}

impl Inner {
    /// The layout of the menu below `parent_id`, down to a depth, with the properties that the
    /// request asks for. Only the menu itself can be asked for: for any other parent there is no
    /// layout.
    pub fn build_layout(
        &self,
        parent_id: i32,
        recursion_depth: Option<usize>,
        property_filter: &[String],
    ) -> (res: Option<Layout>)
        requires
            parent_id == 0 ==> self.menu is Some,
        ensures
            res is Some <==> parent_id == 0,
            res matches Some(layout) ==> layout@ == menu_layout(
                self@.menu->0,
                recursion_depth,
                texts(property_filter@),
            ),
    {
        let flat = self.flatten_items();
        if parent_id != 0 {
            return None;
        }
        let ghost trees = self@.menu->0;
        let ghost limit = recursion_depth;
        let ghost filter = texts(property_filter@);
        let ghost target = seq![layout_value(menu_layout(trees, limit, filter))];

        let mut stack: Vec<(usize, usize, bool)> = Vec::new();
        let mut pending_children: Vec<Value<'static>> = Vec::new();
        stack.push((0, 0, false));
        let ghost mut tasks = Seq::<Task>::empty().push(
            Task { tree: menu_root(trees), number: 0, depth: 0, processed: false },
        );
        proof {
            let empty = Seq::<Task>::empty();
            lemma_task_push(empty, tasks[0], all_hold(pending_children@), limit, filter);
            assert(done(tasks[0], all_hold(pending_children@), limit, filter) =~= target);
            assert(all_done(empty, target, limit, filter) == target);
        }

        while stack.len() > 0
            invariant
                parent_id == 0,
                trees == self@.menu->0,
                flat_models(flat@) == flat_list(trees),
                limit == recursion_depth,
                filter == texts(property_filter@),
                target == seq![layout_value(menu_layout(trees, limit, filter))],
                tasks_fit(tasks, trees),
                stack_holds(stack@, tasks),
                stack.len() > 0,
                enough(tasks, pending_children.len() as int, limit),
                all_done(tasks, all_hold(pending_children@), limit, filter) == target,
            decreases steps(tasks),
        {
            let ghost finished = all_hold(pending_children@);
            let ghost task = tasks.last();
            let ghost below = tasks.drop_last();
            let (idx, depth, processed) = stack.pop().unwrap();
            proof {
                assert(tasks =~= below.push(task));
                lemma_task_push(below, task, finished, limit, filter);
                assert(flat_models(flat@).len() == numbered(trees).len());
                assert(flat_models(flat@)[idx as int] == item_model(task.tree, idx as int));
                assert(flat[idx as int]@ == item_model(task.tree, idx as int));
            }
            let item = &flat[idx];
            let reach_limit = match recursion_depth {
                Some(l) => depth >= l,
                None => false,
            };
            if processed {
                let child_count: usize = if reach_limit {
                    0
                } else {
                    item.children.len()
                };
                assert(child_count == own_children(task, limit)) by {
                    assert(item@.children.len() == task.tree.children.len());
                }
                let ghost split = finished.len() - child_count;
                let at: usize = pending_children.len() - child_count;
                let children = pending_children.split_off(at);
                proof {
                    assert(all_hold(children@) =~= finished.skip(split));
                    assert(all_hold(pending_children@) =~= finished.take(split));
                }
                let layout = Layout {
                    id: #[verifier::truncate] (idx as i32),
                    properties: item.to_dbus_map(property_filter),
                    children,
                };
                let ghost result = all_hold(pending_children@).push(layout_value(layout@));
                assert(done(task, finished, limit, filter) == result);
                if idx == 0 {
                    proof {
                        assert(tasks[tasks.len() - 1] == task);
                        assert(below.len() == 0);
                        assert(result == target);
                        assert(result.last() == target.last());
                        layout_value_is_injective(layout@, menu_layout(trees, limit, filter));
                    }
                    return Some(layout);
                }
                pending_children.push(layout.into_value());
                proof {
                    assert(all_hold(pending_children@) =~= result);
                    assert(tasks[tasks.len() - 1] == task);
                    tasks = below;
                }
            } else {
                let ghost close = Task { processed: true, ..task };
                let ghost closing = below.push(close);
                proof {
                    lemma_task_opens(below, task, finished, limit, filter);
                }
                stack.push((idx, depth, true));
                assert(stack_holds(stack@, closing));
                if !reach_limit {
                    let ghost children = task.tree.children;
                    let ghost kids = sibling_tasks(children, idx + 1, depth as nat + 1);
                    let mut k: usize = item.children.len();
                    proof {
                        assert(item@.children.len() == item.children@.len());
                        assert(kids.skip(k as int).reverse() =~= Seq::empty());
                        assert(closing + kids.skip(k as int).reverse() =~= closing);
                        assert(flat.len() == numbered(trees).len());
                    }
                    while k > 0
                        invariant
                            k <= item.children.len(),
                            kids.len() == item.children.len(),
                            item@.children == sibling_numbers(children, idx + 1),
                            depth <= idx,
                            idx < flat.len(),
                            kids == sibling_tasks(children, idx + 1, depth as nat + 1),
                            stack_holds(stack@, closing + kids.skip(k as int).reverse()),
                        decreases k,
                    {
                        k = k - 1;
                        let child_idx = item.children[k];
                        proof {
                            assert(item@.children[k as int] == child_idx);
                            assert(kids.skip(k as int).reverse() =~= kids.skip(
                                k + 1,
                            ).reverse().push(kids[k as int]));
                            assert(closing + kids.skip(k as int).reverse() =~= (closing
                                + kids.skip(k + 1).reverse()).push(kids[k as int]));
                        }
                        stack.push((child_idx, depth + 1, false));
                    }
                    proof {
                        assert(kids.skip(0) =~= kids);
                        let opened = closing + kids.reverse();
                        assert forall|j: int| 0 <= j < opened.len() implies {
                            let t = #[trigger] opened[j];
                            &&& 0 <= t.number < numbered(trees).len()
                            &&& t.tree == numbered(trees)[t.number]
                            &&& t.depth <= t.number
                            &&& t.number == 0 <==> j == 0
                        } by {
                            if j < below.len() {
                                assert(opened[j] == tasks[j]);
                            } else if j == below.len() {
                                assert(opened[j] == close);
                                assert(tasks[j] == task);
                            } else {
                                let i = opened.len() - 1 - j;
                                assert(opened[j] == kids[i]);
                                lemma_child_number(trees, idx as int, i);
                            }
                        }
                        tasks = opened;
                    }
                } else {
                    proof {
                        assert forall|j: int| 0 <= j < closing.len() implies {
                            let t = #[trigger] closing[j];
                            &&& 0 <= t.number < numbered(trees).len()
                            &&& t.tree == numbered(trees)[t.number]
                            &&& t.depth <= t.number
                            &&& t.number == 0 <==> j == 0
                        } by {
                            if j < below.len() {
                                assert(closing[j] == tasks[j]);
                            } else {
                                assert(tasks[j] == task);
                            }
                        }
                        tasks = closing;
                    }
                }
            }
        }
        unreached()
    }
}

/// The content of a layout is what its fields hold.
pub proof fn layouts_are_seen_as_they_are(layout: Layout, i: int)
    requires
        0 <= i < layout.children.len(),
    ensures
        layout@.id == layout.id,
        layout@.properties == layout.properties@,
        layout@.children.len() == layout.children.len(),
        layout@.children[i] == value_holds(layout.children@[i]),
{
}

} // verus!
