//! The menu tree and the numbering of its items.
use vstd::prelude::*;

verus! {

/// The name that the application gave to a menu item.
#[derive(Debug)]
pub struct MenuId(pub String);

impl MenuId {
    /// The menu id with this text.
    pub fn new(id: &str) -> (res: Self)
        ensures
            res.0@ == id@,
    {
        MenuId(id.to_string())
    }
}

/// One item of the application's menu, as far as the tray shows it.
pub enum MenuItemKind {
    MenuItem { id: MenuId, text: String, enabled: bool },
    Submenu { id: MenuId, text: String, enabled: bool, items: Vec<MenuItemKind> },
    Predefined { id: MenuId, text: String },
    Check { id: MenuId, text: String, enabled: bool, checked: bool },
    Icon { id: MenuId, text: String, enabled: bool },
}

/// What the application hands over as the tray's context menu.
pub enum ContextMenu {
    Menu(Vec<MenuItemKind>),
    Submenu(Vec<MenuItemKind>),
}

impl ContextMenu {
    /// The items, if this is a menu and not a submenu.
    pub open spec fn spec_as_menu(&self) -> Option<&Vec<MenuItemKind>> {
        match self {
            ContextMenu::Menu(items) => Some(items),
            ContextMenu::Submenu(_) => None,
        }
    }

    /// The items, if this is a menu and not a submenu.
    pub fn as_menu(&self) -> (res: Option<&Vec<MenuItemKind>>)
        ensures
            res == self.spec_as_menu(),
    {
        match self {
            ContextMenu::Menu(items) => Some(items),
            ContextMenu::Submenu(_) => None,
        }
    }
}

/// One item of the menu that the tray shows.
#[derive(Debug)]
pub struct MenuItemNode {
    pub id: MenuId,
    pub label: String,
    pub enabled: bool,
    pub checked: Option<bool>,
    pub is_separator: bool,
    pub is_submenu: bool,
    pub children: Vec<MenuItemNode>,
}

/// The menu that the tray shows, as it was at one moment.
#[derive(Debug)]
pub struct MenuSnapshot {
    pub items: Vec<MenuItemNode>,
}

/// The content of a [`MenuItemNode`].
pub ghost struct MenuTree {
    pub id: Seq<char>,
    pub label: Seq<char>,
    pub enabled: bool,
    pub checked: Option<bool>,
    pub is_separator: bool,
    pub is_submenu: bool,
    pub children: Seq<MenuTree>,
}

impl View for MenuItemNode {
    type V = MenuTree;

    open spec fn view(&self) -> MenuTree
        decreases self,
    {
        MenuTree {
            id: self.id.0@,
            label: self.label@,
            enabled: self.enabled,
            checked: self.checked,
            is_separator: self.is_separator,
            is_submenu: self.is_submenu,
            children: Seq::new(
                self.children@.len(),
                |i: int|
                    if 0 <= i < self.children@.len() {
                        self.children@[i].view()
                    } else {
                        arbitrary()
                    },
            ),
        }
    }
}

/// The contents of a list of menu items.
pub open spec fn forest(nodes: Seq<MenuItemNode>) -> Seq<MenuTree> {
    Seq::new(nodes.len(), |i: int| nodes[i]@)
}

/// The children of an item's content are the contents of its children.
pub proof fn lemma_tree_children(node: MenuItemNode)
    ensures
        node@.children == forest(node.children@),
{
    reveal_with_fuel(<MenuItemNode as View>::view, 2);
    assert(node@.children =~= forest(node.children@));
}

impl Clone for MenuId {
    fn clone(&self) -> (res: Self)
        ensures
            res == *self,
    {
        MenuId(self.0.clone())
    }
}

impl Clone for MenuItemNode {
    fn clone(&self) -> (res: Self)
        ensures
            res@ == self@,
        decreases self,
    {
        let mut children: Vec<MenuItemNode> = Vec::new();
        let mut i: usize = 0;
        while i < self.children.len()
            invariant
                i <= self.children.len(),
                children.len() == i,
                forall|j: int| 0 <= j < i ==> (#[trigger] children[j])@ == self.children[j]@,
            decreases self.children.len() - i,
        {
            assert(decreases_to!(self => self.children@[i as int]));
            children.push(self.children[i].clone());
            i = i + 1;
        }
        let res = MenuItemNode {
            id: self.id.clone(),
            label: self.label.clone(),
            enabled: self.enabled,
            checked: self.checked,
            is_separator: self.is_separator,
            is_submenu: self.is_submenu,
            children,
        };
        proof {
            lemma_tree_children(res);
            lemma_tree_children(*self);
            assert(res@.children =~= self@.children);
        }
        res
    }
}

impl Clone for MenuSnapshot {
    fn clone(&self) -> (res: Self)
        ensures
            forest(res.items@) == forest(self.items@),
    {
        let mut items: Vec<MenuItemNode> = Vec::new();
        let mut i: usize = 0;
        while i < self.items.len()
            invariant
                i <= self.items.len(),
                items.len() == i,
                forall|j: int| 0 <= j < i ==> (#[trigger] items[j])@ == self.items[j]@,
            decreases self.items.len() - i,
        {
            items.push(self.items[i].clone());
            i = i + 1;
        }
        assert(forest(items@) =~= forest(self.items@));
        MenuSnapshot { items }
    }
}

/// What the tray shows for one item of the application's menu. A predefined item counts as a
/// separator exactly if it has no text.
pub open spec fn kind_tree(kind: MenuItemKind) -> MenuTree
    decreases kind,
{
    match kind {
        MenuItemKind::MenuItem { id, text, enabled } => leaf(id.0@, text@, enabled, None, false),
        MenuItemKind::Check { id, text, enabled, checked } => leaf(
            id.0@,
            text@,
            enabled,
            Some(checked),
            false,
        ),
        MenuItemKind::Icon { id, text, enabled } => leaf(id.0@, text@, enabled, None, false),
        MenuItemKind::Predefined { id, text } => leaf(id.0@, text@, true, None, text@.len() == 0),
        MenuItemKind::Submenu { id, text, enabled, items } => MenuTree {
            id: id.0@,
            label: text@,
            enabled,
            checked: None,
            is_separator: false,
            is_submenu: true,
            children: Seq::new(
                items@.len(),
                |i: int|
                    if 0 <= i < items@.len() {
                        kind_tree(items@[i])
                    } else {
                        arbitrary()
                    },
            ),
        },
    }
}

/// An item without children that is no submenu.
pub open spec fn leaf(
    id: Seq<char>,
    label: Seq<char>,
    enabled: bool,
    checked: Option<bool>,
    is_separator: bool,
) -> MenuTree {
    MenuTree {
        id,
        label,
        enabled,
        checked,
        is_separator,
        is_submenu: false,
        children: Seq::empty(),
    }
}

/// What the tray shows for a list of items of the application's menu.
pub open spec fn kind_trees(kinds: Seq<MenuItemKind>) -> Seq<MenuTree> {
    Seq::new(kinds.len(), |i: int| kind_tree(kinds[i]))
}

/// Reads the application's menu into the tree that the tray shows.
pub fn build_menu_tree(items: &Vec<MenuItemKind>) -> (res: Vec<MenuItemNode>)
    ensures
        forest(res@) == kind_trees(items@),
        res.len() == items.len(),
        forall|i: int|
            0 <= i < items.len() ==> match items@[i] {
                MenuItemKind::MenuItem { id, text, enabled } => {
                    &&& (#[trigger] res@[i]).id.0@ == id.0@
                    &&& res@[i].label@ == text@
                    &&& res@[i].enabled == enabled
                    &&& res@[i].checked is None
                    &&& !res@[i].is_separator
                    &&& !res@[i].is_submenu
                },
                MenuItemKind::Check { id, text, enabled, checked } => {
                    &&& res@[i].id.0@ == id.0@
                    &&& res@[i].label@ == text@
                    &&& res@[i].enabled == enabled
                    &&& res@[i].checked == Some(checked)
                    &&& !res@[i].is_separator
                    &&& !res@[i].is_submenu
                },
                MenuItemKind::Icon { id, text, enabled } => {
                    &&& res@[i].id.0@ == id.0@
                    &&& res@[i].label@ == text@
                    &&& res@[i].enabled == enabled
                    &&& res@[i].checked is None
                    &&& !res@[i].is_separator
                    &&& !res@[i].is_submenu
                },
                MenuItemKind::Predefined { id, text } => {
                    &&& res@[i].id.0@ == id.0@
                    &&& res@[i].label@ == text@
                    &&& res@[i].enabled
                    &&& res@[i].checked is None
                    &&& res@[i].is_separator == (text@.len() == 0)
                    &&& !res@[i].is_submenu
                },
                MenuItemKind::Submenu { id, text, enabled, items: sub } => {
                    &&& res@[i].id.0@ == id.0@
                    &&& res@[i].label@ == text@
                    &&& res@[i].enabled == enabled
                    &&& res@[i].checked is None
                    &&& !res@[i].is_separator
                    &&& res@[i].is_submenu
                    &&& res@[i].children.len() == sub.len()
                },
            },
    decreases items,
{
    let mut res: Vec<MenuItemNode> = Vec::new();
    let mut i: usize = 0;
    while i < items.len()
        invariant
            i <= items.len(),
            res.len() == i,
            forall|j: int| 0 <= j < i ==> (#[trigger] res[j])@ == kind_tree(items[j]),
        decreases items.len() - i,
    {
        assert(decreases_to!(items => items@[i as int]));
        let node = match &items[i] {
            MenuItemKind::MenuItem { id, text, enabled } => MenuItemNode {
                id: id.clone(),
                label: text.clone(),
                enabled: *enabled,
                checked: None,
                is_separator: false,
                is_submenu: false,
                children: Vec::new(),
            },
            MenuItemKind::Check { id, text, enabled, checked } => MenuItemNode {
                id: id.clone(),
                label: text.clone(),
                enabled: *enabled,
                checked: Some(*checked),
                is_separator: false,
                is_submenu: false,
                children: Vec::new(),
            },
            MenuItemKind::Icon { id, text, enabled } => MenuItemNode {
                id: id.clone(),
                label: text.clone(),
                enabled: *enabled,
                checked: None,
                is_separator: false,
                is_submenu: false,
                children: Vec::new(),
            },
            MenuItemKind::Predefined { id, text } => MenuItemNode {
                id: id.clone(),
                label: text.clone(),
                enabled: true,
                checked: None,
                is_separator: text.as_str().is_empty(),
                is_submenu: false,
                children: Vec::new(),
            },
            MenuItemKind::Submenu { id, text, enabled, items: sub } => MenuItemNode {
                id: id.clone(),
                label: text.clone(),
                enabled: *enabled,
                checked: None,
                is_separator: false,
                is_submenu: true,
                children: build_menu_tree(sub),
            },
        };
        proof {
            lemma_tree_children(node);
            lemma_kind_children(items[i as int]);
            assert(node@.children =~= kind_tree(items[i as int]).children);
        }
        res.push(node);
        i = i + 1;
    }
    assert(forest(res@) =~= kind_trees(items@));
    proof {
        assert forall|i: int| 0 <= i < items.len() implies (#[trigger] res@[i])@.children
            == forest(res@[i].children@) by {
            lemma_tree_children(res@[i]);
        }
        assert forall|i: int| 0 <= i < items.len() implies res@[i]@ == kind_tree(items@[i]) by {}
        assert forall|i: int| 0 <= i < items.len() implies (match #[trigger] items@[i] {
            MenuItemKind::Submenu { items: sub, .. } => res@[i].children.len() == sub.len(),
            _ => true,
        }) by {
            lemma_kind_children(items@[i]);
            lemma_tree_children(res@[i]);
            assert(forest(res@[i].children@).len() == res@[i].children.len());
        }
    }
    res
}

/// The children of what the tray shows for an item are what it shows for the item's own items.
proof fn lemma_kind_children(kind: MenuItemKind)
    ensures
        kind matches MenuItemKind::Submenu { items, .. } ==> kind_tree(kind).children == kind_trees(
            items@,
        ),
{
    reveal_with_fuel(kind_tree, 2);
    if let MenuItemKind::Submenu { items, .. } = kind {
        assert(kind_tree(kind).children =~= kind_trees(items@));
    }
}

/// The items of a menu in the order in which they are numbered: each item directly before its own
/// children, and these before the next item.
pub open spec fn preorder(trees: Seq<MenuTree>) -> Seq<MenuTree>
    decreases trees,
{
    if trees.len() == 0 {
        Seq::empty()
    } else {
        seq![trees[0]] + preorder(trees[0].children) + preorder(trees.drop_first())
    }
}

/// The menu itself, seen as an item: without name and text, with the menu's items as children.
pub open spec fn menu_root(trees: Seq<MenuTree>) -> MenuTree {
    MenuTree {
        id: Seq::empty(),
        label: Seq::empty(),
        enabled: true,
        checked: None,
        is_separator: false,
        is_submenu: true,
        children: trees,
    }
}

/// The items of a menu by number. Number 0 is the menu itself.
pub open spec fn numbered(trees: Seq<MenuTree>) -> Seq<MenuTree> {
    seq![menu_root(trees)] + preorder(trees)
}

/// The names of the items of a menu by number.
pub open spec fn item_ids(trees: Seq<MenuTree>) -> Seq<Seq<char>> {
    numbered(trees).map_values(|t: MenuTree| t.id)
}

/// The texts of a list of strings.
pub open spec fn texts(strings: Seq<String>) -> Seq<Seq<char>> {
    Seq::new(strings.len(), |i: int| strings[i]@)
}

/// The numbering of two lists one after the other.
pub proof fn lemma_preorder_append(a: Seq<MenuTree>, b: Seq<MenuTree>)
    ensures
        preorder(a + b) == preorder(a) + preorder(b),
    decreases a.len(),
{
    if a.len() == 0 {
        assert(a + b =~= b);
        assert(preorder(a) + preorder(b) =~= preorder(b));
    } else {
        lemma_preorder_append(a.drop_first(), b);
        assert((a + b).drop_first() =~= a.drop_first() + b);
        assert(preorder(a + b) =~= preorder(a) + preorder(b));
    }
}

/// The numbering of a list and one more item behind it.
pub proof fn lemma_preorder_push(a: Seq<MenuTree>, t: MenuTree)
    ensures
        preorder(a.push(t)) == preorder(a).push(t) + preorder(t.children),
{
    lemma_preorder_append(a, seq![t]);
    assert(a.push(t) =~= a + seq![t]);
    assert(preorder(seq![t].drop_first()) =~= Seq::empty());
    assert(preorder(seq![t]) =~= seq![t] + preorder(t.children));
    assert(preorder(a.push(t)) =~= preorder(a).push(t) + preorder(t.children));
}

/// The names of all items of a menu, by number.
pub fn flatten_ids(items: &[MenuItemNode]) -> (res: Vec<String>)
    ensures
        texts(res@) == item_ids(forest(items@)),
{
    let mut result: Vec<String> = Vec::new();
    result.push(String::new());
    flatten_ids_recurse(items, &mut result);
    assert(texts(result@) =~= item_ids(forest(items@)));
    result
}

/// Appends the names of all items of a menu, in the order of their numbers.
pub fn flatten_ids_recurse(items: &[MenuItemNode], result: &mut Vec<String>)
    ensures
        texts(final(result)@) == texts(old(result)@) + preorder(forest(items@)).map_values(
            |t: MenuTree| t.id,
        ),
    decreases items@,
{
    let ghost trees = forest(items@);
    let ghost id_of = |t: MenuTree| t.id;
    let mut i: usize = 0;
    assert(trees.take(0) =~= Seq::empty());
    assert(texts(result@) =~= texts(result@) + preorder(trees.take(0)).map_values(id_of));
    while i < items.len()
        invariant
            i <= items.len(),
            trees == forest(items@),
            id_of == (|t: MenuTree| t.id),
            texts(result@) == texts(old(result)@) + preorder(trees.take(i as int)).map_values(
                id_of,
            ),
        decreases items.len() - i,
    {
        let ghost before = result@;
        let item = &items[i];
        result.push(item.id.0.clone());
        proof {
            lemma_tree_children(*item);
            lemma_preorder_push(trees.take(i as int), trees[i as int]);
            assert(trees.take(i as int).push(trees[i as int]) =~= trees.take(i + 1));
            assert(texts(result@) =~= texts(before).push(item@.id));
        }
        if !item.children.is_empty() {
            assert(decreases_to!(items@ => items@[i as int]));
            flatten_ids_recurse(item.children.as_slice(), result);
        } else {
            assert(preorder(item@.children) =~= Seq::empty());
        }
        proof {
            assert(texts(result@) =~= texts(old(result)@) + preorder(
                trees.take(i + 1),
            ).map_values(id_of));
        }
        i = i + 1;
    }
    assert(trees.take(items.len() as int) =~= trees);
}

} // verus!
