use vstd::prelude::*;
use crate::rect::Rect;
use crate::text::same_text;
use crate::window::Window;

verus! {

/// How a container shows its children.
#[derive(Debug, Clone, Copy, PartialEq, Eq, Structural)]
pub enum Layout {
    /// Every child, and every floating child, is on screen at once.
    AllVisible,
    /// Only the focused child is on screen.
    OneVisible,
    /// Nothing in the container takes part in navigation.
    Skipped,
    /// The combination of type and layout is not recognised.
    Invalid,
}

/// A node of the window manager's layout tree.
#[derive(Debug, PartialEq, Eq)]
pub struct Node {
    pub id: u64,
    pub name: Option<String>,
    pub type_: String,
    pub layout: String,
    pub nodes: Vec<Node>,
    pub floating_nodes: Vec<Node>,
    pub rect: Rect,
    /// Identifiers of the children, most recently focused first.
    pub focus: Vec<u64>,
    pub focused: bool,
}

/// The node is a window: it has no children and is a container or a floating container.
pub open spec fn is_leaf_spec(n: Node) -> bool {
    &&& n.nodes@.len() == 0
    &&& (n.type_@ == "con"@ || n.type_@ == "floating_con"@)
}

/// The node is the container that holds the workspaces of an output.
pub open spec fn is_content_spec(n: Node) -> bool {
    &&& n.type_@ == "con"@
    &&& (n.name matches Some(s) && s@ == "content"@)
    &&& !is_leaf_spec(n)
}

/// The node has zero width and zero height.
pub open spec fn is_invisible_spec(n: Node) -> bool {
    n.rect.is_invisible_spec()
}

/// The classification of a node by its type and layout.
pub open spec fn layout_spec(n: Node) -> Layout {
    if is_content_spec(n) || n.layout@ == "stacked"@ || n.layout@ == "tabbed"@ {
        Layout::OneVisible
    } else if (n.layout@ == "splith"@ || n.layout@ == "splitv"@ || n.layout@ == "output"@) && (
    n.type_@ == "workspace"@ || n.type_@ == "root"@ || n.type_@ == "output"@ || n.type_@
        == "con"@) {
        Layout::AllVisible
    } else if n.layout@ == "dockarea"@ {
        Layout::Skipped
    } else {
        Layout::Invalid
    }
}

/// The node is a tab or stack container: its layout is tabbed or stacked, whatever its type
/// and name. Such a node shows one child at a time. The content container of an output has
/// a split layout, so a layout of splits alone has no tabs.
pub open spec fn is_tab_container_spec(n: Node) -> bool {
    n.layout@ == "tabbed"@ || n.layout@ == "stacked"@
}

/// The first position in `s` of a node with identifier `id`.
pub open spec fn index_of_id(s: Seq<Node>, id: u64) -> Option<int>
    decreases s.len(),
{
    if s.len() == 0 {
        None
    } else {
        match index_of_id(s.subrange(0, s.len() - 1), id) {
            Some(i) => Some(i),
            None => if s[s.len() - 1].id == id {
                Some(s.len() - 1)
            } else {
                None
            },
        }
    }
}

/// The position of the child that the node's focus list names first, if the node is no
/// leaf, has a focus list, and has such a child.
pub open spec fn focused_index_spec(n: Node) -> Option<int> {
    if is_leaf_spec(n) || n.focus@.len() == 0 {
        None
    } else {
        index_of_id(n.nodes@, n.focus@[0])
    }
}

/// The visible nodes under `n`: leaves of non-zero size that are on screen, and the
/// floating children of containers that show all their children.
pub open spec fn visible_spec(n: Node) -> Seq<Node>
    decreases n,
{
    if is_leaf_spec(n) {
        if is_invisible_spec(n) {
            Seq::empty()
        } else {
            seq![n]
        }
    } else {
        match layout_spec(n) {
            Layout::AllVisible => n.floating_nodes@ + visible_seq(n.nodes@),
            Layout::OneVisible => match focused_index_spec(n) {
                Some(i) => if 0 <= i < n.nodes@.len() {
                    visible_spec(n.nodes@[i])
                } else {
                    Seq::empty()
                },
                None => Seq::empty(),
            },
            _ => Seq::empty(),
        }
    }
}

/// The visible nodes under each node of `s`, in order.
pub open spec fn visible_seq(s: Seq<Node>) -> Seq<Node>
    decreases s,
{
    if s.len() == 0 {
        Seq::empty()
    } else {
        visible_seq(s.subrange(0, s.len() - 1)) + visible_spec(s[s.len() - 1])
    }
}

/// The child that the node's focus list names first.
pub open spec fn focused_child_spec(n: Node) -> Option<Node> {
    match focused_index_spec(n) {
        Some(i) => if 0 <= i < n.nodes@.len() {
            Some(n.nodes@[i])
        } else {
            None
        },
        None => None,
    }
}

/// The deepest node reached by following the focused children down from `n` (not `n`
/// itself); `None` when `n` has no focused child.
pub open spec fn deepest_focused_spec(n: Node) -> Option<Node>
    decreases n,
{
    match focused_index_spec(n) {
        Some(i) => if 0 <= i < n.nodes@.len() {
            match deepest_focused_spec(n.nodes@[i]) {
                Some(d) => Some(d),
                None => Some(n.nodes@[i]),
            }
        } else {
            None
        },
        None => None,
    }
}

/// The deepest tab or stack container on the chain of focused children
/// that starts at `n` and holds a focused child; `None` when there is none.
pub open spec fn deepest_focused_tabbed_spec(n: Node) -> Option<Node>
    decreases n,
{
    match focused_index_spec(n) {
        Some(i) => if 0 <= i < n.nodes@.len() {
            match deepest_focused_tabbed_spec(n.nodes@[i]) {
                Some(t) => Some(t),
                None => if is_tab_container_spec(n) {
                    Some(n)
                } else {
                    None
                },
            }
        } else {
            None
        },
        None => None,
    }
}

/// What a tab stands for: its deepest focused node, or the tab itself when it has none.
pub open spec fn tab_target(tab: Node) -> Node {
    match deepest_focused_spec(tab) {
        Some(d) => d,
        None => tab,
    }
}

/// The tabs of the deepest tab or stack container on the focus chain of `n`, each by
/// what it stands for, in tab order; empty when there is no such container.
pub open spec fn tabs_spec(n: Node) -> Seq<Node> {
    match deepest_focused_tabbed_spec(n) {
        Some(t) => t.nodes@.map_values(|tab: Node| tab_target(tab)),
        None => Seq::empty(),
    }
}

/// The nodes that the references point to.
pub open spec fn deref_all(s: Seq<&Node>) -> Seq<Node> {
    s.map_values(|x: &Node| *x)
}

/// `r` points to the node that `s` holds, or is `None` with `s`.
pub open spec fn points_to(r: Option<&Node>, s: Option<Node>) -> bool {
    match r {
        Some(x) => s == Some(*x),
        None => s is None,
    }
}

proof fn lemma_index_of_id(s: Seq<Node>, id: u64)
    ensures
        match index_of_id(s, id) {
            Some(i) => 0 <= i < s.len() && s[i].id == id && forall|j: int|
                0 <= j < i ==> (#[trigger] s[j]).id != id,
            None => forall|j: int| 0 <= j < s.len() ==> (#[trigger] s[j]).id != id,
        },
    decreases s.len(),
{
    if s.len() > 0 {
        let t = s.subrange(0, s.len() - 1);
        lemma_index_of_id(t, id);
        assert forall|j: int| 0 <= j < t.len() implies t[j] == s[j] by {}
    }
}

proof fn lemma_deref_concat(a: Seq<&Node>, b: Seq<&Node>)
    ensures
        deref_all(a + b) == deref_all(a) + deref_all(b),
{
    assert(deref_all(a + b) =~= deref_all(a) + deref_all(b));
}

impl Node {
    /// Whether the node is a window: no children, and a container or floating container.
    pub fn is_leaf(&self) -> (r: bool)
        ensures
            r == is_leaf_spec(*self),
    {
        self.nodes.len() == 0 && (same_text(self.type_.as_str(), "con") || same_text(
            self.type_.as_str(),
            "floating_con",
        ))
    }

    /// Whether the node is the container that holds the workspaces of an output.
    pub fn is_content(&self) -> (r: bool)
        ensures
            r == is_content_spec(*self),
    {
        let named = match &self.name {
            Some(s) => same_text(s.as_str(), "content"),
            None => false,
        };
        same_text(self.type_.as_str(), "con") && named && !self.is_leaf()
    }

    /// Whether the node has zero width and zero height.
    pub fn is_invisible(&self) -> (r: bool)
        ensures
            r == is_invisible_spec(*self),
    {
        self.rect.w == 0 && self.rect.h == 0
    }

    /// Whether the node is a floating container.
    pub fn is_floating(&self) -> (r: bool)
        ensures
            r == (self.type_@ == "floating_con"@),
    {
        same_text(self.type_.as_str(), "floating_con")
    }

    /// The classification of the node by its type and layout.
    pub fn get_layout(&self) -> (r: Layout)
        ensures
            r == layout_spec(*self),
    {
        let layout = self.layout.as_str();
        let kind = self.type_.as_str();
        if self.is_content() || same_text(layout, "stacked") || same_text(layout, "tabbed") {
            Layout::OneVisible
        } else if (same_text(layout, "splith") || same_text(layout, "splitv") || same_text(
            layout,
            "output",
        )) && (same_text(kind, "workspace") || same_text(kind, "root") || same_text(
            kind,
            "output",
        ) || same_text(kind, "con")) {
            Layout::AllVisible
        } else if same_text(layout, "dockarea") {
            Layout::Skipped
        } else {
            Layout::Invalid
        }
    }

    /// Whether the node is a tab or stack container: its layout is tabbed or stacked.
    pub fn is_tab_container(&self) -> (r: bool)
        ensures
            r == is_tab_container_spec(*self),
    {
        let layout = self.layout.as_str();
        same_text(layout, "tabbed") || same_text(layout, "stacked")
    }

    /// The child whose identifier comes first in the focus list; `None` for a leaf, for an
    /// empty focus list, and when no child has that identifier.
    pub fn focused_subnode(&self) -> (r: Option<&Node>)
        ensures
            points_to(r, focused_child_spec(*self)),
    {
        if self.is_leaf() || self.focus.len() == 0 {
            return None;
        }
        let id = self.focus[0];
        proof {
            lemma_index_of_id(self.nodes@, id);
        }
        let mut i: usize = 0;
        while i < self.nodes.len()
            invariant
                !is_leaf_spec(*self),
                self.focus@.len() > 0,
                id == self.focus@[0],
                match index_of_id(self.nodes@, id) {
                    Some(k) => 0 <= k < self.nodes@.len() && self.nodes@[k].id == id && forall|j: int|
                        0 <= j < k ==> (#[trigger] self.nodes@[j]).id != id,
                    None => forall|j: int| 0 <= j < self.nodes@.len() ==> (#[trigger] self.nodes@[j]).id != id,
                },
                i <= self.nodes@.len(),
                forall|j: int| 0 <= j < i ==> (#[trigger] self.nodes@[j]).id != id,
            decreases self.nodes@.len() - i,
        {
            if self.nodes[i].id == id {
                assert(index_of_id(self.nodes@, id) == Some(i as int));
                return Some(&self.nodes[i]);
            }
            i = i + 1;
        }
        None
    }

    /// The deepest node on the chain of focused children below this one; `None` when this
    /// node has no focused child.
    pub fn find_deepest_focused(&self) -> (r: Option<&Node>)
        ensures
            points_to(r, deepest_focused_spec(*self)),
        decreases self,
    {
        match self.focused_subnode() {
            None => None,
            Some(sub) => {
                proof {
                    lemma_focused_child(*self);
                }
                match sub.find_deepest_focused() {
                    Some(deepest) => Some(deepest),
                    None => Some(sub),
                }
            },
        }
    }

    /// The deepest tab or stack container (tabbed or stacked layout) on the chain of focused
    /// children from this node on that holds a focused child; `None` when there is none.
    pub fn find_deepest_focused_tabbed(&self) -> (r: Option<&Node>)
        ensures
            points_to(r, deepest_focused_tabbed_spec(*self)),
        decreases self,
    {
        match self.focused_subnode() {
            None => None,
            Some(sub) => {
                proof {
                    lemma_focused_child(*self);
                }
                match sub.find_deepest_focused_tabbed() {
                    Some(tabnode) => Some(tabnode),
                    None => if self.is_tab_container() {
                        Some(self)
                    } else {
                        None
                    },
                }
            },
        }
    }

    /// The nodes on screen under this one: a leaf of non-zero size stands for itself; a
    /// container that shows all its children gives its floating children, then the visible
    /// nodes under each child in order; a tabbed or stacked container gives those under its
    /// focused child; any other node gives nothing.
    pub fn visible_nodes(&self) -> (r: Vec<&Node>)
        ensures
            deref_all(r@) == visible_spec(*self),
        decreases self,
    {
        if self.is_leaf() {
            let mut r: Vec<&Node> = Vec::new();
            if !self.is_invisible() {
                r.push(self);
            }
            assert(deref_all(r@) =~= visible_spec(*self));
            return r;
        }
        match self.get_layout() {
            Layout::AllVisible => {
                let mut nodes: Vec<&Node> = Vec::new();
                let mut i: usize = 0;
                while i < self.floating_nodes.len()
                    invariant
                        i <= self.floating_nodes@.len(),
                        deref_all(nodes@) =~= self.floating_nodes@.take(i as int),
                    decreases self.floating_nodes@.len() - i,
                {
                    let ghost before = nodes@;
                    let f = &self.floating_nodes[i];
                    nodes.push(f);
                    proof {
                        assert(nodes@ == before.push(f));
                        assert(deref_all(before.push(f)) =~= deref_all(before).push(*f));
                    }
                    i = i + 1;
                    assert(deref_all(nodes@) =~= self.floating_nodes@.take(i as int));
                }
                assert(self.floating_nodes@.take(i as int) =~= self.floating_nodes@);
                let mut j: usize = 0;
                while j < self.nodes.len()
                    invariant
                        j <= self.nodes@.len(),
                        deref_all(nodes@) == self.floating_nodes@ + visible_seq(
                            self.nodes@.take(j as int),
                        ),
                    decreases self.nodes@.len() - j,
                {
                    let mut sub = self.nodes[j].visible_nodes();
                    let ghost before = nodes@;
                    let ghost added = sub@;
                    nodes.append(&mut sub);
                    proof {
                        lemma_deref_concat(before, added);
                        let t = self.nodes@.take(j + 1);
                        assert(t.subrange(0, t.len() - 1) =~= self.nodes@.take(j as int));
                        assert(t[t.len() - 1] == self.nodes@[j as int]);
                    }
                    j = j + 1;
                }
                assert(self.nodes@.take(j as int) =~= self.nodes@);
                nodes
            },
            Layout::OneVisible => {
                proof {
                    lemma_focused_child(*self);
                }
                match self.focused_subnode() {
                    Some(sub) => sub.visible_nodes(),
                    None => Vec::new(),
                }
            },
            _ => Vec::new(),
        }
    }

    /// The tabs of the deepest tab or stack container that holds the focus,
    /// each given by its deepest focused node, or by itself when it has none; empty when no
    /// such container holds the focus.
    pub fn available_tabs(&self) -> (r: Vec<&Node>)
        ensures
            deref_all(r@) == tabs_spec(*self),
    {
        match self.find_deepest_focused_tabbed() {
            Some(subnode) => {
                let mut tabs: Vec<&Node> = Vec::new();
                let mut i: usize = 0;
                while i < subnode.nodes.len()
                    invariant
                        i <= subnode.nodes@.len(),
                        deref_all(tabs@) =~= subnode.nodes@.take(i as int).map_values(
                            |tab: Node| tab_target(tab),
                        ),
                    decreases subnode.nodes@.len() - i,
                {
                    let tab = &subnode.nodes[i];
                    let target = match tab.find_deepest_focused() {
                        Some(deepest) => deepest,
                        None => tab,
                    };
                    let ghost before = tabs@;
                    tabs.push(target);
                    proof {
                        assert(deref_all(before.push(target)) =~= deref_all(before).push(*target));
                        assert(*target == tab_target(subnode.nodes@[i as int]));
                    }
                    i = i + 1;
                    assert(deref_all(tabs@) =~= subnode.nodes@.take(i as int).map_values(
                        |tab: Node| tab_target(tab),
                    ));
                }
                assert(subnode.nodes@.take(i as int) =~= subnode.nodes@);
                tabs
            },
            None => Vec::new(),
        }
    }
}

/// The focused child of a node is one of its children.
proof fn lemma_focused_child(n: Node)
    ensures
        match focused_index_spec(n) {
            Some(i) => 0 <= i < n.nodes@.len() && focused_child_spec(n) == Some(n.nodes@[i]),
            None => focused_child_spec(n) is None,
        },
{
    if focused_index_spec(n) is Some {
        lemma_index_of_id(n.nodes@, n.focus@[0]);
    }
}

/// The window record of a node. A floating container takes its focus from its first
/// child, which holds the window; any other node has its own.
pub open spec fn window_of(n: Node) -> Window {
    let floating = n.type_@ == "floating_con"@;
    Window {
        id: n.id,
        rect: n.rect,
        focused: if floating {
            n.nodes@.len() > 0 && n.nodes@[0].focused
        } else {
            n.focused
        },
        floating,
    }
}

/// The window records of the nodes of `s` that have a non-zero size, in order.
pub open spec fn windows_of(s: Seq<Node>) -> Seq<Window>
    decreases s.len(),
{
    if s.len() == 0 {
        Seq::empty()
    } else {
        let rest = windows_of(s.subrange(0, s.len() - 1));
        if is_invisible_spec(s[s.len() - 1]) {
            rest
        } else {
            rest.push(window_of(s[s.len() - 1]))
        }
    }
}

impl Node {
    /// The window record of this node.
    pub fn to_window(&self) -> (r: Window)
        ensures
            r == window_of(*self),
    {
        let floating = self.is_floating();
        let focused = if floating {
            self.nodes.len() > 0 && self.nodes[0].focused
        } else {
            self.focused
        };
        Window { id: self.id, rect: self.rect, focused, floating }
    }
}

/// The window records of the nodes of non-zero size, in order.
pub fn to_windows(nodes: Vec<&Node>) -> (r: Vec<Window>)
    ensures
        r@ == windows_of(deref_all(nodes@)),
{
    let mut r: Vec<Window> = Vec::new();
    let mut i: usize = 0;
    while i < nodes.len()
        invariant
            i <= nodes@.len(),
            r@ == windows_of(deref_all(nodes@).take(i as int)),
        decreases nodes@.len() - i,
    {
        let node = nodes[i];
        if !node.is_invisible() {
            r.push(node.to_window());
        }
        i = i + 1;
        proof {
            let t = deref_all(nodes@).take(i as int);
            assert(t.subrange(0, t.len() - 1) =~= deref_all(nodes@).take(i - 1));
        }
    }
    assert(deref_all(nodes@).take(i as int) =~= deref_all(nodes@));
    r
}

/// The window records of the visible nodes under `root`.
pub fn visible_windows(root: &Node) -> (r: Vec<Window>)
    ensures
        r@ == windows_of(visible_spec(*root)),
{
    to_windows(root.visible_nodes())
}

/// The window records of the available tabs under `root`.
pub fn tab_windows(root: &Node) -> (r: Vec<Window>)
    ensures
        r@ == windows_of(tabs_spec(*root)),
{
    to_windows(root.available_tabs())
}

} // verus!
