//! The focused window and the point inside it to which a reload throws the
//! cursor.

use vstd::prelude::*;
use crate::offsets::{lookup, Offset, OffsetTable};

verus! {

/// Identity of a window that names itself in no way.
pub open spec fn no_identity() -> Seq<char> {
    "none"@
}

/// What a window of the X11 kind says of itself.
#[derive(Debug, PartialEq, Eq)]
pub struct WindowProperties {
    pub title: Option<String>,
    pub instance: Option<String>,
    pub class: Option<String>,
}

/// The focused leaf container, as far as a reload reads it.
#[derive(Debug, PartialEq, Eq)]
pub struct Window {
    /// Left edge of the window's rectangle.
    pub x: i32,
    /// Top edge of the window's rectangle.
    pub y: i32,
    pub width: i32,
    pub height: i32,
    /// The application's own identifier, where it gives one.
    pub app_id: Option<String>,
    pub properties: Option<WindowProperties>,
}

/// [`WindowProperties`] as contracts speak of them.
pub struct WindowPropertiesView {
    pub title: Option<Seq<char>>,
    pub instance: Option<Seq<char>>,
    pub class: Option<Seq<char>>,
}

/// [`Window`] as contracts speak of it.
pub struct WindowView {
    pub x: int,
    pub y: int,
    pub width: int,
    pub height: int,
    pub app_id: Option<Seq<char>>,
    pub properties: Option<WindowPropertiesView>,
}

/// The text of an optional string.
pub open spec fn text_of(s: Option<String>) -> Option<Seq<char>> {
    match s {
        Some(s) => Some(s@),
        None => None,
    }
}

impl View for WindowProperties {
    type V = WindowPropertiesView;

    open spec fn view(&self) -> WindowPropertiesView {
        WindowPropertiesView {
            title: text_of(self.title),
            instance: text_of(self.instance),
            class: text_of(self.class),
        }
    }
}

impl View for Window {
    type V = WindowView;

    open spec fn view(&self) -> WindowView {
        WindowView {
            x: self.x as int,
            y: self.y as int,
            width: self.width as int,
            height: self.height as int,
            app_id: text_of(self.app_id),
            properties: match self.properties {
                Some(p) => Some(p@),
                None => None,
            },
        }
    }
}

/// The first of instance, class and title that is there.
pub open spec fn properties_identity(p: WindowPropertiesView) -> Option<Seq<char>> {
    if p.instance is Some {
        p.instance
    } else if p.class is Some {
        p.class
    } else {
        p.title
    }
}

/// The identity under which offsets are looked up: the application
/// identifier; without one, the first of instance, class and title that is
/// there; without any, [`no_identity`].
pub open spec fn identity_of(w: WindowView) -> Seq<char> {
    match w.app_id {
        Some(id) => id,
        None => match w.properties {
            Some(p) => match properties_identity(p) {
                Some(id) => id,
                None => no_identity(),
            },
            None => no_identity(),
        },
    }
}

/// The reload point: the window's origin, moved by the split point and then
/// by the offset, if there is one.
pub open spec fn target_of(w: WindowView, split: (i32, i32), offset: Option<Offset>) -> (int, int) {
    match offset {
        Some(shift) => (w.x + split.0 + shift.0, w.y + split.1 + shift.1),
        None => (w.x + split.0, w.y + split.1),
    }
}

/// The identity of a window is the first that is there of its application
/// identifier, its instance, its class and its title, in this order; what
/// comes after the first is not looked at. A window with none of them has
/// the identity [`no_identity`].
pub proof fn lemma_identity_precedence(w: WindowView)
    ensures
        w.app_id matches Some(id) ==> identity_of(w) == id,
        w.app_id is None ==> match w.properties {
            Some(p) => {
                &&& p.instance matches Some(id) ==> identity_of(w) == id
                &&& p.instance is None ==> (p.class matches Some(id) ==> identity_of(w) == id)
                &&& p.instance is None && p.class is None ==> (p.title matches Some(id)
                    ==> identity_of(w) == id)
                &&& p.instance is None && p.class is None && p.title is None ==> identity_of(w)
                    == no_identity()
            },
            None => identity_of(w) == no_identity(),
        },
{
}

/// An offset that the table holds for the identity of the window moves the
/// reload point by just that much; with no such offset the reload point is
/// the window's origin moved by the split point.
pub proof fn lemma_offset_shifts_target(
    w: WindowView,
    split: (i32, i32),
    table: Map<Seq<char>, Offset>,
)
    ensures
        ({
            let plain = (w.x + split.0, w.y + split.1);
            let target = target_of(w, split, lookup(table, identity_of(w)));
            if table.contains_key(identity_of(w)) {
                let shift = table[identity_of(w)];
                target == (plain.0 + shift.0, plain.1 + shift.1)
            } else {
                target == plain
            }
        }),
{
}

impl WindowProperties {
    /// The first of instance, class and title that is there.
    pub fn identity(&self) -> (id: Option<&String>)
        ensures
            match id {
                Some(id) => properties_identity(self@) == Some(id@),
                None => properties_identity(self@) is None,
            },
    {
        if self.instance.is_some() {
            self.instance.as_ref()
        } else if self.class.is_some() {
            self.class.as_ref()
        } else {
            self.title.as_ref()
        }
    }
}

impl Window {
    /// The identity under which this window's offset is looked up.
    pub fn identity(&self) -> (id: &str)
        ensures
            id@ == identity_of(self@),
    {
        match &self.app_id {
            Some(id) => id.as_str(),
            None => match &self.properties {
                Some(p) => match p.identity() {
                    Some(id) => id.as_str(),
                    None => "none",
                },
                None => "none",
            },
        }
    }

    /// The point to which a reload throws the cursor. `split` is the point
    /// inside the window's rectangle, relative to its origin, that the split
    /// coefficients pick.
    pub fn reload_target(&self, split: (i32, i32), offsets: &OffsetTable) -> (target: (i64, i64))
        ensures
            (target.0 as int, target.1 as int) == target_of(
                self@,
                split,
                lookup(offsets@, identity_of(self@)),
            ),
    {
        let mut x: i64 = self.x as i64 + split.0 as i64;
        let mut y: i64 = self.y as i64 + split.1 as i64;
        match offsets.get(self.identity()) {
            Some(shift) => {
                x = x + shift.0 as i64;
                y = y + shift.1 as i64;
            },
            None => {},
        }
        (x, y)
    }
}

/// The container tree of the window manager, as it answers a tree query.
#[verifier::external_type_specification]
#[verifier::external_body]
pub struct ExNode(swayipc::Node);

/// A container of the tree, as far as the search for the focused window
/// reads it.
pub struct ContainerView {
    /// Number of tiling children of the container.
    pub tiling_children: nat,
    /// The container's rectangle and what it says of its identity.
    pub window: WindowView,
}

/// The containers of `tree` along its focus order: the root, then the child
/// that the root's focus list names first, then the child that this one's
/// focus list names first, and so on, up to a container whose focus list is
/// empty or names none of its children. A child is looked for among the
/// tiling children before the floating ones.
pub uninterp spec fn focus_chain(tree: swayipc::Node) -> Seq<ContainerView>;

/// The first container of `chain` that has no tiling children.
pub open spec fn first_leaf(chain: Seq<ContainerView>) -> Option<WindowView>
    decreases chain.len(),
{
    if chain.len() == 0 {
        None
    } else if chain[0].tiling_children == 0 {
        Some(chain[0].window)
    } else {
        first_leaf(chain.drop_first())
    }
}

/// Whether a container with so many tiling children is a leaf.
pub fn is_leaf(tiling_children: usize) -> (leaf: bool)
    ensures
        leaf == (tiling_children == 0),
{
    tiling_children == 0
}

/// Calls `swayipc::Node::find_focused` with the leaf test and reads `rect`,
/// `app_id` and `window_properties` of the container it finds into a
/// [`Window`]. The search tests the root, then goes down along the focus
/// order, and hands out the first container that passes the test; it gives
/// up where the focus order ends before one does.
#[verifier::external_body]
fn focused_leaf(tree: swayipc::Node) -> (leaf: Option<Window>)
    ensures
        match leaf {
            Some(w) => first_leaf(focus_chain(tree)) == Some(w@),
            None => first_leaf(focus_chain(tree)) is None,
        },
{
    tree.find_focused(|node| is_leaf(node.nodes.len())).map(
        |leaf| Window {
            x: leaf.rect.x,
            y: leaf.rect.y,
            width: leaf.rect.width,
            height: leaf.rect.height,
            app_id: leaf.app_id,
            properties: leaf.window_properties.map(
                |p| WindowProperties { title: p.title, instance: p.instance, class: p.class },
            ),
        },
    )
}

/// The focused window of `tree`: the first container along the focus order
/// that has no tiling children. `None` where the focus order ends before it
/// comes to such a container.
pub fn focused_window(tree: swayipc::Node) -> (window: Option<Window>)
    ensures
        match window {
            Some(w) => first_leaf(focus_chain(tree)) == Some(w@),
            None => first_leaf(focus_chain(tree)) is None,
        },
{
    focused_leaf(tree)
}

/// The focused window is a container of the focus order without tiling
/// children, and every container before it has some.
pub proof fn lemma_first_leaf(chain: Seq<ContainerView>)
    ensures
        match first_leaf(chain) {
            Some(w) => exists|i: int|
                0 <= i < chain.len() && #[trigger] chain[i].tiling_children == 0 && chain[i].window
                    == w && forall|j: int| 0 <= j < i ==> #[trigger] chain[j].tiling_children > 0,
            None => forall|i: int| 0 <= i < chain.len() ==> #[trigger] chain[i].tiling_children > 0,
        },
    decreases chain.len(),
{
    if chain.len() > 0 && chain[0].tiling_children != 0 {
        let rest = chain.drop_first();
        lemma_first_leaf(rest);
        match first_leaf(rest) {
            Some(w) => {
                let i = choose|i: int|
                    0 <= i < rest.len() && #[trigger] rest[i].tiling_children == 0
                        && rest[i].window == w && forall|j: int|
                        0 <= j < i ==> #[trigger] rest[j].tiling_children > 0;
                assert forall|j: int| 0 <= j < i + 1 implies #[trigger] chain[j].tiling_children
                    > 0 by {
                    if j > 0 {
                        assert(chain[j] == rest[j - 1]);
                    }
                }
            },
            None => {
                assert forall|i: int| 0 <= i < chain.len() implies #[trigger] chain[i].tiling_children
                    > 0 by {
                    if i > 0 {
                        assert(chain[i] == rest[i - 1]);
                    }
                }
            },
        }
    }
}

} // verus!
