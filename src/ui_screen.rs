//! A UI screen: one tree of nodes that is visible at one time, laid out
//! against the size of the window.

use vstd::prelude::*;

use crate::layout::{constrain, layout_children, layout_node, resolve_size, spans_all, ui_screen_to_dp_list};
use crate::node::Node;
use crate::node_data::{FlexDirection, NodeData};
use crate::rect::{all_fit, fits_machine, Placement, Rect};

verus! {

/// `root` with its exact size set to the viewport `(w, h)`.
pub open spec fn with_viewport<T>(root: Node<T>, w: u32, h: u32) -> Node<T> {
    Node { data: NodeData { width: Some(w as i64), height: Some(h as i64), ..root.data }, children: root.children }
}

/// Rectangles of the whole tree under `root` in a viewport of `(w, h)`: the
/// root is offered the whole viewport, sits at the origin, and has paint
/// order 1/2, in the middle of the range [0, 1) that the screen gives out.
pub open spec fn screen_layout<T>(root: Node<T>, w: int, h: int) -> Seq<Placement<T>> {
    let d = root.data;
    let rw = constrain(w, d.width, d.max_width, d.min_width);
    let rh = constrain(h, d.height, d.max_height, d.min_height);
    layout_node(root, 0, 0, rw, rh, 1, 2)
}

/// UI screen
#[derive(Debug)]
pub struct UiScreen<T> {
    /// Root node of the UI tree
    pub root: Node<T>,
}

impl<T: Copy> UiScreen<T> {
    /// Creates a screen whose root, a node with no children, has the given size
    pub fn new(initial_width: u32, initial_height: u32, data: NodeData<T>) -> (s: Self)
        ensures
            s.root.data == (NodeData {
                width: Some(initial_width as i64),
                height: Some(initial_height as i64),
                ..data
            }),
            s.root.children@ == Seq::<Node<T>>::empty(),
    {
        let mut d = data;
        d.width = Some(initial_width as i64);
        d.height = Some(initial_height as i64);
        Self { root: Node::new(d) }
    }

    /// Changes the orientation of the root element to column
    pub fn with_root_as_column(self) -> (s: Self)
        ensures
            s.root.data == (NodeData { flex_direction: FlexDirection::Column, ..self.root.data }),
            s.root.children == self.root.children,
    {
        let mut s = self;
        s.root.data.flex_direction = FlexDirection::Column;
        s
    }

    /// Sets the root's size to the viewport and lays out the whole tree.
    /// `None` exactly when a coordinate or a paint-order term of the layout
    /// leaves the range of the machine integers that a `Rect` holds.
    pub fn into_rectangles(&mut self, root_width: u32, root_height: u32) -> (r: Option<Vec<Rect<T>>>)
        ensures
            final(self).root == with_viewport(old(self).root, root_width, root_height),
            r is Some <==> all_fit(screen_layout(final(self).root, root_width as int, root_height as int)),
            r matches Some(v) ==> spans_all(v@, screen_layout(final(self).root, root_width as int, root_height as int)),
    {
        self.root.data.width = Some(root_width as i64);
        self.root.data.height = Some(root_height as i64);
        let d = self.root.data;
        let w = resolve_size(root_width as i128, d.width, d.max_width, d.min_width);
        let h = resolve_size(root_height as i128, d.height, d.max_height, d.min_height);
        proof {
            assert(self.root == with_viewport(old(self).root, root_width, root_height));
        }
        ui_screen_to_dp_list(&self.root, 0, 0, w, h, 1, 2)
    }
}

/// A root with no children and no minimum or maximum size lays out to exactly
/// one rectangle, always representable: the whole viewport `[0, w] x [0, h]`,
/// with paint order 1/2, inside the range [0, 1).
pub proof fn lemma_root_coverage<T>(root: Node<T>, w: u32, h: u32)
    requires
        root.children@.len() == 0,
        root.data.min_width is None,
        root.data.max_width is None,
        root.data.min_height is None,
        root.data.max_height is None,
    ensures
        ({
            let r = with_viewport(root, w, h);
            let s = screen_layout(r, w as int, h as int);
            &&& s == seq![Placement { left: 0, top: 0, width: w as int, height: h as int, z_num: 1, z_den: 2, data: r.data }]
            &&& all_fit(s)
            &&& 0 <= s[0].z_num < s[0].z_den
        }),
{
    let r = with_viewport(root, w, h);
    let s = screen_layout(r, w as int, h as int);
    let own = Placement { left: 0, top: 0, width: w as int, height: h as int, z_num: 1, z_den: 2, data: r.data };
    assert(r.children@.len() == 0);
    assert(layout_children(r.children@, r.data.flex_direction, 0, 0, w as int, h as int, 1, 2, 0) == Seq::<Placement<T>>::empty());
    assert(s =~= seq![own]);
    assert(fits_machine(s[0]));
}

/// Laying out a screen a second time with the same viewport gives the same
/// rectangles: the first call leaves the root carrying that viewport, which
/// the second call sets again to the same value.
pub proof fn lemma_layout_idempotent<T>(root: Node<T>, w: u32, h: u32, a: Seq<Rect<T>>, b: Seq<Rect<T>>)
    requires
        spans_all(a, screen_layout(with_viewport(root, w, h), w as int, h as int)),
        spans_all(b, screen_layout(with_viewport(with_viewport(root, w, h), w, h), w as int, h as int)),
    ensures
        with_viewport(with_viewport(root, w, h), w, h) == with_viewport(root, w, h),
        a.len() == b.len(),
        forall|i: int| 0 <= i < a.len() ==> (#[trigger] a[i]).x@ == b[i].x@ && a[i].y@ == b[i].y@
            && a[i].z == b[i].z && a[i].data == b[i].data,
{
    let once = with_viewport(root, w, h);
    assert(with_viewport(once, w, h) == once);
    let s = screen_layout(once, w as int, h as int);
    assert forall|i: int| 0 <= i < a.len() implies (#[trigger] a[i]).x@ == b[i].x@ && a[i].y@ == b[i].y@
        && a[i].z == b[i].z && a[i].data == b[i].data by {
        assert(a[i].spans(s[i]));
        assert(b[i].spans(s[i]));
        assert(a[i].x@ =~= b[i].x@);
        assert(a[i].y@ =~= b[i].y@);
    }
}

} // verus!
