//! Resolved rectangles: four corners in whole pixels, a paint-order value and
//! the constraint record of the node they were resolved from.

use vstd::prelude::*;

use crate::node_data::NodeData;

verus! {

/// Paint order of a rectangle, the fraction `num / den`.
/// A rectangle with a smaller fraction is painted first.
#[derive(Debug, Copy, Clone, PartialEq, Eq, Structural)]
pub struct ZIndex {
    pub num: u64,
    pub den: u64,
}

impl ZIndex {
    /// `self` comes strictly before `other` in paint order.
    pub open spec fn spec_lt(self, other: ZIndex) -> bool {
        (self.num as int) * (other.den as int) < (other.num as int) * (self.den as int)
    }

    /// Compares two paint-order values exactly (`self < other`).
    pub fn is_below(&self, other: &ZIndex) -> (r: bool)
        ensures
            r == self.spec_lt(*other),
    {
        let a = self.num as u128;
        let b = other.den as u128;
        let c = other.num as u128;
        let d = self.den as u128;
        proof {
            assert(a * b <= u64::MAX as int * u64::MAX as int) by (nonlinear_arith)
                requires a <= u64::MAX, b <= u64::MAX;
            assert(c * d <= u64::MAX as int * u64::MAX as int) by (nonlinear_arith)
                requires c <= u64::MAX, d <= u64::MAX;
        }
        a * b < c * d
    }
}

/// A resolved node in ideal arithmetic: its top-left corner, its size, its paint
/// order `z_num / z_den` and its constraint record.
pub struct Placement<T> {
    pub left: int,
    pub top: int,
    pub width: int,
    pub height: int,
    pub z_num: int,
    pub z_den: int,
    pub data: NodeData<T>,
}

/// Every value of `p` can be held by a `Rect`.
pub open spec fn fits_machine<T>(p: Placement<T>) -> bool {
    &&& i64::MIN <= p.left <= i64::MAX
    &&& i64::MIN <= p.top <= i64::MAX
    &&& i64::MIN <= p.left + p.width <= i64::MAX
    &&& i64::MIN <= p.top + p.height <= i64::MAX
    &&& 0 <= p.z_num <= u64::MAX
    &&& 0 <= p.z_den <= u64::MAX
}

/// Every placement of `s` can be held by a `Rect`.
pub open spec fn all_fit<T>(s: Seq<Placement<T>>) -> bool {
    forall|i: int| 0 <= i < s.len() ==> #[trigger] fits_machine(s[i])
}

/// A finite rectangle in pixel coordinates that will end up on the screen
#[derive(Debug, Copy, Clone)]
pub struct Rect<T> {
    /// x coordinates: top left, top right, bottom left, bottom right
    pub x: [i64; 4],
    /// y coordinates: top left, top right, bottom left, bottom right
    pub y: [i64; 4],
    /// Paint order
    pub z: ZIndex,
    /// Constraint record of the node this rectangle was resolved from
    pub data: NodeData<T>,
}

impl<T> Rect<T> {
    /// The corners of `self` are those of the axis-aligned rectangle with the given edges.
    pub open spec fn has_edges(self, top: int, bottom: int, left: int, right: int) -> bool {
        &&& self.x@.len() == 4
        &&& self.y@.len() == 4
        &&& self.x@[0] == left
        &&& self.x@[1] == right
        &&& self.x@[2] == left
        &&& self.x@[3] == right
        &&& self.y@[0] == top
        &&& self.y@[1] == top
        &&& self.y@[2] == bottom
        &&& self.y@[3] == bottom
    }

    /// `self` is exactly the rectangle that `p` describes.
    pub open spec fn spans(self, p: Placement<T>) -> bool {
        &&& self.has_edges(p.top, p.top + p.height, p.left, p.left + p.width)
        &&& self.z.num == p.z_num
        &&& self.z.den == p.z_den
        &&& self.data == p.data
    }

    /// `b` is `a` moved by the vector `(dx, dy)`.
    pub open spec fn is_translation(a: Rect<T>, b: Rect<T>, dx: int, dy: int) -> bool {
        &&& a.x@.len() == 4 && b.x@.len() == 4
        &&& a.y@.len() == 4 && b.y@.len() == 4
        &&& forall|i: int| 0 <= i < 4 ==> #[trigger] b.x@[i] == a.x@[i] + dx
        &&& forall|i: int| 0 <= i < 4 ==> #[trigger] b.y@[i] == a.y@[i] + dy
        &&& b.z == a.z
        &&& b.data == a.data
    }

    /// Creates a new rectangle
    pub fn new(top: i64, bottom: i64, left: i64, right: i64, z: ZIndex, data: NodeData<T>) -> (r:
        Self)
        ensures
            r.has_edges(top as int, bottom as int, left as int, right as int),
            r.z == z,
            r.data == data,
    {
        Self { x: [left, right, left, right], y: [top, top, bottom, bottom], z, data }
    }

    /// Creates a new rectangle with width / height instead of bottom / right
    pub fn new_wh(
        offset_left: i64,
        offset_top: i64,
        width: i64,
        height: i64,
        z: ZIndex,
        data: NodeData<T>,
    ) -> (r: Self)
        requires
            i64::MIN <= offset_left + width <= i64::MAX,
            i64::MIN <= offset_top + height <= i64::MAX,
        ensures
            r.has_edges(
                offset_top as int,
                offset_top + height,
                offset_left as int,
                offset_left + width,
            ),
            r.z == z,
            r.data == data,
    {
        let right = offset_left + width;
        let bottom = offset_top + height;
        Self::new(offset_top, bottom, offset_left, right, z, data)
    }

    /// Moves all four corners by the vector `(x, y)`
    pub fn translate(&mut self, x: i64, y: i64)
        requires
            forall|i: int| 0 <= i < 4 ==> i64::MIN <= #[trigger] old(self).x@[i] + x <= i64::MAX,
            forall|i: int| 0 <= i < 4 ==> i64::MIN <= #[trigger] old(self).y@[i] + y <= i64::MAX,
        ensures
            Self::is_translation(*old(self), *final(self), x as int, y as int),
    {
        self.x[0] = self.x[0] + x;
        self.x[1] = self.x[1] + x;
        self.x[2] = self.x[2] + x;
        self.x[3] = self.x[3] + x;
        self.y[0] = self.y[0] + y;
        self.y[1] = self.y[1] + y;
        self.y[2] = self.y[2] + y;
        self.y[3] = self.y[3] + y;
    }

    /// The two triangles that cover the rectangle, as six corners:
    /// (top left, top right, bottom left) then (top right, bottom right, bottom left),
    /// both wound the same way.
    pub fn vertices(&self) -> (r: [(i64, i64); 6])
        ensures
            r@ == seq![
                (self.x@[0], self.y@[0]),
                (self.x@[1], self.y@[1]),
                (self.x@[2], self.y@[2]),
                (self.x@[1], self.y@[1]),
                (self.x@[3], self.y@[3]),
                (self.x@[2], self.y@[2]),
            ],
    {
        let tl = (self.x[0], self.y[0]);
        let tr = (self.x[1], self.y[1]);
        let bl = (self.x[2], self.y[2]);
        let br = (self.x[3], self.y[3]);
        let r = [tl, tr, bl, tr, br, bl];
        assert(r@ =~= seq![tl, tr, bl, tr, br, bl]);
        r
    }

    /// Sets the width, keeping the left edge where it is.
    /// Meant for axis-aligned rectangles: after a rotation the corners lose their roles.
    pub fn set_width(&mut self, width: i64)
        requires
            i64::MIN <= old(self).x@[0] + width <= i64::MAX,
            i64::MIN <= old(self).x@[2] + width <= i64::MAX,
        ensures
            final(self).x@[0] == old(self).x@[0],
            final(self).x@[1] == old(self).x@[0] + width,
            final(self).x@[2] == old(self).x@[2],
            final(self).x@[3] == old(self).x@[2] + width,
            final(self).y == old(self).y,
            final(self).z == old(self).z,
            final(self).data == old(self).data,
    {
        self.x[1] = self.x[0] + width;
        self.x[3] = self.x[2] + width;
    }

    /// Sets the height, keeping the top edge where it is.
    /// Meant for axis-aligned rectangles: after a rotation the corners lose their roles.
    pub fn set_height(&mut self, height: i64)
        requires
            i64::MIN <= old(self).y@[0] + height <= i64::MAX,
            i64::MIN <= old(self).y@[1] + height <= i64::MAX,
        ensures
            final(self).y@[0] == old(self).y@[0],
            final(self).y@[1] == old(self).y@[1],
            final(self).y@[2] == old(self).y@[0] + height,
            final(self).y@[3] == old(self).y@[1] + height,
            final(self).x == old(self).x,
            final(self).z == old(self).z,
            final(self).data == old(self).data,
    {
        self.y[2] = self.y[0] + height;
        self.y[3] = self.y[1] + height;
    }
}

impl<T> From<NodeData<T>> for Rect<T> {
    /// A rectangle of no extent at the origin, painted first, carrying `data`.
    fn from(data: NodeData<T>) -> (r: Self) {
        Self { x: [0, 0, 0, 0], y: [0, 0, 0, 0], z: ZIndex { num: 0, den: 1 }, data }
    }
}

impl<T> vstd::std_specs::convert::FromSpecImpl<NodeData<T>> for Rect<T> {
    open spec fn obeys_from_spec() -> bool {
        true
    }

    open spec fn from_spec(data: NodeData<T>) -> Rect<T> {
        Rect { x: [0, 0, 0, 0], y: [0, 0, 0, 0], z: ZIndex { num: 0, den: 1 }, data }
    }
}

/// Moving a rectangle by `(dx, dy)` and then by `(-dx, -dy)` gives back its
/// corners, its paint order and its data exactly.
pub proof fn lemma_translate_round_trip<T>(a: Rect<T>, b: Rect<T>, c: Rect<T>, dx: int, dy: int)
    requires
        Rect::is_translation(a, b, dx, dy),
        Rect::is_translation(b, c, -dx, -dy),
    ensures
        c.x@ == a.x@,
        c.y@ == a.y@,
        c.z == a.z,
        c.data == a.data,
{
    assert(c.x@ =~= a.x@);
    assert(c.y@ =~= a.y@);
}

} // verus!
