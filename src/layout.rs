//! The layout resolver: from a tree of constrained nodes and a viewport to a
//! flat list of rectangles in paint order (each node after all its descendants).
//!
//! Lengths are whole pixels. Space along a parent's flex axis is shared out by
//! floor division of what is left among the siblings not yet placed, so the
//! last unconstrained sibling takes up every pixel that remains. Paint order is
//! an exact fraction: a node with order `zn / zd` among `k` children gives child
//! `i` the order `(zn * (k + 1) + i + 1) / (zd * (k + 1))`.

use vstd::prelude::*;

use crate::node::Node;
use crate::node_data::{FlexDirection, NodeData};
use crate::rect::{all_fit, fits_machine, Placement, Rect, ZIndex};

verus! {

broadcast use vstd::std_specs::vec::axiom_vec_decreases_to_view;

/// Size of a node on one axis: the slot it is offered, replaced by the exact
/// size if one is set, then clamped down to the maximum, then up to the minimum.
pub open spec fn constrain(slot: int, exact: Option<i64>, max: Option<i64>, min: Option<i64>) -> int {
    let a = match exact {
        Some(e) => e as int,
        None => slot,
    };
    let b = match max {
        Some(m) => if a > m { m as int } else { a },
        None => a,
    };
    match min {
        Some(m) => if b < m { m as int } else { b },
        None => b,
    }
}

/// Width offered to child `i` of `k` when `consumed` pixels of the parent's
/// width `w` went to the children before it.
pub open spec fn slot_width(axis: FlexDirection, w: int, consumed: int, i: int, k: int) -> int {
    if axis == FlexDirection::Row { (w - consumed) / (k - i) } else { w }
}

/// Height offered to child `i` of `k` (see `slot_width`).
pub open spec fn slot_height(axis: FlexDirection, h: int, consumed: int, i: int, k: int) -> int {
    if axis == FlexDirection::Column { (h - consumed) / (k - i) } else { h }
}

/// Resolved width of child `i` of `k`.
pub open spec fn child_width<T>(d: NodeData<T>, axis: FlexDirection, w: int, consumed: int, i: int, k: int) -> int {
    constrain(slot_width(axis, w, consumed, i, k), d.width, d.max_width, d.min_width)
}

/// Resolved height of child `i` of `k`.
pub open spec fn child_height<T>(d: NodeData<T>, axis: FlexDirection, h: int, consumed: int, i: int, k: int) -> int {
    constrain(slot_height(axis, h, consumed, i, k), d.height, d.max_height, d.min_height)
}

/// Space along `axis` taken by the children before child `i`.
pub open spec fn consumed_at<T>(cs: Seq<Node<T>>, axis: FlexDirection, w: int, h: int, i: int) -> int
    decreases i,
{
    if i <= 0 {
        0
    } else {
        let c = consumed_at(cs, axis, w, h, i - 1);
        let k = cs.len() as int;
        if axis == FlexDirection::Row {
            c + child_width(cs[i - 1].data, axis, w, c, i - 1, k)
        } else {
            c + child_height(cs[i - 1].data, axis, h, c, i - 1, k)
        }
    }
}

/// Rectangles of the subtree of `n`, resolved at `(left, top)` with size
/// `(w, h)` and paint order `zn / zd`: those of its children, then its own.
pub open spec fn layout_node<T>(n: Node<T>, left: int, top: int, w: int, h: int, zn: int, zd: int) -> Seq<Placement<T>>
    decreases n, 0int,
{
    layout_children(n.children@, n.data.flex_direction, left, top, w, h, zn, zd, 0)
        + seq![Placement { left, top, width: w, height: h, z_num: zn, z_den: zd, data: n.data }]
}

/// Rectangles of the subtrees of children `i`, `i + 1`, ... of a node whose
/// resolved geometry is given.
pub open spec fn layout_children<T>(
    cs: Seq<Node<T>>,
    axis: FlexDirection,
    left: int,
    top: int,
    w: int,
    h: int,
    zn: int,
    zd: int,
    i: int,
) -> Seq<Placement<T>>
    decreases cs, cs.len() - i + 1,
{
    if 0 <= i < cs.len() {
        child_block(cs, axis, left, top, w, h, zn, zd, i)
            + layout_children(cs, axis, left, top, w, h, zn, zd, i + 1)
    } else {
        Seq::empty()
    }
}

/// Rectangles of the subtree of child `i`.
pub open spec fn child_block<T>(
    cs: Seq<Node<T>>,
    axis: FlexDirection,
    left: int,
    top: int,
    w: int,
    h: int,
    zn: int,
    zd: int,
    i: int,
) -> Seq<Placement<T>>
    decreases cs, 0int,
{
    if 0 <= i < cs.len() {
        let k = cs.len() as int;
        let c = consumed_at(cs, axis, w, h, i);
        let d = cs[i].data;
        layout_node(
            cs[i],
            if axis == FlexDirection::Row { left + c } else { left },
            if axis == FlexDirection::Column { top + c } else { top },
            child_width(d, axis, w, c, i, k),
            child_height(d, axis, h, c, i, k),
            zn * (k + 1) + i + 1,
            zd * (k + 1),
        )
    } else {
        Seq::empty()
    }
}

/// `rs` holds, in order, exactly the rectangles that `ps` describes.
pub open spec fn spans_all<T>(rs: Seq<Rect<T>>, ps: Seq<Placement<T>>) -> bool {
    &&& rs.len() == ps.len()
    &&& forall|i: int| 0 <= i < rs.len() ==> #[trigger] rs[i].spans(ps[i])
}

proof fn lemma_all_fit_concat<T>(a: Seq<Placement<T>>, b: Seq<Placement<T>>)
    ensures
        all_fit(a + b) <==> (all_fit(a) && all_fit(b)),
{
    if all_fit(a + b) {
        assert forall|i: int| 0 <= i < a.len() implies #[trigger] fits_machine(a[i]) by {
            assert((a + b)[i] == a[i]);
        }
        assert forall|i: int| 0 <= i < b.len() implies #[trigger] fits_machine(b[i]) by {
            assert((a + b)[a.len() + i] == b[i]);
        }
    }
    if all_fit(a) && all_fit(b) {
        assert forall|i: int| 0 <= i < (a + b).len() implies #[trigger] fits_machine((a + b)[i]) by {
            if i < a.len() {
                assert((a + b)[i] == a[i]);
            } else {
                assert((a + b)[i] == b[i - a.len()]);
            }
        }
    }
}

proof fn lemma_spans_concat<T>(
    ra: Seq<Rect<T>>,
    pa: Seq<Placement<T>>,
    rb: Seq<Rect<T>>,
    pb: Seq<Placement<T>>,
)
    requires
        spans_all(ra, pa),
        spans_all(rb, pb),
    ensures
        spans_all(ra + rb, pa + pb),
{
    assert forall|i: int| 0 <= i < (ra + rb).len() implies #[trigger] (ra + rb)[i].spans(
        (pa + pb)[i],
    ) by {
        if i < ra.len() {
            assert((ra + rb)[i] == ra[i]);
            assert((pa + pb)[i] == pa[i]);
        } else {
            assert((ra + rb)[i] == rb[i - ra.len()]);
            assert((pa + pb)[i] == pb[i - pa.len()]);
        }
    }
}

/// `a / m` rounded down.
fn floor_div(a: i128, m: i128) -> (q: i128)
    requires
        m > 0,
        -0x1_0000_0000_0000_0000_0000 <= a <= 0x1_0000_0000_0000_0000_0000,
        m <= 0x1_0000_0000_0000_0000,
    ensures
        q == a / m,
        a >= 0 ==> 0 <= q <= a,
        a < 0 ==> a <= q < 0,
{
    if a >= 0 {
        proof {
            assert(0 <= (a as int) / (m as int) <= a) by (nonlinear_arith)
                requires
                    a >= 0,
                    m >= 1,
            ;
        }
        a / m
    } else {
        let t = (m - 1 - a) / m;
        proof {
            let tt = t as int;
            let n = (m - 1 - a) as int;
            assert(tt * m <= n < tt * m + m) by (nonlinear_arith)
                requires
                    tt == n / (m as int),
                    m > 0,
                    n >= 0,
            ;
            assert(a as int / m as int == -tt) by (nonlinear_arith)
                requires
                    tt * m <= n < tt * m + m,
                    n == m - 1 - a,
                    m > 0,
            ;
            assert(a <= -tt < 0) by (nonlinear_arith)
                requires
                    tt * m <= n < tt * m + m,
                    n == m - 1 - a,
                    m > 0,
                    a < 0,
            ;
        }
        -t
    }
}

/// Applies the exact size, then the maximum, then the minimum to `slot`.
pub(crate) fn resolve_size(slot: i128, exact: Option<i64>, max: Option<i64>, min: Option<i64>) -> (r: i128)
    ensures
        r == constrain(slot as int, exact, max, min),
{
    let mut v = slot;
    if let Some(e) = exact {
        v = e as i128;
    }
    if let Some(m) = max {
        if v > m as i128 {
            v = m as i128;
        }
    }
    if let Some(m) = min {
        if v < m as i128 {
            v = m as i128;
        }
    }
    v
}

/// The last rectangle of a subtree is the one of its root, and the subtree fits
/// the machine integers exactly when the children's part and that one do.
proof fn lemma_layout_node_split<T>(n: Node<T>, left: int, top: int, w: int, h: int, zn: int, zd: int)
    ensures
        ({
            let s = layout_node(n, left, top, w, h, zn, zd);
            let own = Placement { left, top, width: w, height: h, z_num: zn, z_den: zd, data: n.data };
            let kids = layout_children(n.children@, n.data.flex_direction, left, top, w, h, zn, zd, 0);
            &&& s.len() == kids.len() + 1
            &&& s[s.len() - 1] == own
            &&& (all_fit(s) <==> (all_fit(kids) && fits_machine(own)))
        }),
{
    let own = Placement { left, top, width: w, height: h, z_num: zn, z_den: zd, data: n.data };
    let kids = layout_children(n.children@, n.data.flex_direction, left, top, w, h, zn, zd, 0);
    lemma_all_fit_concat(kids, seq![own]);
    assert(seq![own][0] == own);
}

/// Bound on the size handed to `ui_screen_to_dp_list` on either axis.
pub const MAX_SPAN: i128 = 0x4_0000_0000_0000_0000;

/// Bound on the space that siblings placed so far can take.
const MAX_CONSUMED: i128 = 0x2_0000_0000_0000_0000;

/// Resolves the subtree of `node`, whose own size `(w, h)` is already resolved,
/// at `(left, top)` with paint order `zn / zd`: first the rectangles of the
/// children's subtrees, child by child, then the node's own. `None` exactly
/// when some coordinate or paint-order term of the subtree leaves the range of
/// the machine integers that a `Rect` holds.
pub fn ui_screen_to_dp_list<T: Copy>(
    node: &Node<T>,
    left: i64,
    top: i64,
    w: i128,
    h: i128,
    zn: u64,
    zd: u64,
) -> (r: Option<Vec<Rect<T>>>)
    requires
        -MAX_SPAN <= w <= MAX_SPAN,
        -MAX_SPAN <= h <= MAX_SPAN,
        zd >= 1,
    ensures
        r is Some <==> all_fit(
            layout_node(*node, left as int, top as int, w as int, h as int, zn as int, zd as int),
        ),
        r matches Some(v) ==> spans_all(
            v@,
            layout_node(*node, left as int, top as int, w as int, h as int, zn as int, zd as int),
        ),
    decreases node,
{
    let ghost cs = node.children@;
    let ghost axis = node.data.flex_direction;
    let ghost kids = layout_children(cs, axis, left as int, top as int, w as int, h as int, zn as int, zd as int, 0);
    let ghost own = Placement {
        left: left as int,
        top: top as int,
        width: w as int,
        height: h as int,
        z_num: zn as int,
        z_den: zd as int,
        data: node.data,
    };
    proof {
        lemma_layout_node_split(*node, left as int, top as int, w as int, h as int, zn as int, zd as int);
    }
    let right = left as i128 + w;
    let bottom = top as i128 + h;
    if right < i64::MIN as i128 || right > i64::MAX as i128 || bottom < i64::MIN as i128 || bottom
        > i64::MAX as i128 {
        return None;
    }
    let k = node.children.len();
    let row = node.data.flex_direction == FlexDirection::Row;
    let mut out: Vec<Rect<T>> = Vec::new();
    let mut consumed: i128 = 0;
    let mut i: usize = 0;
    let ghost mut done: Seq<Placement<T>> = Seq::empty();
    assert(done + kids =~= kids);
    while i < k
        invariant
            k == cs.len(),
            cs == node.children@,
            axis == node.data.flex_direction,
            row == (axis == FlexDirection::Row),
            kids == layout_children(cs, axis, left as int, top as int, w as int, h as int, zn as int, zd as int, 0),
            i64::MIN <= left + w <= i64::MAX,
            i64::MIN <= top + h <= i64::MAX,
            0 <= i <= k,
            zd >= 1,
            consumed == consumed_at(cs, axis, w as int, h as int, i as int),
            -MAX_CONSUMED <= consumed <= MAX_CONSUMED,
            done + layout_children(cs, axis, left as int, top as int, w as int, h as int, zn as int, zd as int, i as int) == kids,
            all_fit(done),
            spans_all(out@, done),
            all_fit(layout_node(*node, left as int, top as int, w as int, h as int, zn as int, zd as int))
                ==> all_fit(kids),
        decreases k - i,
    {
        let child = &node.children[i];
        let d = child.data;
        let rem = (k - i) as i128;
        let sw = if row { floor_div(w - consumed, rem) } else { w };
        let sh = if row { h } else { floor_div(h - consumed, rem) };
        let cw = resolve_size(sw, d.width, d.max_width, d.min_width);
        let ch = resolve_size(sh, d.height, d.max_height, d.min_height);
        let cl: i128 = if row { left as i128 + consumed } else { left as i128 };
        let ct: i128 = if row { top as i128 } else { top as i128 + consumed };
        let ghost rest = layout_children(cs, axis, left as int, top as int, w as int, h as int, zn as int, zd as int, i + 1);
        let ghost blk = layout_node(cs[i as int], cl as int, ct as int, cw as int, ch as int,
            zn * (k + 1) + i + 1, zd * (k + 1));
        let ghost cown = Placement {
            left: cl as int,
            top: ct as int,
            width: cw as int,
            height: ch as int,
            z_num: zn * (k + 1) + i + 1,
            z_den: zd * (k + 1),
            data: d,
        };
        proof {
            assert(sw == slot_width(axis, w as int, consumed as int, i as int, k as int));
            assert(sh == slot_height(axis, h as int, consumed as int, i as int, k as int));
            assert(cw == child_width(d, axis, w as int, consumed as int, i as int, k as int));
            assert(ch == child_height(d, axis, h as int, consumed as int, i as int, k as int));
            assert(child_block(cs, axis, left as int, top as int, w as int, h as int, zn as int, zd as int, i as int) == blk);
            assert(layout_children(cs, axis, left as int, top as int, w as int, h as int, zn as int, zd as int, i as int) == blk + rest);
            lemma_layout_node_split(cs[i as int], cl as int, ct as int, cw as int, ch as int,
                zn * (k + 1) + i + 1, zd * (k + 1));
            lemma_all_fit_concat(blk, rest);
            lemma_all_fit_concat(done, blk + rest);
            lemma_all_fit_concat(kids, seq![own]);
        }
        if cl < i64::MIN as i128 || cl > i64::MAX as i128 || ct < i64::MIN as i128 || ct
            > i64::MAX as i128 {
            return None;
        }
        let zden = match (k as u64).checked_add(1) {
            Some(k1) => match zd.checked_mul(k1) {
                Some(v) => {
                    proof {
                        assert(zd * k1 >= 1) by (nonlinear_arith)
                            requires
                                zd >= 1,
                                k1 >= 1;
                    }
                    v
                },
                None => {
                    proof {
                        assert(zd * (k + 1) > u64::MAX);
                    }
                    return None;
                },
            },
            None => {
                proof {
                    assert(zd * (k + 1) > u64::MAX) by (nonlinear_arith)
                        requires
                            k + 1 > u64::MAX,
                            zd >= 1;
                }
                return None;
            },
        };
        let znum = match zn.checked_mul(k as u64 + 1) {
            Some(a) => match a.checked_add(i as u64 + 1) {
                Some(v) => v,
                None => {
                    return None;
                },
            },
            None => {
                return None;
            },
        };
        match ui_screen_to_dp_list(child, cl as i64, ct as i64, cw, ch, znum, zden) {
            None => {
                return None;
            },
            Some(mut v) => {
                proof {
                    lemma_spans_concat(out@, done, v@, blk);
                    lemma_all_fit_concat(done, blk);
                    assert((done + blk) + rest =~= done + (blk + rest));
                    done = done + blk;
                }
                out.append(&mut v);
            },
        }
        consumed = if row { consumed + cw } else { consumed + ch };
        i = i + 1;
    }
    proof {
        assert(layout_children(cs, axis, left as int, top as int, w as int, h as int, zn as int, zd as int, k as int) == Seq::<Placement<T>>::empty());
        assert(done =~= kids);
    }
    let rect = Rect::new(top, bottom as i64, left, right as i64, ZIndex { num: zn, den: zd }, node.data);
    proof {
        lemma_spans_concat(out@, done, seq![rect], seq![own]);
        assert(out@.push(rect) =~= out@ + seq![rect]);
    }
    out.push(rect);
    Some(out)
}

/// Paint order `p.z_num / p.z_den` lies in `[lo / d, (lo + 1) / d)`, and
/// strictly above `lo / d` when `strict`.
pub open spec fn z_within<T>(p: Placement<T>, lo: int, d: int, strict: bool) -> bool {
    &&& p.z_den >= 1
    &&& if strict { lo * p.z_den < p.z_num * d } else { lo * p.z_den <= p.z_num * d }
    &&& p.z_num * d < (lo + 1) * p.z_den
}

/// Within the subtree of a node with paint order `zn / zd`, every rectangle
/// has its paint order in `[zn / zd, (zn + 1) / zd)`, and every one but the
/// node's own (the last) lies strictly above the node's: descendants are
/// painted after the node, and before anything that follows the subtree.
pub proof fn lemma_subtree_z_range<T>(n: Node<T>, left: int, top: int, w: int, h: int, zn: int, zd: int)
    requires
        zd >= 1,
        zn >= 0,
    ensures
        ({
            let s = layout_node(n, left, top, w, h, zn, zd);
            &&& s.len() >= 1
            &&& s[s.len() - 1].z_num == zn && s[s.len() - 1].z_den == zd
            &&& forall|i: int| 0 <= i < s.len() ==> z_within(#[trigger] s[i], zn, zd, false)
            &&& forall|i: int| 0 <= i < s.len() - 1 ==> z_within(#[trigger] s[i], zn, zd, true)
        }),
    decreases n, 0int,
{
    let cs = n.children@;
    let kids = layout_children(cs, n.data.flex_direction, left, top, w, h, zn, zd, 0);
    let own = Placement { left, top, width: w, height: h, z_num: zn, z_den: zd, data: n.data };
    let s = layout_node(n, left, top, w, h, zn, zd);
    lemma_children_z_range(cs, n.data.flex_direction, left, top, w, h, zn, zd, 0);
    assert(s == kids + seq![own]);
    assert forall|i: int| 0 <= i < s.len() implies z_within(#[trigger] s[i], zn, zd, false) by {
        if i < kids.len() {
            assert(s[i] == kids[i]);
            assert(z_within(kids[i], zn, zd, true));
        } else {
            assert(s[i] == own);
            assert(zn * zd < (zn + 1) * zd) by (nonlinear_arith)
                requires
                    zd >= 1,
            ;
        }
    }
    assert forall|i: int| 0 <= i < s.len() - 1 implies z_within(#[trigger] s[i], zn, zd, true) by {
        assert(s[i] == kids[i]);
    }
}

/// The subtrees of children `i`, `i + 1`, ... of a node with paint order
/// `zn / zd` lie strictly above it and below `(zn + 1) / zd`.
pub proof fn lemma_children_z_range<T>(
    cs: Seq<Node<T>>,
    axis: FlexDirection,
    left: int,
    top: int,
    w: int,
    h: int,
    zn: int,
    zd: int,
    i: int,
)
    requires
        zd >= 1,
        zn >= 0,
        i >= 0,
    ensures
        ({
            let s = layout_children(cs, axis, left, top, w, h, zn, zd, i);
            forall|j: int| 0 <= j < s.len() ==> z_within(#[trigger] s[j], zn, zd, true)
        }),
    decreases cs, cs.len() - i + 1,
{
    let s = layout_children(cs, axis, left, top, w, h, zn, zd, i);
    if 0 <= i < cs.len() {
        let k = cs.len() as int;
        let blk = child_block(cs, axis, left, top, w, h, zn, zd, i);
        let rest = layout_children(cs, axis, left, top, w, h, zn, zd, i + 1);
        lemma_child_block_z_range(cs, axis, left, top, w, h, zn, zd, i);
        lemma_children_z_range(cs, axis, left, top, w, h, zn, zd, i + 1);
        assert forall|j: int| 0 <= j < s.len() implies z_within(#[trigger] s[j], zn, zd, true) by {
            if j < blk.len() {
                assert(s[j] == blk[j]);
            } else {
                assert(s[j] == rest[j - blk.len()]);
            }
        }
    }
}

/// The subtree of child `i` of `k`, whose paint order is
/// `(zn * (k + 1) + i + 1) / (zd * (k + 1))`, lies strictly above `zn / zd`
/// and below the next child's paint order.
pub proof fn lemma_child_block_z_range<T>(
    cs: Seq<Node<T>>,
    axis: FlexDirection,
    left: int,
    top: int,
    w: int,
    h: int,
    zn: int,
    zd: int,
    i: int,
)
    requires
        zd >= 1,
        zn >= 0,
        0 <= i < cs.len(),
    ensures
        ({
            let k = cs.len() as int;
            let b = child_block(cs, axis, left, top, w, h, zn, zd, i);
            &&& forall|j: int| 0 <= j < b.len() ==> z_within(#[trigger] b[j], zn, zd, true)
            &&& forall|j: int| 0 <= j < b.len() ==> z_within(#[trigger] b[j], zn * (k + 1) + i + 1, zd * (k + 1), false)
        }),
    decreases cs, 0int,
{
    let k = cs.len() as int;
    let c = consumed_at(cs, axis, w, h, i);
    let d = cs[i].data;
    let cl = if axis == FlexDirection::Row { left + c } else { left };
    let ct = if axis == FlexDirection::Column { top + c } else { top };
    let cw = child_width(d, axis, w, c, i, k);
    let ch = child_height(d, axis, h, c, i, k);
    let czn = zn * (k + 1) + i + 1;
    let czd = zd * (k + 1);
    assert(czd >= 1 && czn >= 0) by (nonlinear_arith)
        requires
            zd >= 1,
            zn >= 0,
            k >= 1,
            i >= 0,
            czn == zn * (k + 1) + i + 1,
            czd == zd * (k + 1),
    ;
    lemma_subtree_z_range(cs[i], cl, ct, cw, ch, czn, czd);
    let b = child_block(cs, axis, left, top, w, h, zn, zd, i);
    assert(b == layout_node(cs[i], cl, ct, cw, ch, czn, czd));
    assert forall|j: int| 0 <= j < b.len() implies z_within(#[trigger] b[j], zn, zd, true) by {
        let p = b[j];
        assert(z_within(p, czn, czd, false));
        let pn = p.z_num;
        let pd = p.z_den;
        assert(zn * pd < pn * zd && pn * zd < (zn + 1) * pd) by (nonlinear_arith)
            requires
                czn * pd <= pn * czd,
                pn * czd < (czn + 1) * pd,
                czn == zn * (k + 1) + i + 1,
                czd == zd * (k + 1),
                pd >= 1,
                k >= 1,
                0 <= i < k,
        ;
    }
}

/// Sibling subtrees do not interleave in paint order: every rectangle of the
/// subtree of child `i` is painted strictly before every rectangle of the
/// subtree of a later child `j`.
pub proof fn lemma_sibling_subtrees_ordered<T>(
    cs: Seq<Node<T>>,
    axis: FlexDirection,
    left: int,
    top: int,
    w: int,
    h: int,
    zn: int,
    zd: int,
    i: int,
    j: int,
)
    requires
        zd >= 1,
        zn >= 0,
        0 <= i < j < cs.len(),
    ensures
        ({
            let bi = child_block(cs, axis, left, top, w, h, zn, zd, i);
            let bj = child_block(cs, axis, left, top, w, h, zn, zd, j);
            forall|a: int, b: int|
                0 <= a < bi.len() && 0 <= b < bj.len() ==> #[trigger] bi[a].z_num * #[trigger] bj[b].z_den
                    < bj[b].z_num * bi[a].z_den
        }),
{
    let k = cs.len() as int;
    let bi = child_block(cs, axis, left, top, w, h, zn, zd, i);
    let bj = child_block(cs, axis, left, top, w, h, zn, zd, j);
    lemma_child_block_z_range(cs, axis, left, top, w, h, zn, zd, i);
    lemma_child_block_z_range(cs, axis, left, top, w, h, zn, zd, j);
    let d = zd * (k + 1);
    let ni = zn * (k + 1) + i + 1;
    let nj = zn * (k + 1) + j + 1;
    assert(d >= 1) by (nonlinear_arith)
        requires
            zd >= 1,
            k >= 1,
            d == zd * (k + 1),
    ;
    assert forall|a: int, b: int| 0 <= a < bi.len() && 0 <= b < bj.len() implies #[trigger] bi[a].z_num
        * #[trigger] bj[b].z_den < bj[b].z_num * bi[a].z_den by {
        let p = bi[a];
        let q = bj[b];
        assert(z_within(p, ni, d, false));
        assert(z_within(q, nj, d, false));
        let (pn, pd, qn, qd) = (p.z_num, p.z_den, q.z_num, q.z_den);
        assert(pn * qd < qn * pd) by (nonlinear_arith)
            requires
                pn * d < (ni + 1) * pd,
                nj * qd <= qn * d,
                ni + 1 <= nj,
                pd >= 1,
                qd >= 1,
                d >= 1,
        ;
    }
}

/// The rectangle of child `i` itself: the last one of its subtree.
pub open spec fn child_rect<T>(
    cs: Seq<Node<T>>,
    axis: FlexDirection,
    left: int,
    top: int,
    w: int,
    h: int,
    zn: int,
    zd: int,
    i: int,
) -> Placement<T> {
    let b = child_block(cs, axis, left, top, w, h, zn, zd, i);
    b[b.len() - 1]
}

proof fn lemma_child_rect<T>(
    cs: Seq<Node<T>>,
    axis: FlexDirection,
    left: int,
    top: int,
    w: int,
    h: int,
    zn: int,
    zd: int,
    i: int,
)
    requires
        0 <= i < cs.len(),
    ensures
        ({
            let k = cs.len() as int;
            let c = consumed_at(cs, axis, w, h, i);
            let r = child_rect(cs, axis, left, top, w, h, zn, zd, i);
            &&& r.left == if axis == FlexDirection::Row { left + c } else { left }
            &&& r.top == if axis == FlexDirection::Column { top + c } else { top }
            &&& r.width == child_width(cs[i].data, axis, w, c, i, k)
            &&& r.height == child_height(cs[i].data, axis, h, c, i, k)
            &&& r.data == cs[i].data
        }),
{
    let k = cs.len() as int;
    let c = consumed_at(cs, axis, w, h, i);
    let d = cs[i].data;
    lemma_layout_node_split(
        cs[i],
        if axis == FlexDirection::Row { left + c } else { left },
        if axis == FlexDirection::Column { top + c } else { top },
        child_width(d, axis, w, c, i, k),
        child_height(d, axis, h, c, i, k),
        zn * (k + 1) + i + 1,
        zd * (k + 1),
    );
}

/// Children of a row share its width without gap or overlap: each child's
/// left edge is the row's left edge plus the widths of the children before
/// it, and when no child has a width constraint the widths add up to the
/// row's width `w` exactly.
pub proof fn lemma_row_children_fill_width<T>(
    cs: Seq<Node<T>>,
    left: int,
    top: int,
    w: int,
    h: int,
    zn: int,
    zd: int,
)
    requires
        cs.len() >= 1,
        forall|i: int| 0 <= i < cs.len() ==> (#[trigger] cs[i]).data.width is None
            && cs[i].data.max_width is None && cs[i].data.min_width is None,
    ensures
        consumed_at(cs, FlexDirection::Row, w, h, 0) == 0,
        forall|i: int| 0 <= i < cs.len() ==> {
            let r = #[trigger] child_rect(cs, FlexDirection::Row, left, top, w, h, zn, zd, i);
            &&& r.left == left + consumed_at(cs, FlexDirection::Row, w, h, i)
            &&& consumed_at(cs, FlexDirection::Row, w, h, i + 1) == consumed_at(cs, FlexDirection::Row, w, h, i) + r.width
        },
        consumed_at(cs, FlexDirection::Row, w, h, cs.len() as int) == w,
{
    let axis = FlexDirection::Row;
    let k = cs.len() as int;
    assert forall|i: int| 0 <= i < cs.len() implies {
        let r = #[trigger] child_rect(cs, axis, left, top, w, h, zn, zd, i);
        &&& r.left == left + consumed_at(cs, axis, w, h, i)
        &&& consumed_at(cs, axis, w, h, i + 1) == consumed_at(cs, axis, w, h, i) + r.width
    } by {
        lemma_child_rect(cs, axis, left, top, w, h, zn, zd, i);
    }
    let c = consumed_at(cs, axis, w, h, k - 1);
    assert((w - c) / 1 == w - c);
    assert(consumed_at(cs, axis, w, h, k) == c + child_width(cs[k - 1].data, axis, w, c, k - 1, k));
}

/// A child with an exact width and no minimum or maximum width gets that
/// width, whatever the number of its siblings and the space left to it.
pub proof fn lemma_exact_width_kept<T>(
    cs: Seq<Node<T>>,
    axis: FlexDirection,
    left: int,
    top: int,
    w: int,
    h: int,
    zn: int,
    zd: int,
    i: int,
    e: i64,
)
    requires
        0 <= i < cs.len(),
        cs[i].data.width == Some(e),
        cs[i].data.max_width is None,
        cs[i].data.min_width is None,
    ensures
        child_rect(cs, axis, left, top, w, h, zn, zd, i).width == e,
{
    lemma_child_rect(cs, axis, left, top, w, h, zn, zd, i);
}

/// A child with a maximum width `m` and no exact or minimum width, offered
/// more than `m`, gets width `m`.
pub proof fn lemma_max_width_clamps<T>(
    cs: Seq<Node<T>>,
    axis: FlexDirection,
    left: int,
    top: int,
    w: int,
    h: int,
    zn: int,
    zd: int,
    i: int,
    m: i64,
)
    requires
        0 <= i < cs.len(),
        cs[i].data.width is None,
        cs[i].data.max_width == Some(m),
        cs[i].data.min_width is None,
        slot_width(axis, w, consumed_at(cs, axis, w, h, i), i, cs.len() as int) > m,
    ensures
        child_rect(cs, axis, left, top, w, h, zn, zd, i).width == m,
{
    lemma_child_rect(cs, axis, left, top, w, h, zn, zd, i);
}

} // verus!
