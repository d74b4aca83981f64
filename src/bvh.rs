//! The bounding volume hierarchy: a binary tree of boxes over scene objects,
//! built once and read while rendering.

use vstd::prelude::*;
use vstd::seq_lib::{lemma_multiset_commutative, to_multiset_contains};
use crate::aabb::{Aabb, surrounding_spec};
use crate::fixed::Fx;
use crate::hittable::{Hittable, Scene, bbox_spec, links_ok};
use crate::list::HittableList;
use crate::rng;
use crate::vec3::Vec3;

verus! {

/// A node of the hierarchy: two children, by index, and a box holding both.
/// A node over one object has it as both children; a node without children
/// stands for objects that had no box.
#[derive(Clone, Copy, Debug, PartialEq, Eq, Structural)]
pub struct BvhNode {
    /// The left child.
    pub left: Option<usize>,
    /// The right child.
    pub right: Option<usize>,
    /// The box of the node.
    pub bbox: Aabb,
}

/// The coordinate axes.
#[derive(Clone, Copy, Debug, PartialEq, Eq, Structural)]
pub enum Axis {
    /// The x axis.
    X,
    /// The y axis.
    Y,
    /// The z axis.
    Z,
}

impl BvhNode {
    /// A node from its children and box.
    pub fn new(left: Option<usize>, right: Option<usize>, bbox: Aabb) -> (r: Self)
        ensures
            r == (BvhNode { left, right, bbox }),
    {
        BvhNode { left, right, bbox }
    }
}

/// Bound `j` of a box: the lower corner's x, y, z for `j` = 0, 1, 2 and the
/// upper corner's for 3, 4, 5.
pub open spec fn bound(b: Aabb, j: int) -> int {
    if j == 0 {
        b.min.0 as int
    } else if j == 1 {
        b.min.1 as int
    } else if j == 2 {
        b.min.2 as int
    } else if j == 3 {
        b.max.0 as int
    } else if j == 4 {
        b.max.1 as int
    } else {
        b.max.2 as int
    }
}

/// `b` is the union of the boxes of the items: it holds each of them, and
/// each of its six bounds is a bound of one of them.
pub open spec fn union_items(b: Aabb, items: Seq<(usize, Aabb)>) -> bool {
    &&& items.len() > 0
    &&& forall|k: int| 0 <= k < items.len() ==> b.contains_box(#[trigger] items[k].1)
    &&& forall|j: int| 0 <= j < 6 ==> #[trigger] attains(b, items, j)
}

/// Bound `j` of `b` is bound `j` of one of the items' boxes.
pub open spec fn attains(b: Aabb, items: Seq<(usize, Aabb)>, j: int) -> bool {
    exists|k: int| 0 <= k < items.len() && bound(#[trigger] items[k].1, j) == bound(b, j)
}

/// The box a scene object has, or a zero box when it has none.
pub open spec fn box_or_zero(o: Option<Aabb>) -> Aabb {
    match o {
        Some(b) => b,
        None => Aabb { min: Vec3(0, 0, 0), max: Vec3(0, 0, 0) },
    }
}

/// The listed objects, each with its box over `[t0, t1]`.
pub open spec fn object_items(objs: Seq<Hittable>, l: Seq<usize>, t0: int, t1: int) -> Seq<(usize, Aabb)> {
    Seq::new(l.len(), |k: int| (l[k], box_or_zero(bbox_spec(objs, l[k] as int, t0, t1))))
}

/// Every listed object has a box.
pub open spec fn all_bounded(objs: Seq<Hittable>, l: Seq<usize>, t0: int, t1: int) -> bool {
    forall|k: int| 0 <= k < l.len() ==> (#[trigger] bbox_spec(objs, l[k] as int, t0, t1)) is Some
}

/// The bounds of the surrounding box are the minima and maxima of the two
/// boxes' bounds.
proof fn lemma_bound_surrounding(x: Aabb, y: Aabb, j: int)
    requires
        0 <= j < 6,
    ensures
        bound(surrounding_spec(x, y), j) == bound(x, j) || bound(surrounding_spec(x, y), j) == bound(y, j),
{
}

/// The surrounding box of the unions of two item sequences is the union of
/// their concatenation.
pub proof fn lemma_union_concat(x: Aabb, a: Seq<(usize, Aabb)>, y: Aabb, b: Seq<(usize, Aabb)>)
    requires
        union_items(x, a),
        union_items(y, b),
    ensures
        union_items(surrounding_spec(x, y), a + b),
{
    let s = surrounding_spec(x, y);
    let ab = a + b;
    assert forall|k: int| 0 <= k < ab.len() implies s.contains_box(#[trigger] ab[k].1) by {
        if k < a.len() {
            assert(ab[k] == a[k]);
            assert(x.contains_box(a[k].1));
        } else {
            assert(ab[k] == b[k - a.len()]);
            assert(y.contains_box(b[k - a.len()].1));
        }
    }
    assert forall|j: int| 0 <= j < 6 implies #[trigger] attains(s, ab, j) by {
        lemma_bound_surrounding(x, y, j);
        assert(attains(x, a, j));
        assert(attains(y, b, j));
        if bound(s, j) == bound(x, j) {
            let k = choose|k: int| 0 <= k < a.len() && bound(#[trigger] a[k].1, j) == bound(x, j);
            assert(ab[k] == a[k]);
            assert(bound(ab[k].1, j) == bound(s, j));
        } else {
            let k = choose|k: int| 0 <= k < b.len() && bound(#[trigger] b[k].1, j) == bound(y, j);
            assert(ab[a.len() + k] == b[k]);
            assert(bound(ab[a.len() + k].1, j) == bound(s, j));
        }
    }
}

/// A union of items stays one when the items are reordered.
pub proof fn lemma_union_permuted(x: Aabb, a: Seq<(usize, Aabb)>, b: Seq<(usize, Aabb)>)
    requires
        union_items(x, a),
        a.to_multiset() == b.to_multiset(),
    ensures
        union_items(x, b),
{
    a.to_multiset_ensures();
    b.to_multiset_ensures();
    assert forall|k: int| 0 <= k < b.len() implies x.contains_box(#[trigger] b[k].1) by {
        to_multiset_contains(b, b[k]);
        to_multiset_contains(a, b[k]);
        assert(b.contains(b[k]));
        let i = choose|i: int| 0 <= i < a.len() && a[i] == b[k];
        assert(x.contains_box(a[i].1));
    }
    assert forall|j: int| 0 <= j < 6 implies #[trigger] attains(x, b, j) by {
        assert(attains(x, a, j));
        let i = choose|i: int| 0 <= i < a.len() && bound(#[trigger] a[i].1, j) == bound(x, j);
        to_multiset_contains(a, a[i]);
        to_multiset_contains(b, a[i]);
        assert(a.contains(a[i]));
        let k = choose|k: int| 0 <= k < b.len() && b[k] == a[i];
        assert(bound(b[k].1, j) == bound(x, j));
    }
    assert(b.len() == b.to_multiset().len());
}

/// Object `c` is reached from index `x` going down through hierarchy nodes
/// at indices `base` and above; an index below `base` is a leaf.
pub open spec fn reaches(objs: Seq<Hittable>, x: usize, base: int, c: usize) -> bool
    decreases x,
{
    if (x as int) < base {
        x == c
    } else if (x as int) < objs.len() {
        match objs[x as int] {
            Hittable::Bvh(n) => {
                ||| (n.left matches Some(y) && y < x && reaches(objs, y, base, c))
                ||| (n.right matches Some(y) && y < x && reaches(objs, y, base, c))
            },
            _ => false,
        }
    } else {
        false
    }
}

/// Object `c` is reached from one of the node's children.
pub open spec fn node_reaches(objs: Seq<Hittable>, n: BvhNode, base: int, c: usize) -> bool {
    ||| (n.left matches Some(y) && reaches(objs, y, base, c))
    ||| (n.right matches Some(y) && reaches(objs, y, base, c))
}

/// One of the items is object `c`.
pub open spec fn holds_index(items: Seq<(usize, Aabb)>, c: usize) -> bool {
    exists|k: int| 0 <= k < items.len() && #[trigger] items[k].0 == c
}

/// Reaching depends only on the objects below the starting index.
proof fn lemma_reaches_frame(o1: Seq<Hittable>, o2: Seq<Hittable>, x: usize, base: int, c: usize)
    requires
        (x as int) < o1.len() <= o2.len(),
        o2.subrange(0, o1.len() as int) == o1,
    ensures
        reaches(o1, x, base, c) == reaches(o2, x, base, c),
    decreases x,
{
    assert(o2[x as int] == o1[x as int]) by {
        assert(o2.subrange(0, o1.len() as int)[x as int] == o2[x as int]);
    }
    if (x as int) >= base {
        match o1[x as int] {
            Hittable::Bvh(n) => {
                if let Some(y) = n.left {
                    if y < x {
                        lemma_reaches_frame(o1, o2, y, base, c);
                    }
                }
                if let Some(y) = n.right {
                    if y < x {
                        lemma_reaches_frame(o1, o2, y, base, c);
                    }
                }
            },
            _ => {},
        }
    }
}

/// The items split into two parts hold the same objects as before.
proof fn lemma_holds_split(items: Seq<(usize, Aabb)>, sorted: Seq<(usize, Aabb)>, lower: Seq<(usize, Aabb)>, upper: Seq<(usize, Aabb)>, c: usize)
    requires
        sorted.to_multiset() == items.to_multiset(),
        sorted == lower + upper,
    ensures
        holds_index(items, c) <==> (holds_index(lower, c) || holds_index(upper, c)),
{
    if holds_index(items, c) {
        let k = choose|k: int| 0 <= k < items.len() && #[trigger] items[k].0 == c;
        to_multiset_contains(items, items[k]);
        to_multiset_contains(sorted, items[k]);
        assert(items.contains(items[k]));
        let j = choose|j: int| 0 <= j < sorted.len() && sorted[j] == items[k];
        if j < lower.len() {
            assert(lower[j] == sorted[j]);
        } else {
            assert(upper[j - lower.len()] == sorted[j]);
        }
    }
    if holds_index(lower, c) || holds_index(upper, c) {
        let j = if holds_index(lower, c) {
            let q = choose|q: int| 0 <= q < lower.len() && #[trigger] lower[q].0 == c;
            assert(sorted[q] == lower[q]);
            q
        } else {
            let q = choose|q: int| 0 <= q < upper.len() && #[trigger] upper[q].0 == c;
            assert(sorted[lower.len() + q] == upper[q]);
            lower.len() + q
        };
        to_multiset_contains(sorted, sorted[j]);
        to_multiset_contains(items, sorted[j]);
        assert(sorted.contains(sorted[j]));
        let k = choose|k: int| 0 <= k < items.len() && items[k] == sorted[j];
        assert(items[k].0 == c);
    }
}

/// A node over three or more items: they were reordered and split into a
/// lower part of half of them (rounded down) and an upper part, every lower
/// item starting no higher on `axis` than any upper item; the left child
/// reaches exactly the lower items' objects and the right child the upper
/// ones'.
pub open spec fn split_ok(objs: Seq<Hittable>, n: BvhNode, base: int, items: Seq<(usize, Aabb)>, lo: Seq<(usize, Aabb)>, up: Seq<(usize, Aabb)>, axis: Axis) -> bool {
    &&& (lo + up).to_multiset() == items.to_multiset()
    &&& lo.len() == items.len() / 2
    &&& forall|a: int, b: int| 0 <= a < lo.len() && 0 <= b < up.len() ==> key_spec(#[trigger] lo[a].1, axis) <= key_spec(#[trigger] up[b].1, axis)
    &&& n.left matches Some(li) && forall|c: usize| #[trigger] reaches(objs, li, base, c) <==> holds_index(lo, c)
    &&& n.right matches Some(ri) && forall|c: usize| #[trigger] reaches(objs, ri, base, c) <==> holds_index(up, c)
}

/// The number of levels of a hierarchy over `n` objects split in halves:
/// one for up to two objects, and one more than for the larger half
/// otherwise; this is at most `ceil(log2 n) + 1`.
pub open spec fn levels(n: int) -> int
    decreases n,
{
    if n <= 2 {
        1
    } else {
        1 + levels(n - n / 2)
    }
}

/// The height of the hierarchy below index `x`, whose nodes stand at `base`
/// and above; an index below `base` is a leaf of height 0.
pub open spec fn height(objs: Seq<Hittable>, x: usize, base: int) -> nat
    decreases x,
{
    if (x as int) < base || (x as int) >= objs.len() {
        0
    } else {
        match objs[x as int] {
            Hittable::Bvh(n) => {
                let hl = match n.left {
                    Some(y) => if y < x { height(objs, y, base) } else { 0 },
                    None => 0,
                };
                let hr = match n.right {
                    Some(y) => if y < x { height(objs, y, base) } else { 0 },
                    None => 0,
                };
                1 + if hl >= hr { hl } else { hr }
            },
            _ => 0,
        }
    }
}

/// The number of levels of node `n`: one more than its taller child.
pub open spec fn node_height(objs: Seq<Hittable>, n: BvhNode, base: int) -> nat {
    let hl = match n.left {
        Some(y) => height(objs, y, base),
        None => 0,
    };
    let hr = match n.right {
        Some(y) => height(objs, y, base),
        None => 0,
    };
    1 + if hl >= hr { hl } else { hr }
}

/// More objects never take fewer levels.
proof fn lemma_levels_mono(a: int, b: int)
    requires
        1 <= a <= b,
    ensures
        1 <= levels(a) <= levels(b),
    decreases b,
{
    if b > 2 {
        if a > 2 {
            lemma_levels_mono(a - a / 2, b - b / 2);
        } else {
            lemma_levels_mono(1, b - b / 2);
        }
    }
}

/// The height depends only on the objects below the starting index.
proof fn lemma_height_frame(o1: Seq<Hittable>, o2: Seq<Hittable>, x: usize, base: int)
    requires
        (x as int) < o1.len() <= o2.len(),
        o2.subrange(0, o1.len() as int) == o1,
    ensures
        height(o1, x, base) == height(o2, x, base),
    decreases x,
{
    assert(o2[x as int] == o1[x as int]) by {
        assert(o2.subrange(0, o1.len() as int)[x as int] == o2[x as int]);
    }
    if (x as int) >= base {
        match o1[x as int] {
            Hittable::Bvh(n) => {
                if let Some(y) = n.left {
                    if y < x {
                        lemma_height_frame(o1, o2, y, base);
                    }
                }
                if let Some(y) = n.right {
                    if y < x {
                        lemma_height_frame(o1, o2, y, base);
                    }
                }
            },
            _ => {},
        }
    }
}

/// The node's children are hierarchy nodes of the arena and its box is the
/// surrounding box of theirs.
pub open spec fn children_box_ok(objs: Seq<Hittable>, n: BvhNode) -> bool {
    match (n.left, n.right) {
        (Some(li), Some(ri)) => 0 <= li < objs.len() && 0 <= ri < objs.len() && match (objs[li as int], objs[ri as int]) {
            (Hittable::Bvh(ln), Hittable::Bvh(rn)) => n.bbox == surrounding_spec(ln.bbox, rn.bbox),
            _ => false,
        },
        _ => false,
    }
}

/// A node over two objects, each with its box: the first is the left child
/// when its box starts strictly lower on `axis`, else the second is.
pub open spec fn pair_ok(n: BvhNode, a: (usize, Aabb), b: (usize, Aabb), axis: Axis) -> bool {
    if key_spec(a.1, axis) < key_spec(b.1, axis) {
        n.left == Some(a.0) && n.right == Some(b.0)
    } else {
        n.left == Some(b.0) && n.right == Some(a.0)
    }
}

/// The lower bound of a box on an axis, the key the hierarchy sorts by.
pub open spec fn key_spec(b: Aabb, axis: Axis) -> int {
    match axis {
        Axis::X => b.min.0 as int,
        Axis::Y => b.min.1 as int,
        Axis::Z => b.min.2 as int,
    }
}

/// The lower bound of a box on an axis.
fn key(b: &Aabb, axis: Axis) -> (r: Fx)
    ensures
        r == key_spec(*b, axis),
{
    match axis {
        Axis::X => b.min.0,
        Axis::Y => b.min.1,
        Axis::Z => b.min.2,
    }
}

/// The items in increasing order of their key on `axis`, by selection.
fn sort_items(items: Vec<(usize, Aabb)>, axis: Axis) -> (r: Vec<(usize, Aabb)>)
    ensures
        r@.to_multiset() == items@.to_multiset(),
        r@.len() == items@.len(),
        forall|a: int, b: int| 0 <= a < b < r@.len() ==> key_spec(r@[a].1, axis) <= key_spec(r@[b].1, axis),
{
    let mut rest = items;
    let mut out: Vec<(usize, Aabb)> = Vec::new();
    let ghost all = rest@;
    proof {
        lemma_multiset_commutative(out@, rest@);
        assert(out@ + rest@ =~= rest@);
    }
    while rest.len() > 0
        invariant
            (out@ + rest@).to_multiset() == all.to_multiset(),
            out@.len() + rest@.len() == all.len(),
            forall|a: int, b: int| 0 <= a < b < out@.len() ==> key_spec(out@[a].1, axis) <= key_spec(out@[b].1, axis),
            forall|a: int, b: int| 0 <= a < out@.len() && 0 <= b < rest@.len() ==> key_spec(out@[a].1, axis) <= key_spec(rest@[b].1, axis),
        decreases rest@.len(),
    {
        let mut best: usize = 0;
        let mut i: usize = 1;
        while i < rest.len()
            invariant
                0 <= best < rest@.len(),
                1 <= i <= rest@.len(),
                forall|b: int| 0 <= b < i ==> key_spec(rest@[best as int].1, axis) <= key_spec(rest@[b].1, axis),
            decreases rest@.len() - i,
        {
            if BvhNode::box_compare(&rest[i].1, &rest[best].1, axis) {
                best = i;
            }
            i = i + 1;
        }
        let ghost old_rest = rest@;
        let ghost old_out = out@;
        let x = rest.remove(best);
        out.push(x);
        proof {
            old_rest.to_multiset_ensures();
            old_out.to_multiset_ensures();
            lemma_multiset_commutative(old_out, old_rest);
            lemma_multiset_commutative(out@, rest@);
            assert(rest@ == old_rest.remove(best as int));
            assert(out@ == old_out.push(x));
            assert(old_rest.to_multiset().contains(x)) by {
                to_multiset_contains(old_rest, x);
                assert(old_rest[best as int] == x);
            }
            assert((out@ + rest@).to_multiset() =~= (old_out + old_rest).to_multiset());
            assert forall|a: int, b: int| 0 <= a < out@.len() && 0 <= b < rest@.len() implies key_spec(out@[a].1, axis) <= key_spec(rest@[b].1, axis) by {
                if b < best {
                    assert(rest@[b] == old_rest[b]);
                } else {
                    assert(rest@[b] == old_rest[b + 1]);
                }
            }
        }
    }
    proof {
        assert(out@ + rest@ =~= out@);
    }
    out
}

impl BvhNode {
    /// Whether box `a` starts below box `b` on `axis`.
    pub fn box_compare(a: &Aabb, b: &Aabb, axis: Axis) -> (r: bool)
        ensures
            r == (key_spec(*a, axis) < key_spec(*b, axis)),
    {
        key(a, axis) < key(b, axis)
    }

    /// A node over the items, which are objects of the scene with their
    /// boxes; the nodes below it are added to the scene.
    fn build(rng: &mut rand_chacha::ChaCha8Rng, scene: &mut Scene, items: Vec<(usize, Aabb)>, Ghost(base): Ghost<int>) -> (r: BvhNode)
        requires
            old(scene).wf(),
            items@.len() > 0,
            base <= old(scene).objects@.len(),
            forall|k: int| 0 <= k < items@.len() ==> #[trigger] items@[k].0 < base,
        ensures
            final(scene).wf(),
            final(scene).materials@ == old(scene).materials@,
            final(scene).objects@.len() >= old(scene).objects@.len(),
            final(scene).objects@.subrange(0, old(scene).objects@.len() as int) == old(scene).objects@,
            links_ok(Hittable::Bvh(r), final(scene).objects@.len() as int, final(scene).materials@.len() as int),
            r.left is Some && r.right is Some,
            union_items(r.bbox, items@),
            items@.len() == 1 ==> r.left == Some(items@[0].0) && r.right == Some(items@[0].0),
            items@.len() == 2 ==> exists|axis: Axis| #[trigger] pair_ok(r, items@[0], items@[1], axis),
            forall|c: usize| #[trigger] node_reaches(final(scene).objects@, r, base, c) <==> holds_index(items@, c),
            items@.len() >= 3 ==> exists|lo: Seq<(usize, Aabb)>, up: Seq<(usize, Aabb)>, axis: Axis|
                #[trigger] split_ok(final(scene).objects@, r, base, items@, lo, up, axis),
            items@.len() == 1 ==> r.bbox == surrounding_spec(items@[0].1, items@[0].1),
            items@.len() == 2 ==> r.bbox == surrounding_spec(items@[0].1, items@[1].1),
            items@.len() >= 3 ==> children_box_ok(final(scene).objects@, r),
            node_height(final(scene).objects@, r, base) <= levels(items@.len() as int),
        decreases items@.len(),
    {
        let axis = match rng::random_below(rng, 3) {
            0 => Axis::X,
            1 => Axis::Y,
            _ => Axis::Z,
        };
        let n = items.len();
        if n == 1 {
            let (i, b) = items[0];
            let bbox = Aabb::surrounding_box(&b, &b);
            proof {
                assert(bound(items@[0].1, 0) == bound(bbox, 0));
                assert(bound(items@[0].1, 1) == bound(bbox, 1));
                assert(bound(items@[0].1, 2) == bound(bbox, 2));
                assert(bound(items@[0].1, 3) == bound(bbox, 3));
                assert(bound(items@[0].1, 4) == bound(bbox, 4));
                assert(bound(items@[0].1, 5) == bound(bbox, 5));
            }
            proof {
                assert forall|c: usize| #[trigger] node_reaches(scene.objects@, BvhNode { left: Some(i), right: Some(i), bbox }, base, c) <==> holds_index(items@, c) by {
                    if holds_index(items@, c) {
                        let k = choose|k: int| 0 <= k < items@.len() && #[trigger] items@[k].0 == c;
                    }
                    assert(items@[0].0 == i);
                }
            }
            return BvhNode { left: Some(i), right: Some(i), bbox };
        }
        if n == 2 {
            let (i0, b0) = items[0];
            let (i1, b1) = items[1];
            let (l, lb, rr, rb) = if Self::box_compare(&b0, &b1, axis) {
                (i0, b0, i1, b1)
            } else {
                (i1, b1, i0, b0)
            };
            let bbox = Aabb::surrounding_box(&lb, &rb);
            proof {
                assert forall|j: int| 0 <= j < 6 implies #[trigger] attains(bbox, items@, j) by {
                    lemma_bound_surrounding(lb, rb, j);
                    if bound(bbox, j) == bound(items@[0].1, j) {
                        assert(bound(items@[0].1, j) == bound(bbox, j));
                    } else {
                        assert(bound(items@[1].1, j) == bound(bbox, j));
                    }
                }
            }
            let node = BvhNode { left: Some(l), right: Some(rr), bbox };
            assert(pair_ok(node, items@[0], items@[1], axis));
            proof {
                assert forall|c: usize| #[trigger] node_reaches(scene.objects@, node, base, c) <==> holds_index(items@, c) by {
                    if holds_index(items@, c) {
                        let k = choose|k: int| 0 <= k < items@.len() && #[trigger] items@[k].0 == c;
                    }
                    assert(items@[0].0 == i0 && items@[1].0 == i1);
                }
            }
            return node;
        }
        let sorted = sort_items(items, axis);
        let mid = n / 2;
        let mut lower: Vec<(usize, Aabb)> = Vec::new();
        let mut upper: Vec<(usize, Aabb)> = Vec::new();
        let mut k: usize = 0;
        while k < n
            invariant
                n == sorted@.len(),
                0 <= mid < n,
                k <= n,
                k <= mid ==> lower@ == sorted@.subrange(0, k as int) && upper@.len() == 0,
                k > mid ==> lower@ == sorted@.subrange(0, mid as int) && upper@ == sorted@.subrange(mid as int, k as int),
            decreases n - k,
        {
            if k < mid {
                lower.push(sorted[k]);
            } else {
                upper.push(sorted[k]);
            }
            k = k + 1;
            proof {
                if k <= mid {
                    assert(lower@ =~= sorted@.subrange(0, k as int));
                } else {
                    assert(upper@ =~= sorted@.subrange(mid as int, k as int));
                    assert(lower@ =~= sorted@.subrange(0, mid as int));
                }
            }
        }
        let ghost s0 = scene.objects@;
        let ghost lower_s = lower@;
        let ghost upper_s = upper@;
        proof {
            assert(sorted@ =~= lower_s + upper_s);
            sorted@.to_multiset_ensures();
            items@.to_multiset_ensures();
            assert forall|q: int| 0 <= q < lower_s.len() implies #[trigger] lower_s[q].0 < scene.objects@.len() by {
                assert(lower_s[q] == sorted@[q]);
                assert(sorted@.contains(sorted@[q]));
                to_multiset_contains(sorted@, sorted@[q]);
                to_multiset_contains(items@, sorted@[q]);
            }
            assert forall|q: int| 0 <= q < upper_s.len() implies #[trigger] upper_s[q].0 < scene.objects@.len() by {
                assert(upper_s[q] == sorted@[mid + q]);
                assert(sorted@.contains(sorted@[mid + q]));
                to_multiset_contains(sorted@, sorted@[mid + q]);
                to_multiset_contains(items@, sorted@[mid + q]);
            }
        }
        proof {
            assert forall|q: int| 0 <= q < lower_s.len() implies #[trigger] lower_s[q].0 < base by {
                assert(lower_s[q] == sorted@[q]);
                assert(sorted@.contains(sorted@[q]));
                to_multiset_contains(sorted@, sorted@[q]);
                to_multiset_contains(items@, sorted@[q]);
            }
            assert forall|q: int| 0 <= q < upper_s.len() implies #[trigger] upper_s[q].0 < base by {
                assert(upper_s[q] == sorted@[mid + q]);
                assert(sorted@.contains(sorted@[mid + q]));
                to_multiset_contains(sorted@, sorted@[mid + q]);
                to_multiset_contains(items@, sorted@[mid + q]);
            }
        }
        let left = Self::build(rng, scene, lower, Ghost(base));
        let ghost s1 = scene.objects@;
        let li = scene.add(Hittable::Bvh(left));
        let ghost s2 = scene.objects@;
        proof {
            assert forall|q: int| 0 <= q < upper_s.len() implies #[trigger] upper_s[q].0 < scene.objects@.len() by {
            }
        }
        let right = Self::build(rng, scene, upper, Ghost(base));
        let ghost s3 = scene.objects@;
        let ri = scene.add(Hittable::Bvh(right));
        let bbox = Aabb::surrounding_box(&left.bbox, &right.bbox);
        proof {
            lemma_union_concat(left.bbox, lower_s, right.bbox, upper_s);
            lemma_union_permuted(bbox, lower_s + upper_s, items@);
            assert(s1.subrange(0, s0.len() as int) == s0);
            assert(s2.subrange(0, s0.len() as int) =~= s1.subrange(0, s0.len() as int));
            assert(s3.subrange(0, s2.len() as int) == s2);
            assert(s3.subrange(0, s0.len() as int) =~= s2.subrange(0, s0.len() as int));
            assert(scene.objects@.subrange(0, s0.len() as int) =~= s3.subrange(0, s0.len() as int));
            let s4 = scene.objects@;
            assert(s4.subrange(0, s3.len() as int) =~= s3);
            assert(s4.subrange(0, s1.len() as int) =~= s1) by {
                assert(s3.subrange(0, s1.len() as int) =~= s1);
            }
            assert(s4[li as int] == Hittable::Bvh(left)) by {
                assert(s3.subrange(0, s2.len() as int)[li as int] == s2[li as int]);
            }
            assert(s4[ri as int] == Hittable::Bvh(right));
            assert forall|c: usize| #[trigger] node_reaches(s4, BvhNode { left: Some(li), right: Some(ri), bbox }, base, c) <==> holds_index(items@, c) by {
                lemma_holds_split(items@, sorted@, lower_s, upper_s, c);
                if let Some(y) = left.left {
                    lemma_reaches_frame(s1, s4, y, base, c);
                }
                if let Some(y) = left.right {
                    lemma_reaches_frame(s1, s4, y, base, c);
                }
                if let Some(y) = right.left {
                    lemma_reaches_frame(s3, s4, y, base, c);
                }
                if let Some(y) = right.right {
                    lemma_reaches_frame(s3, s4, y, base, c);
                }
                assert(node_reaches(s1, left, base, c) <==> holds_index(lower_s, c));
                assert(node_reaches(s3, right, base, c) <==> holds_index(upper_s, c));
            }
            assert forall|c: usize| #[trigger] reaches(s4, li, base, c) <==> holds_index(lower_s, c) by {
                if let Some(y) = left.left {
                    lemma_reaches_frame(s1, s4, y, base, c);
                }
                if let Some(y) = left.right {
                    lemma_reaches_frame(s1, s4, y, base, c);
                }
                assert(node_reaches(s1, left, base, c) <==> holds_index(lower_s, c));
            }
            assert forall|c: usize| #[trigger] reaches(s4, ri, base, c) <==> holds_index(upper_s, c) by {
                if let Some(y) = right.left {
                    lemma_reaches_frame(s3, s4, y, base, c);
                }
                if let Some(y) = right.right {
                    lemma_reaches_frame(s3, s4, y, base, c);
                }
                assert(node_reaches(s3, right, base, c) <==> holds_index(upper_s, c));
            }
            assert forall|a: int, b: int| 0 <= a < lower_s.len() && 0 <= b < upper_s.len() implies key_spec(#[trigger] lower_s[a].1, axis) <= key_spec(#[trigger] upper_s[b].1, axis) by {
                assert(lower_s[a] == sorted@[a]);
                assert(upper_s[b] == sorted@[mid + b]);
            }
            assert(split_ok(s4, BvhNode { left: Some(li), right: Some(ri), bbox }, base, items@, lower_s, upper_s, axis));
            if let Some(y) = left.left {
                lemma_height_frame(s1, s4, y, base);
            }
            if let Some(y) = left.right {
                lemma_height_frame(s1, s4, y, base);
            }
            if let Some(y) = right.left {
                lemma_height_frame(s3, s4, y, base);
            }
            if let Some(y) = right.right {
                lemma_height_frame(s3, s4, y, base);
            }
            assert(height(s4, li, base) == node_height(s1, left, base));
            assert(height(s4, ri, base) == node_height(s3, right, base));
            lemma_levels_mono(mid as int, (n - mid) as int);
            assert(node_height(s4, BvhNode { left: Some(li), right: Some(ri), bbox }, base) <= levels(n as int));
        }
        BvhNode { left: Some(li), right: Some(ri), bbox }
    }

    /// The hierarchy over the objects of `list`, with boxes over
    /// `[time0, time1]`, split at each level along a randomly chosen axis;
    /// the nodes below the returned one are added to the scene. When an
    /// object has no box, the node has no children and a zero box.
    pub fn bvh_node(rng: &mut rand_chacha::ChaCha8Rng, scene: &mut Scene, list: &mut HittableList, time0: Fx, time1: Fx) -> (r: Self)
        requires
            old(scene).wf(),
            old(list).objects@.len() > 0,
            forall|k: int| 0 <= k < old(list).objects@.len() ==> #[trigger] old(list).objects@[k] < old(scene).objects@.len(),
        ensures
            final(list).objects@ == old(list).objects@,
            final(scene).wf(),
            final(scene).materials@ == old(scene).materials@,
            final(scene).objects@.len() >= old(scene).objects@.len(),
            final(scene).objects@.subrange(0, old(scene).objects@.len() as int) == old(scene).objects@,
            links_ok(Hittable::Bvh(r), final(scene).objects@.len() as int, final(scene).materials@.len() as int),
            all_bounded(old(scene).objects@, old(list).objects@, time0 as int, time1 as int) ==> {
                &&& r.left is Some && r.right is Some
                &&& union_items(r.bbox, object_items(old(scene).objects@, old(list).objects@, time0 as int, time1 as int))
            },
            all_bounded(old(scene).objects@, old(list).objects@, time0 as int, time1 as int) ==> forall|c: usize|
                #[trigger] node_reaches(final(scene).objects@, r, old(scene).objects@.len() as int, c) <==> old(list).objects@.contains(c),
            all_bounded(old(scene).objects@, old(list).objects@, time0 as int, time1 as int) && old(list).objects@.len() >= 3
                ==> exists|lo: Seq<(usize, Aabb)>, up: Seq<(usize, Aabb)>, axis: Axis| #[trigger] split_ok(
                    final(scene).objects@,
                    r,
                    old(scene).objects@.len() as int,
                    object_items(old(scene).objects@, old(list).objects@, time0 as int, time1 as int),
                    lo,
                    up,
                    axis,
                ),
            all_bounded(old(scene).objects@, old(list).objects@, time0 as int, time1 as int) && old(list).objects@.len() >= 3
                ==> children_box_ok(final(scene).objects@, r),
            all_bounded(old(scene).objects@, old(list).objects@, time0 as int, time1 as int)
                ==> node_height(final(scene).objects@, r, old(scene).objects@.len() as int) <= levels(old(list).objects@.len() as int),
            all_bounded(old(scene).objects@, old(list).objects@, time0 as int, time1 as int) && old(list).objects@.len() == 2
                ==> r.bbox == surrounding_spec(
                    object_items(old(scene).objects@, old(list).objects@, time0 as int, time1 as int)[0].1,
                    object_items(old(scene).objects@, old(list).objects@, time0 as int, time1 as int)[1].1,
                ),
            all_bounded(old(scene).objects@, old(list).objects@, time0 as int, time1 as int) && old(list).objects@.len() == 1
                ==> r.left == Some(old(list).objects@[0]) && r.right == Some(old(list).objects@[0]),
            all_bounded(old(scene).objects@, old(list).objects@, time0 as int, time1 as int) && old(list).objects@.len() == 2
                ==> exists|axis: Axis| #[trigger] pair_ok(
                    r,
                    object_items(old(scene).objects@, old(list).objects@, time0 as int, time1 as int)[0],
                    object_items(old(scene).objects@, old(list).objects@, time0 as int, time1 as int)[1],
                    axis,
                ),
            !all_bounded(old(scene).objects@, old(list).objects@, time0 as int, time1 as int)
                ==> r.left is None && r.right is None && r.bbox == (Aabb { min: Vec3(0, 0, 0), max: Vec3(0, 0, 0) }),
    {
        let mut items: Vec<(usize, Aabb)> = Vec::new();
        let mut k: usize = 0;
        let ghost objs = scene.objects@;
        let ghost l = list.objects@;
        while k < list.objects.len()
            invariant
                scene.wf(),
                scene.objects@ == objs,
                list.objects@ == l,
                k <= l.len(),
                forall|q: int| 0 <= q < l.len() ==> #[trigger] l[q] < objs.len(),
                items@ == object_items(objs, l, time0 as int, time1 as int).subrange(0, k as int),
                all_bounded(objs, l.subrange(0, k as int), time0 as int, time1 as int),
            decreases l.len() - k,
        {
            let i = list.objects[k];
            match scene.bounding_box(i, time0, time1) {
                Some(b) => {
                    items.push((i, b));
                    proof {
                        assert(items@ =~= object_items(objs, l, time0 as int, time1 as int).subrange(0, k + 1));
                        assert forall|q: int| 0 <= q < k + 1 implies (#[trigger] bbox_spec(objs, l.subrange(0, k + 1)[q] as int, time0 as int, time1 as int)) is Some by {
                            if q < k {
                                assert(l.subrange(0, k as int)[q] == l[q]);
                                assert(bbox_spec(objs, l.subrange(0, k as int)[q] as int, time0 as int, time1 as int) is Some);
                            }
                        }
                    }
                },
                None => {
                    proof {
                        assert(bbox_spec(objs, l[k as int] as int, time0 as int, time1 as int) is None);
                    }
                    return BvhNode { left: None, right: None, bbox: Aabb { min: Vec3(0, 0, 0), max: Vec3(0, 0, 0) } };
                },
            }
            k = k + 1;
        }
        proof {
            assert(l.subrange(0, l.len() as int) =~= l);
            assert(items@ =~= object_items(objs, l, time0 as int, time1 as int));
        }
        let r = Self::build(rng, scene, items, Ghost(objs.len() as int));
        proof {
            assert forall|c: usize| #[trigger] node_reaches(scene.objects@, r, objs.len() as int, c) <==> l.contains(c) by {
                if l.contains(c) {
                    let k = choose|k: int| 0 <= k < l.len() && l[k] == c;
                    assert(object_items(objs, l, time0 as int, time1 as int)[k].0 == c);
                }
                if holds_index(object_items(objs, l, time0 as int, time1 as int), c) {
                    let k = choose|k: int| 0 <= k < l.len() && #[trigger] object_items(objs, l, time0 as int, time1 as int)[k].0 == c;
                    assert(l[k] == c);
                }
            }
        }
        r
    }
}

} // verus!
