//! The bounding-volume hierarchy: a binary tree of boxes built once over a
//! set of hittables and queried per ray. Construction sorts each span
//! along a randomly chosen axis and splits at the midpoint; whatever order
//! the members arrived in and whichever axes were drawn, the root box is
//! provably the union of every member's box and the tree's leaves are
//! provably the members' own leaves.

use vstd::prelude::*;
use vstd::multiset::Multiset;
use vstd::seq_lib::group_to_multiset_ensures;
use crate::aabb::{hit_b, union_b, Aabb};
use crate::fixed::FMAX;
use crate::hittable::{bbox_s, hit_rec_s, list_hit_s, no_random_s, node_hit_s,
    HitRecord, Hittable};
use crate::hittable_list::HittableList;
use crate::interval::{contains_s, Interval, INF, NEG_INF};
use crate::ray::Ray;
use crate::rng::Rng;
use crate::rtweekend::random_int;

verus! {

broadcast use group_to_multiset_ensures, vstd::multiset::group_multiset_axioms;

#[derive(Debug)]
pub struct BvhNode {
    pub left: Box<Hittable>,
    pub right: Box<Hittable>,
    pub bbox: Aabb,
}

/// The union of the boxes of a non-empty sequence of objects.
pub open spec fn union_all_s(s: Seq<Hittable>) -> Aabb
    recommends
        s.len() >= 1,
    decreases s.len(),
{
    if s.len() <= 1 {
        bbox_s(s[0])
    } else {
        union_b(union_all_s(s.drop_last()), bbox_s(s.last()))
    }
}

/// The box union over a concatenation splits into the unions of the parts.
pub proof fn lemma_union_all_concat(a: Seq<Hittable>, b: Seq<Hittable>)
    requires
        a.len() >= 1,
        b.len() >= 1,
    ensures
        union_all_s(a + b) == union_b(union_all_s(a), union_all_s(b)),
    decreases b.len(),
{
    let s = a + b;
    if b.len() == 1 {
        assert(s.drop_last() =~= a);
        assert(s.last() == b[0]);
    } else {
        assert(s.drop_last() =~= a + b.drop_last());
        assert(s.last() == b.last());
        lemma_union_all_concat(a, b.drop_last());
        crate::aabb::lemma_box_union_associates(union_all_s(a),
            union_all_s(b.drop_last()), bbox_s(b.last()));
    }
}

/// The box union over a sequence equals the union of the box at one
/// position with the union over the rest.
pub proof fn lemma_union_all_remove(s: Seq<Hittable>, j: int)
    requires
        s.len() >= 2,
        0 <= j < s.len(),
    ensures
        union_all_s(s) == union_b(union_all_s(s.remove(j)), bbox_s(s[j])),
{
    let n = s.len() as int;
    let pre = s.subrange(0, j);
    let mid = seq![s[j]];
    let suf = s.subrange(j + 1, n);
    if j == n - 1 {
        assert(s.drop_last() =~= s.remove(j));
        assert(s.last() == s[j]);
    } else if j == 0 {
        assert(s =~= mid + suf);
        lemma_union_all_concat(mid, suf);
        assert(s.remove(j) =~= suf);
        crate::aabb::lemma_box_union_commutes(bbox_s(s[j]), union_all_s(suf));
    } else {
        assert(s =~= pre + (mid + suf));
        lemma_union_all_concat(mid, suf);
        lemma_union_all_concat(pre, mid + suf);
        assert(s.remove(j) =~= pre + suf);
        lemma_union_all_concat(pre, suf);
        crate::aabb::lemma_box_union_associates(union_all_s(pre), bbox_s(s[j]),
            union_all_s(suf));
        crate::aabb::lemma_box_union_commutes(bbox_s(s[j]), union_all_s(suf));
        crate::aabb::lemma_box_union_associates(union_all_s(pre), union_all_s(suf),
            bbox_s(s[j]));
    }
}

/// Sequences holding the same objects in any order have the same box
/// union: the union is a function of the multiset alone.
pub proof fn lemma_union_all_permutation(s1: Seq<Hittable>, s2: Seq<Hittable>)
    requires
        s1.len() >= 1,
        s1.to_multiset() == s2.to_multiset(),
    ensures
        union_all_s(s1) == union_all_s(s2),
    decreases s1.len(),
{
    s1.to_multiset_ensures();
    s2.to_multiset_ensures();
    assert(s2.len() == s1.len());
    let x = s1.last();
    assert(s1.contains(x));
    assert(s1.to_multiset().count(x) > 0);
    assert(s2.to_multiset().count(x) > 0);
    assert(s2.contains(x));
    let j = choose|j: int| 0 <= j < s2.len() && s2[j] == x;
    if s1.len() == 1 {
        assert(s2[0] == x) by {
            assert(j == 0);
        }
    } else {
        let s1p = s1.drop_last();
        let s2p = s2.remove(j);
        assert(s1 =~= s1p.push(x));
        assert(s1.to_multiset() =~= s1p.to_multiset().insert(x));
        assert(s2p.to_multiset() =~= s2.to_multiset().remove(x));
        assert(s1p.to_multiset() =~= s2p.to_multiset()) by {
            assert(s1p.to_multiset() =~= s1.to_multiset().remove(x));
        }
        lemma_union_all_permutation(s1p, s2p);
        lemma_union_all_remove(s2, j);
    }
}

/// The axis minimum of an object's box, the sort key of the builder.
fn box_min_axis(h: &Hittable, axis: i32) -> (r: i64)
    ensures
        r == if axis == 1 {
            bbox_s(*h).y.min
        } else if axis == 2 {
            bbox_s(*h).z.min
        } else {
            bbox_s(*h).x.min
        },
{
    let b = h.bounding_box();
    let iv = b.axis(axis);
    iv.min
}

/// Reorder the objects by ascending box minimum along one axis, keeping
/// exactly the same objects.
fn sort_by_axis(v: &mut Vec<Hittable>, axis: i32)
    ensures
        final(v)@.to_multiset() == old(v)@.to_multiset(),
        final(v)@.len() == old(v)@.len(),
{
    let ghost orig = v@.to_multiset();
    let mut out: Vec<Hittable> = Vec::new();
    proof {
        out@.to_multiset_ensures();
        assert(out@.to_multiset() =~= Multiset::<Hittable>::empty()) by {
            assert(out@.to_multiset().len() == 0);
        }
    }
    while v.len() > 0
        invariant
            v@.to_multiset().add(out@.to_multiset()) =~= orig,
            v@.len() + out@.len() == orig.len(),
        decreases v@.len(),
    {
        let mut m: usize = 0;
        let mut best = box_min_axis(&v[0], axis);
        let mut c: usize = 1;
        while c < v.len()
            invariant
                0 <= m < v@.len(),
                1 <= c <= v@.len(),
            decreases v@.len() - c,
        {
            let k = box_min_axis(&v[c], axis);
            if k < best {
                best = k;
                m = c;
            }
            c += 1;
        }
        let x = v.remove(m);
        out.push(x);
        proof {
            assert(v@.to_multiset().add(out@.to_multiset()) =~= orig);
        }
    }
    proof {
        assert(v@.to_multiset().len() == 0);
        assert(out@.to_multiset() =~= orig);
    }
    *v = out;
}

impl BvhNode {
    /// A degenerate node over nothing: two empty aggregates and an empty
    /// box.
    pub fn new() -> (r: BvhNode)
        ensures
            r.bbox == (Aabb {
                x: Interval { min: INF, max: NEG_INF },
                y: Interval { min: INF, max: NEG_INF },
                z: Interval { min: INF, max: NEG_INF },
            }),
    {
        BvhNode {
            left: Box::new(Hittable::List(HittableList::new())),
            right: Box::new(Hittable::List(HittableList::new())),
            bbox: Aabb::new(),
        }
    }

    /// Build the hierarchy over every member of an aggregate.
    pub fn from_list(list: HittableList, rng: &mut Rng) -> (r: BvhNode)
        requires
            list.objects@.len() >= 1,
        ensures
            r.bbox == union_all_s(list.objects@),
            list.objects@.len() >= 2 ==> leaves_s(Hittable::Node(r)).to_multiset()
                == leaves_concat_s(list.objects@).to_multiset(),
            list.objects@.len() == 1 ==> *r.left == list.objects@[0]
                && inert_s(*r.right),
    {
        BvhNode::from(list.objects, rng)
    }

    /// Build one node over a non-empty span: a single object becomes a
    /// degenerate node holding it beside an inert empty aggregate; two
    /// objects are ordered by a single-axis comparison; a longer span is
    /// sorted along an axis chosen at random and split at the midpoint.
    /// The node's box is the union of every member's box, and for spans of
    /// two or more the tree's leaves are exactly the members' leaves.
    pub fn from(objects: Vec<Hittable>, rng: &mut Rng) -> (r: BvhNode)
        requires
            objects@.len() >= 1,
        ensures
            r.bbox == union_all_s(objects@),
            objects@.len() >= 2 ==> leaves_s(Hittable::Node(r)).to_multiset()
                == leaves_concat_s(objects@).to_multiset(),
            objects@.len() == 1 ==> *r.left == objects@[0] && inert_s(*r.right),
        decreases objects@.len(), 0int,
    {
        let ghost input = objects@;
        let mut objects = objects;
        let axis_draw = random_int(rng, 0, 2);
        let axis: i32 = axis_draw as i32;
        let span = objects.len();
        if span == 1 {
            let obj = objects.remove(0);
            let b = obj.bounding_box();
            proof {
                assert(union_all_s(input) == bbox_s(input[0]));
            }
            BvhNode {
                left: Box::new(obj),
                right: Box::new(Hittable::List(HittableList::new())),
                bbox: b,
            }
        } else if span == 2 {
            let key0 = box_min_axis(&objects[0], axis);
            let key1 = box_min_axis(&objects[1], axis);
            let second = objects.remove(1);
            let first = objects.remove(0);
            let b0 = first.bounding_box();
            let b1 = second.bounding_box();
            proof {
                assert(first == input[0]);
                assert(second == input[1]);
                assert(input.drop_last() =~= seq![first]);
                assert(input.last() == second);
                assert(seq![first][0] == first);
                assert(union_all_s(seq![first]) == bbox_s(first));
                assert(union_all_s(input) == union_b(union_all_s(input.drop_last()),
                    bbox_s(input.last())));
                crate::aabb::lemma_box_union_commutes(b0, b1);
                assert(union_all_s(input) == union_b(b0, b1));
                lemma_leaves_concat_pair(input);
                vstd::seq_lib::lemma_multiset_commutative(leaves_s(first),
                    leaves_s(second));
                vstd::seq_lib::lemma_multiset_commutative(leaves_s(second),
                    leaves_s(first));
            }
            if key0 == key1 {
                BvhNode { left: Box::new(first), right: Box::new(second),
                    bbox: Aabb::from_bbox(b0, b1) }
            } else {
                BvhNode { left: Box::new(second), right: Box::new(first),
                    bbox: Aabb::from_bbox(b1, b0) }
            }
        } else {
            sort_by_axis(&mut objects, axis);
            let ghost sorted = objects@;
            let mid = span / 2;
            let right_vec = objects.split_off(mid);
            let ghost left_seq = objects@;
            let ghost right_seq = right_vec@;
            let left_h = subtree(objects, rng);
            let right_h = subtree(right_vec, rng);
            let lb = left_h.bounding_box();
            let rb = right_h.bounding_box();
            proof {
                assert(span >= 3);
                assert(1 <= mid < span);
                assert(left_seq.len() == mid);
                assert(right_seq.len() == span - mid);
                assert(sorted =~= left_seq + right_seq);
                lemma_union_all_concat(left_seq, right_seq);
                lemma_union_all_permutation(sorted, input);
                vstd::seq_lib::lemma_multiset_commutative(leaves_s(left_h),
                    leaves_s(right_h));
                lemma_leaves_concat_split(left_seq, right_seq);
                lemma_leaves_concat_permutation(sorted, input);
            }
            BvhNode {
                left: Box::new(left_h),
                right: Box::new(right_h),
                bbox: Aabb::from_bbox(lb, rb),
            }
        }
    }

    /// Query the node: nothing when the slab test rejects its box;
    /// otherwise the left child sees the full interval and the right child
    /// an interval whose upper bound is tightened to the left hit, so the
    /// nearer hit survives without an explicit comparison.
    pub fn hit(&self, r: &Ray, ray_t: Interval, rng: &mut Rng) -> (res: Option<
        HitRecord,
    >)
        requires
            -FMAX <= ray_t.min,
            ray_t.max <= FMAX,
        ensures
            no_random_s(*self.left) && no_random_s(*self.right) ==> res == node_hit_s(
                *self, *r, ray_t),
            res matches Some(rec) ==> contains_s(ray_t, rec.t as int) && -FMAX <= rec.t
                <= FMAX,
        decreases *self,
    {
        if !self.bbox.hit(r, ray_t) {
            return None;
        }
        let hit_left = self.left.hit(r, ray_t, rng);
        let upper = match &hit_left {
            Some(rec) => rec.t,
            None => ray_t.max,
        };
        let hit_right = self.right.hit(r, Interval { min: ray_t.min, max: upper }, rng);
        match hit_right {
            Some(_) => hit_right,
            None => hit_left,
        }
    }
}

/// The leaf objects of a tree, left to right; a non-node is its own leaf.
pub open spec fn leaves_s(h: Hittable) -> Seq<Hittable>
    decreases h,
{
    match h {
        Hittable::Node(n) => leaves_s(*n.left) + leaves_s(*n.right),
        _ => seq![h],
    }
}

/// Whether every node box of a tree covers, for one ray, every hit its
/// leaves can report: the reported parameter lies strictly inside the
/// node's three slabs and strictly inside the queried interval. Exact
/// geometry guarantees this; fixed-point rounding can perturb it at slab
/// boundaries, so it stands as the hypothesis of the equivalence law.
pub open spec fn covered_s(h: Hittable, r: Ray) -> bool
    decreases h,
{
    match h {
        Hittable::Node(n) => {
            &&& forall|itv: Interval| #[trigger] list_hit_s(leaves_s(h), r, itv)
                matches Some(rec) ==> crate::aabb::strictly_inside_s(n.bbox, r,
                    rec.t as int) && itv.min < rec.t < itv.max
            &&& covered_s(*n.left, r)
            &&& covered_s(*n.right, r)
        },
        _ => true,
    }
}

/// Scanning a concatenation equals scanning the first part, then the
/// second with the upper bound tightened to the first part's hit: the
/// exact shape in which a hierarchy node combines its children.
pub proof fn lemma_list_hit_concat(a: Seq<Hittable>, b: Seq<Hittable>, r: Ray,
    itv: Interval)
    ensures
        list_hit_s(a + b, r, itv) == ({
            let la = list_hit_s(a, r, itv);
            let ub = match la {
                Some(rec) => rec.t,
                None => itv.max,
            };
            let lb = list_hit_s(b, r, Interval { min: itv.min, max: ub });
            match lb {
                Some(_) => lb,
                None => la,
            }
        }),
    decreases a.len(),
{
    if a.len() == 0 {
        assert(a + b =~= b);
        assert((Interval { min: itv.min, max: itv.max }) == itv);
    } else {
        let s = a + b;
        assert(s.len() > 0);
        assert(s[0] == a[0]);
        assert(s.drop_first() =~= a.drop_first() + b);
        match hit_rec_s(a[0], r, itv) {
            None => {
                lemma_list_hit_concat(a.drop_first(), b, r, itv);
            },
            Some(rec) => {
                lemma_list_hit_concat(a.drop_first(), b, r, Interval {
                    min: itv.min,
                    max: rec.t,
                });
            },
        }
    }
}

/// Query equivalence: wherever the boxes cover their leaves' hits for the
/// ray, querying a hierarchy yields exactly the nearest hit that a linear
/// scan of its leaf sequence yields, for every parameter interval.
pub proof fn lemma_bvh_query_equiv(h: Hittable, r: Ray, ray_t: Interval)
    requires
        covered_s(h, r),
    ensures
        hit_rec_s(h, r, ray_t) == list_hit_s(leaves_s(h), r, ray_t),
    decreases h,
{
    match h {
        Hittable::Node(n) => {
            let leaves = leaves_s(h);
            assert(leaves == leaves_s(*n.left) + leaves_s(*n.right));
            if !hit_b(n.bbox, r, ray_t) {
                match list_hit_s(leaves, r, ray_t) {
                    None => {},
                    Some(rec) => {
                        assert(crate::aabb::strictly_inside_s(n.bbox, r, rec.t as int)
                            && ray_t.min < rec.t < ray_t.max);
                        crate::aabb::lemma_slab_complete(n.bbox, r, ray_t,
                            rec.t as int);
                        assert(false);
                    },
                }
            } else {
                lemma_bvh_query_equiv(*n.left, r, ray_t);
                let lh = hit_rec_s(*n.left, r, ray_t);
                let upper = match lh {
                    Some(rec) => rec.t,
                    None => ray_t.max,
                };
                lemma_bvh_query_equiv(*n.right, r, Interval { min: ray_t.min,
                    max: upper });
                lemma_list_hit_concat(leaves_s(*n.left), leaves_s(*n.right), r, ray_t);
            }
        },
        _ => {
            let s = seq![h];
            assert(leaves_s(h) == s);
            assert(s[0] == h);
            assert(s.drop_first() =~= Seq::<Hittable>::empty());
            match hit_rec_s(h, r, ray_t) {
                None => {
                    assert(list_hit_s(s.drop_first(), r, ray_t) is None);
                },
                Some(rec) => {
                    assert(list_hit_s(s.drop_first(), r, Interval { min: ray_t.min,
                        max: rec.t }) is None);
                },
            }
        },
    }
}

/// Box-order blindness: hierarchies built from the same objects in any
/// order report the same root bounding box, because that box is the union
/// over the object multiset.
pub proof fn lemma_build_box_order_blind(s1: Seq<Hittable>, s2: Seq<Hittable>)
    requires
        s1.len() >= 1,
        s1.to_multiset() == s2.to_multiset(),
    ensures
        union_all_s(s1) == union_all_s(s2),
{
    lemma_union_all_permutation(s1, s2);
}

/// A subtree over a non-empty span: a single object stands as its own
/// leaf, a longer span becomes a node. The subtree's box is the union of
/// the members' boxes and its leaves are exactly the members' leaves.
fn subtree(objects: Vec<Hittable>, rng: &mut Rng) -> (r: Hittable)
    requires
        objects@.len() >= 1,
    ensures
        bbox_s(r) == union_all_s(objects@),
        leaves_s(r).to_multiset() == leaves_concat_s(objects@).to_multiset(),
    decreases objects@.len(), 1int,
{
    let ghost input = objects@;
    let mut objects = objects;
    if objects.len() == 1 {
        let obj = objects.remove(0);
        proof {
            assert(union_all_s(input) == bbox_s(input[0]));
            lemma_leaves_concat_single(input);
        }
        obj
    } else {
        let node = BvhNode::from(objects, rng);
        Hittable::Node(node)
    }
}

/// An inert placeholder: an aggregate with no members, which no ray hits.
pub open spec fn inert_s(h: Hittable) -> bool {
    h matches Hittable::List(l) && l.objects@.len() == 0
}

/// The leaves of every object in a sequence, left to right. For objects
/// that are not hierarchy nodes this is the sequence itself.
pub open spec fn leaves_concat_s(s: Seq<Hittable>) -> Seq<Hittable>
    decreases s,
{
    if s.len() == 0 {
        Seq::empty()
    } else {
        leaves_s(s[0]) + leaves_concat_s(s.drop_first())
    }
}

/// The leaves of a one-object sequence are that object's leaves.
proof fn lemma_leaves_concat_single(s: Seq<Hittable>)
    requires
        s.len() == 1,
    ensures
        leaves_concat_s(s) == leaves_s(s[0]),
{
    assert(leaves_concat_s(s) == leaves_s(s[0]) + leaves_concat_s(s.drop_first()));
    assert(s.drop_first() =~= Seq::<Hittable>::empty());
    assert(leaves_concat_s(s.drop_first()) =~= Seq::<Hittable>::empty());
    assert(leaves_s(s[0]) + Seq::<Hittable>::empty() =~= leaves_s(s[0]));
}

/// The leaves of a two-object sequence are the two objects' leaves in
/// order.
proof fn lemma_leaves_concat_pair(s: Seq<Hittable>)
    requires
        s.len() == 2,
    ensures
        leaves_concat_s(s) == leaves_s(s[0]) + leaves_s(s[1]),
{
    assert(s.drop_first().len() == 1);
    assert(s.drop_first()[0] == s[1]);
    lemma_leaves_concat_single(s.drop_first());
}

/// Concatenated sequences contribute their leaves side by side.
pub proof fn lemma_leaves_concat_split(a: Seq<Hittable>, b: Seq<Hittable>)
    ensures
        leaves_concat_s(a + b).to_multiset() == leaves_concat_s(a).to_multiset().add(
            leaves_concat_s(b).to_multiset()),
    decreases a.len(),
{
    if a.len() == 0 {
        assert(a + b =~= b);
        assert(leaves_concat_s(a) =~= Seq::<Hittable>::empty());
        assert(leaves_concat_s(a).to_multiset() =~= Multiset::<Hittable>::empty())
            by {
            assert(leaves_concat_s(a).to_multiset().len() == 0);
        }
        assert(leaves_concat_s(a).to_multiset().add(leaves_concat_s(b).to_multiset())
            =~= leaves_concat_s(b).to_multiset());
    } else {
        let s = a + b;
        assert(s.len() > 0);
        assert(s[0] == a[0]);
        assert(s.drop_first() =~= a.drop_first() + b);
        lemma_leaves_concat_split(a.drop_first(), b);
        vstd::seq_lib::lemma_multiset_commutative(leaves_s(a[0]),
            leaves_concat_s(a.drop_first() + b));
        vstd::seq_lib::lemma_multiset_commutative(leaves_s(a[0]),
            leaves_concat_s(a.drop_first()));
        assert(leaves_concat_s(a + b).to_multiset() =~= leaves_concat_s(
            a).to_multiset().add(leaves_concat_s(b).to_multiset()));
    }
}

/// The leaves of a sequence are the leaves of one member beside the leaves
/// of the rest.
pub proof fn lemma_leaves_concat_remove(s: Seq<Hittable>, j: int)
    requires
        0 <= j < s.len(),
    ensures
        leaves_concat_s(s).to_multiset() == leaves_concat_s(s.remove(j)).to_multiset()
            .add(leaves_s(s[j]).to_multiset()),
{
    let n = s.len() as int;
    let pre = s.subrange(0, j);
    let mid = seq![s[j]];
    let suf = s.subrange(j + 1, n);
    assert(s =~= pre + (mid + suf));
    assert(s.remove(j) =~= pre + suf);
    lemma_leaves_concat_split(pre, mid + suf);
    lemma_leaves_concat_split(mid, suf);
    lemma_leaves_concat_split(pre, suf);
    lemma_leaves_concat_single(mid);
    assert(mid[0] == s[j]);
    assert(leaves_concat_s(s).to_multiset() =~= leaves_concat_s(
        s.remove(j)).to_multiset().add(leaves_s(s[j]).to_multiset()));
}

/// Sequences holding the same objects in any order contribute the same
/// leaves.
pub proof fn lemma_leaves_concat_permutation(s1: Seq<Hittable>, s2: Seq<Hittable>)
    requires
        s1.to_multiset() == s2.to_multiset(),
    ensures
        leaves_concat_s(s1).to_multiset() == leaves_concat_s(s2).to_multiset(),
    decreases s1.len(),
{
    s1.to_multiset_ensures();
    s2.to_multiset_ensures();
    assert(s2.len() == s1.len());
    if s1.len() == 0 {
        assert(leaves_concat_s(s1) =~= Seq::<Hittable>::empty());
        assert(leaves_concat_s(s2) =~= Seq::<Hittable>::empty());
    } else {
        let x = s1.last();
        assert(s1.contains(x));
        assert(s1.to_multiset().count(x) > 0);
        assert(s2.to_multiset().count(x) > 0);
        assert(s2.contains(x));
        let j = choose|j: int| 0 <= j < s2.len() && s2[j] == x;
        let s1p = s1.drop_last();
        let s2p = s2.remove(j);
        assert(s1 =~= s1p.push(x));
        assert(s1.to_multiset() =~= s1p.to_multiset().insert(x));
        assert(s2p.to_multiset() =~= s2.to_multiset().remove(x));
        assert(s1p.to_multiset() =~= s2p.to_multiset()) by {
            assert(s1p.to_multiset() =~= s1.to_multiset().remove(x));
        }
        lemma_leaves_concat_permutation(s1p, s2p);
        assert(s1.remove(s1.len() - 1) =~= s1p);
        lemma_leaves_concat_remove(s1, s1.len() - 1);
        lemma_leaves_concat_remove(s2, j);
        assert(leaves_concat_s(s1).to_multiset() =~= leaves_concat_s(
            s2).to_multiset());
    }
}

} // verus!
