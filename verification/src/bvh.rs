use vstd::prelude::*;
use vstd::seq_lib::lemma_multiset_commutative;
use crate::ray::{Ray, T_LIMIT, scene_ray_ok};
use crate::aabb::{
    BoundingBox,
    seg_hits_box,
    lemma_interior_point_witness,
    lemma_inside_monotone,
    surrounding_box,
};
use crate::hit_record::HitRecord;
use crate::objects::{Primitive, prim_wf, prim_hit, prim_box, lemma_prim_hit_in_box};
use crate::hittable::{
    scene_hit,
    all_wf,
    lemma_scene_hit_char,
    lemma_scene_hit_in_window,
    lemma_scene_hit_same_multiset,
};

verus! {

/// A reference from a tree node to one of its children: an earlier node of
/// the arena, a leaf primitive, or nothing (for singleton subtrees).
#[derive(Clone, Copy, Debug, PartialEq, Eq, Structural)]
pub enum BvhChild {
    Node(usize),
    Leaf(usize),
    Absent,
}

/// One internal node: two children and the box that covers both.
#[derive(Clone, Copy, Debug, PartialEq, Eq, Structural)]
pub struct BvhNode {
    pub left: BvhChild,
    pub right: BvhChild,
    pub bounding_box: BoundingBox,
}

/// Build diagnostics: how many primitives went in and how deep the leaves
/// sit.
#[derive(Clone, Copy, Debug, PartialEq, Eq, Structural)]
pub struct BvhMetrics {
    pub num_objects: usize,
    pub min_depth: usize,
    pub max_depth: usize,
}

/// Bounding Volume Hierarchy. Stores the primitives in a flat array and the
/// tree as an arena of nodes whose children always have smaller indices than
/// their parent.
#[derive(Clone, Debug)]
pub struct Bvh {
    pub nodes: Vec<BvhNode>,
    pub items: Vec<Primitive>,
    pub root: usize,
}

/// The primitives below one child reference.
pub open spec fn child_items(
    nodes: Seq<BvhNode>,
    items: Seq<Primitive>,
    c: BvhChild,
    parent: int,
) -> Seq<Primitive>
    decreases parent, 0int,
{
    match c {
        BvhChild::Node(j) => if 0 <= j < parent {
            node_items(nodes, items, j as int)
        } else {
            Seq::empty()
        },
        BvhChild::Leaf(k) => if 0 <= k < items.len() {
            seq![items[k as int]]
        } else {
            Seq::empty()
        },
        BvhChild::Absent => Seq::empty(),
    }
}

/// The primitives below one node, left subtree first.
pub open spec fn node_items(nodes: Seq<BvhNode>, items: Seq<Primitive>, i: int) -> Seq<Primitive>
    decreases i, 1int,
{
    if 0 <= i < nodes.len() {
        child_items(nodes, items, nodes[i].left, i) + child_items(nodes, items, nodes[i].right, i)
    } else {
        Seq::empty()
    }
}

/// The subtree rooted at node `i` covers exactly the primitives stored at
/// positions `lo..hi`, its children have smaller arena indices, a range of
/// three or more is split at its midpoint, and each node's box is exactly
/// the `surrounding_box` union of its children's boxes.
pub open spec fn subtree_wf(
    nodes: Seq<BvhNode>,
    items: Seq<Primitive>,
    i: int,
    lo: int,
    hi: int,
) -> bool
    decreases i,
{
    &&& 0 <= i < nodes.len()
    &&& 0 <= lo
    &&& hi <= items.len()
    &&& nodes[i].bounding_box.wf()
    &&& match (nodes[i].left, nodes[i].right) {
        (BvhChild::Leaf(k), BvhChild::Absent) => {
            &&& lo + 1 == hi
            &&& k == lo
            &&& nodes[i].bounding_box == prim_box(items[lo])
        },
        (BvhChild::Leaf(k1), BvhChild::Leaf(k2)) => {
            &&& lo + 2 == hi
            &&& ((k1 == lo && k2 == lo + 1) || (k1 == lo + 1 && k2 == lo))
            &&& nodes[i].bounding_box == crate::aabb::spec_surrounding_box(
                prim_box(items[lo]),
                prim_box(items[lo + 1]),
            )
        },
        (BvhChild::Node(j1), BvhChild::Node(j2)) => {
            &&& j1 < i
            &&& j2 < i
            &&& lo < lo + (hi - lo) / 2 < hi
            &&& subtree_wf(nodes, items, j1 as int, lo, lo + (hi - lo) / 2)
            &&& subtree_wf(nodes, items, j2 as int, lo + (hi - lo) / 2, hi)
            &&& nodes[i].bounding_box == crate::aabb::spec_surrounding_box(
                nodes[j1 as int].bounding_box,
                nodes[j2 as int].bounding_box,
            )
        },
        _ => false,
    }
}

/// A well-formed subtree over `lo..hi` holds exactly those primitives, as a
/// multiset.
pub proof fn lemma_subtree_items(
    nodes: Seq<BvhNode>,
    items: Seq<Primitive>,
    i: int,
    lo: int,
    hi: int,
)
    requires
        subtree_wf(nodes, items, i, lo, hi),
    ensures
        node_items(nodes, items, i).to_multiset() == items.subrange(lo, hi).to_multiset(),
        node_items(nodes, items, i).len() == hi - lo,
    decreases i,
{
    let n = nodes[i];
    match (n.left, n.right) {
        (BvhChild::Leaf(k), BvhChild::Absent) => {
            assert(node_items(nodes, items, i) =~= seq![items[lo]]);
            assert(items.subrange(lo, hi) =~= seq![items[lo]]);
        },
        (BvhChild::Leaf(k1), BvhChild::Leaf(k2)) => {
            let a = node_items(nodes, items, i);
            let b = items.subrange(lo, hi);
            assert(b =~= seq![items[lo], items[lo + 1]]);
            if k1 == lo {
                assert(a =~= seq![items[lo], items[lo + 1]]);
            } else {
                assert(a =~= seq![items[lo + 1], items[lo]]);
                assert(a =~= seq![items[lo + 1]] + seq![items[lo]]);
                assert(b =~= seq![items[lo]] + seq![items[lo + 1]]);
                lemma_multiset_commutative(seq![items[lo + 1]], seq![items[lo]]);
                lemma_multiset_commutative(seq![items[lo]], seq![items[lo + 1]]);
                assert(a.to_multiset() =~= b.to_multiset());
            }
        },
        (BvhChild::Node(j1), BvhChild::Node(j2)) => {
            let m = lo + (hi - lo) / 2;
            lemma_subtree_items(nodes, items, j1 as int, lo, m);
            lemma_subtree_items(nodes, items, j2 as int, m, hi);
            let la = node_items(nodes, items, j1 as int);
            let rb = node_items(nodes, items, j2 as int);
            assert(node_items(nodes, items, i) =~= la + rb);
            lemma_multiset_commutative(la, rb);
            assert(items.subrange(lo, hi) =~= items.subrange(lo, m) + items.subrange(m, hi));
            lemma_multiset_commutative(items.subrange(lo, m), items.subrange(m, hi));
        },
        _ => {},
    }
}

/// Every primitive below a well-formed subtree is well formed, provided the
/// stored array is.
pub proof fn lemma_subtree_all_wf(
    nodes: Seq<BvhNode>,
    items: Seq<Primitive>,
    i: int,
    lo: int,
    hi: int,
)
    requires
        subtree_wf(nodes, items, i, lo, hi),
        all_wf(items),
    ensures
        all_wf(node_items(nodes, items, i)),
{
    lemma_subtree_items(nodes, items, i, lo, hi);
    let sub = items.subrange(lo, hi);
    let ni = node_items(nodes, items, i);
    ni.to_multiset_ensures();
    sub.to_multiset_ensures();
    assert forall|k: int| 0 <= k < ni.len() implies prim_wf(#[trigger] ni[k]) by {
        assert(ni.contains(ni[k]));
        assert(ni.to_multiset().count(ni[k]) > 0);
        assert(sub.contains(ni[k]));
        let j = choose|j: int| 0 <= j < sub.len() && sub[j] == ni[k];
        assert(sub[j] == items[lo + j]);
    }
}

/// A node's box covers the stored box of every primitive below it.
pub proof fn lemma_subtree_box_covers(
    nodes: Seq<BvhNode>,
    items: Seq<Primitive>,
    i: int,
    lo: int,
    hi: int,
)
    requires
        subtree_wf(nodes, items, i, lo, hi),
    ensures
        forall|k: int|
            0 <= k < node_items(nodes, items, i).len() ==> nodes[i].bounding_box.contains(
                prim_box(#[trigger] node_items(nodes, items, i)[k]),
            ),
    decreases i,
{
    let n = nodes[i];
    let ni = node_items(nodes, items, i);
    match (n.left, n.right) {
        (BvhChild::Leaf(k), BvhChild::Absent) => {
            assert(ni =~= seq![items[lo]]);
        },
        (BvhChild::Leaf(k1), BvhChild::Leaf(k2)) => {
            crate::aabb::law_surrounding_box_contains(prim_box(items[lo]), prim_box(items[lo + 1]));
            if k1 == lo {
                assert(ni =~= seq![items[lo], items[lo + 1]]);
            } else {
                assert(ni =~= seq![items[lo + 1], items[lo]]);
            }
        },
        (BvhChild::Node(j1), BvhChild::Node(j2)) => {
            let m = lo + (hi - lo) / 2;
            crate::aabb::law_surrounding_box_contains(
                nodes[j1 as int].bounding_box,
                nodes[j2 as int].bounding_box,
            );
            lemma_subtree_box_covers(nodes, items, j1 as int, lo, m);
            lemma_subtree_box_covers(nodes, items, j2 as int, m, hi);
            let la = node_items(nodes, items, j1 as int);
            let rb = node_items(nodes, items, j2 as int);
            assert(ni =~= la + rb);
            assert forall|k: int|
                0 <= k < ni.len() implies n.bounding_box.contains(prim_box(#[trigger] ni[k])) by {
                if k < la.len() {
                    assert(ni[k] == la[k]);
                } else {
                    assert(ni[k] == rb[k - la.len()]);
                }
            }
        },
        _ => {},
    }
}

/// The pruning step is sound: when the slab test rejects a node's box, no
/// primitive below the node hits the ray in the window.
pub proof fn lemma_prune(
    nodes: Seq<BvhNode>,
    items: Seq<Primitive>,
    i: int,
    lo: int,
    hi: int,
    ray: Ray,
    tmin: int,
    tmax: int,
)
    requires
        subtree_wf(nodes, items, i, lo, hi),
        all_wf(items),
        scene_ray_ok(ray),
        -T_LIMIT <= tmin <= T_LIMIT,
        -T_LIMIT <= tmax <= T_LIMIT,
        !seg_hits_box(
            nodes[i].bounding_box.min,
            nodes[i].bounding_box.max,
            ray.origin,
            ray.direction,
            tmin,
            tmax,
        ),
    ensures
        scene_hit(node_items(nodes, items, i), ray, tmin, tmax) is None,
{
    let ni = node_items(nodes, items, i);
    lemma_scene_hit_char(ni, ray, tmin, tmax);
    lemma_subtree_all_wf(nodes, items, i, lo, hi);
    lemma_subtree_box_covers(nodes, items, i, lo, hi);
    if scene_hit(ni, ray, tmin, tmax) is Some {
        let rec = scene_hit(ni, ray, tmin, tmax).unwrap();
        let k = choose|k: int|
            0 <= k < ni.len() && prim_hit(#[trigger] ni[k], ray, tmin, tmax) == Some(rec);
        lemma_prim_hit_in_box(ni[k], ray, tmin, tmax);
        lemma_inside_monotone(
            prim_box(ni[k]),
            nodes[i].bounding_box,
            ray.origin,
            ray.direction,
            rec.t as int,
            crate::T_SCALE as int,
        );
        lemma_interior_point_witness(
            nodes[i].bounding_box.min,
            nodes[i].bounding_box.max,
            ray.origin,
            ray.direction,
            tmin,
            tmax,
            rec.t as int,
        );
    }
}

impl Bvh {
    /// The whole structure is a well-formed tree over the stored primitives.
    pub open spec fn wf(self) -> bool {
        &&& all_wf(self.items@)
        &&& subtree_wf(self.nodes@, self.items@, self.root as int, 0, self.items@.len() as int)
    }

    /// The primitives the tree was built over, in tree order.
    pub open spec fn spec_items(self) -> Seq<Primitive> {
        node_items(self.nodes@, self.items@, self.root as int)
    }

    /// Intersects the subtree rooted at `i`, which covers the stored
    /// primitives `lo..hi`: reports exactly what a linear scan of those
    /// primitives over the same window reports.
    #[verifier::rlimit(100)]
    fn hit_node(
        &self,
        i: usize,
        Ghost(lo): Ghost<int>,
        Ghost(hi): Ghost<int>,
        ray: &Ray,
        t_min: i64,
        t_max: i64,
    ) -> (res: Option<HitRecord>)
        requires
            subtree_wf(self.nodes@, self.items@, i as int, lo, hi),
            all_wf(self.items@),
            scene_ray_ok(*ray),
            -T_LIMIT <= t_min <= T_LIMIT,
            -T_LIMIT <= t_max <= T_LIMIT,
        ensures
            res == scene_hit(
                node_items(self.nodes@, self.items@, i as int),
                *ray,
                t_min as int,
                t_max as int,
            ),
        decreases i,
    {
        let node = &self.nodes[i];
        let ghost ni = node_items(self.nodes@, self.items@, i as int);
        if !node.bounding_box.hit(ray, t_min, t_max) {
            proof {
                lemma_prune(
                    self.nodes@,
                    self.items@,
                    i as int,
                    lo,
                    hi,
                    *ray,
                    t_min as int,
                    t_max as int,
                );
            }
            return None;
        }
        match (node.left, node.right) {
            (BvhChild::Leaf(k), BvhChild::Absent) => {
                let res = self.items[k].hit(ray, t_min, t_max);
                proof {
                    assert(ni =~= seq![self.items@[k as int]]);
                    crate::hittable::lemma_scene_hit_singleton(
                        self.items@[k as int],
                        *ray,
                        t_min as int,
                        t_max as int,
                    );
                }
                res
            },
            (BvhChild::Leaf(k1), BvhChild::Leaf(k2)) => {
                let ghost la = seq![self.items@[k1 as int]];
                let ghost rb = seq![self.items@[k2 as int]];
                let left_res = self.items[k1].hit(ray, t_min, t_max);
                let closest = match left_res {
                    Some(hr) => hr.t,
                    None => t_max,
                };
                proof {
                    crate::hittable::lemma_scene_hit_singleton(
                        self.items@[k1 as int],
                        *ray,
                        t_min as int,
                        t_max as int,
                    );
                    crate::hittable::lemma_scene_hit_singleton(
                        self.items@[k2 as int],
                        *ray,
                        t_min as int,
                        closest as int,
                    );
                    lemma_scene_hit_in_window(la, *ray, t_min as int, t_max as int);
                }
                let right_res = self.items[k2].hit(ray, t_min, closest);
                proof {
                    assert(ni =~= la + rb);
                    crate::hittable::lemma_combine_children(
                        la,
                        rb,
                        *ray,
                        t_min as int,
                        t_max as int,
                    );
                }
                match right_res {
                    Some(hr) => Some(hr),
                    None => left_res,
                }
            },
            (BvhChild::Node(j1), BvhChild::Node(j2)) => {
                let ghost m = lo + (hi - lo) / 2;
                let ghost la = node_items(self.nodes@, self.items@, j1 as int);
                let ghost rb = node_items(self.nodes@, self.items@, j2 as int);
                let left_res = self.hit_node(j1, Ghost(lo), Ghost(m), ray, t_min, t_max);
                let closest = match left_res {
                    Some(hr) => hr.t,
                    None => t_max,
                };
                proof {
                    lemma_subtree_all_wf(self.nodes@, self.items@, j1 as int, lo, m);
                    lemma_subtree_all_wf(self.nodes@, self.items@, j2 as int, m, hi);
                    lemma_scene_hit_in_window(la, *ray, t_min as int, t_max as int);
                }
                let right_res = self.hit_node(j2, Ghost(m), Ghost(hi), ray, t_min, closest);
                proof {
                    assert(ni =~= la + rb);
                    crate::hittable::lemma_combine_children(
                        la,
                        rb,
                        *ray,
                        t_min as int,
                        t_max as int,
                    );
                }
                match right_res {
                    Some(hr) => Some(hr),
                    None => left_res,
                }
            },
            _ => {
                proof {
                    assert(false);
                }
                None
            },
        }
    }

    /// Intersects the ray with everything in the tree: reports exactly what a
    /// linear scan of the stored primitives reports, never a farther hit and
    /// never a missed one.
    pub fn hit(&self, ray: &Ray, t_min: i64, t_max: i64) -> (res: Option<HitRecord>)
        requires
            self.wf(),
            scene_ray_ok(*ray),
            -T_LIMIT <= t_min <= T_LIMIT,
            -T_LIMIT <= t_max <= T_LIMIT,
        ensures
            res == scene_hit(self.spec_items(), *ray, t_min as int, t_max as int),
    {
        self.hit_node(
            self.root,
            Ghost(0),
            Ghost(self.items@.len() as int),
            ray,
            t_min,
            t_max,
        )
    }

    pub fn bounding_box(&self, time0: i64, time1: i64) -> (r: BoundingBox)
        requires
            self.wf(),
        ensures
            r == self.nodes@[self.root as int].bounding_box,
            r.wf(),
    {
        self.nodes[self.root].bounding_box
    }
}

/// The tree holds exactly the primitives it stores: querying it is querying
/// the stored array, in some order.
pub proof fn lemma_bvh_items_complete(b: Bvh)
    requires
        b.wf(),
    ensures
        b.spec_items().to_multiset() == b.items@.to_multiset(),
        b.spec_items().len() == b.items@.len(),
{
    lemma_subtree_items(b.nodes@, b.items@, b.root as int, 0, b.items@.len() as int);
    assert(b.items@.subrange(0, b.items@.len() as int) =~= b.items@);
}

/// The hierarchy agrees with a plain linear scan: for every ray and window,
/// both report a hit for the same rays, and the reported parameters are
/// equal. The scanned list may hold the same primitives in any order.
pub proof fn law_bvh_matches_linear_scan(b: Bvh, ps: Seq<Primitive>, ray: Ray, tmin: int, tmax: int)
    requires
        b.wf(),
        ps.to_multiset() == b.items@.to_multiset(),
    ensures
        scene_hit(b.spec_items(), ray, tmin, tmax) is Some <==> scene_hit(ps, ray, tmin, tmax)
            is Some,
        (scene_hit(b.spec_items(), ray, tmin, tmax) is Some && scene_hit(ps, ray, tmin, tmax)
            is Some) ==> scene_hit(b.spec_items(), ray, tmin, tmax).unwrap().t == scene_hit(
            ps,
            ray,
            tmin,
            tmax,
        ).unwrap().t,
{
    lemma_bvh_items_complete(b);
    lemma_scene_hit_same_multiset(b.spec_items(), ps, ray, tmin, tmax);
}

/// A well-formed subtree stays well formed when nodes are appended to the
/// arena and the stored primitives outside the subtree's own range change.
pub proof fn lemma_subtree_frame(
    nodes1: Seq<BvhNode>,
    items1: Seq<Primitive>,
    nodes2: Seq<BvhNode>,
    items2: Seq<Primitive>,
    i: int,
    lo: int,
    hi: int,
)
    requires
        subtree_wf(nodes1, items1, i, lo, hi),
        nodes2.len() >= nodes1.len(),
        forall|j: int| 0 <= j < nodes1.len() ==> nodes2[j] == nodes1[j],
        items2.len() == items1.len(),
        forall|k: int| lo <= k < hi ==> items2[k] == items1[k],
    ensures
        subtree_wf(nodes2, items2, i, lo, hi),
    decreases i,
{
    let n = nodes1[i];
    match (n.left, n.right) {
        (BvhChild::Node(j1), BvhChild::Node(j2)) => {
            let m = lo + (hi - lo) / 2;
            lemma_subtree_frame(nodes1, items1, nodes2, items2, j1 as int, lo, m);
            lemma_subtree_frame(nodes1, items1, nodes2, items2, j2 as int, m, hi);
        },
        _ => {},
    }
}

/// Exchanging two positions of a sequence keeps its multiset.
pub proof fn lemma_swap_multiset(s: Seq<Primitive>, a: int, b: int)
    requires
        0 <= a < s.len(),
        0 <= b < s.len(),
    ensures
        s.update(a, s[b]).update(b, s[a]).to_multiset() == s.to_multiset(),
{
    broadcast use vstd::multiset::group_multiset_axioms;

    if a == b {
        assert(s.update(a, s[b]).update(b, s[a]) =~= s);
    } else {
        let s1 = s.update(a, s[b]);
        let s2 = s1.update(b, s[a]);
        vstd::seq_lib::to_multiset_update(s, a, s[b]);
        vstd::seq_lib::to_multiset_update(s1, b, s[a]);
        assert(s1[b] == s[b]);
        s.to_multiset_ensures();
        assert(s.to_multiset().contains(s[a])) by {
            assert(s.contains(s[a]));
        }
        assert(s.to_multiset().contains(s[b])) by {
            assert(s.contains(s[b]));
        }
        assert(s2.to_multiset() =~= s.to_multiset());
    }
}

/// Exchanges two stored primitives.
fn swap_items(items: &mut Vec<Primitive>, a: usize, b: usize)
    requires
        a < old(items).len(),
        b < old(items).len(),
    ensures
        final(items)@ == old(items)@.update(a as int, old(items)@[b as int]).update(
            b as int,
            old(items)@[a as int],
        ),
        final(items)@.len() == old(items)@.len(),
{
    let va = items[a];
    let vb = items[b];
    items.set(a, vb);
    items.set(b, va);
}

/// The sort key of a primitive for a split axis: the low coordinate of its
/// stored box along that axis.
fn axis_key(p: &Primitive, axis: usize, time0: i64, time1: i64) -> (r: i64)
    requires
        prim_wf(*p),
        axis < 3,
    ensures
        axis == 0 ==> r == prim_box(*p).min.x,
        axis == 1 ==> r == prim_box(*p).min.y,
        axis == 2 ==> r == prim_box(*p).min.z,
{
    let bx = p.stored_box();
    bx.min.get_axis(axis)
}

/// Sorts the stored primitives in `lo..hi` by their box's low coordinate
/// along `axis` (selection sort). Positions outside the range are untouched
/// and the range keeps the same primitives.
fn sort_range(items: &mut Vec<Primitive>, lo: usize, hi: usize, axis: usize, time0: i64, time1: i64)
    requires
        lo <= hi <= old(items).len(),
        all_wf(old(items)@),
        axis < 3,
    ensures
        final(items)@.len() == old(items)@.len(),
        forall|k: int|
            (0 <= k < lo || hi <= k < final(items)@.len()) ==> final(items)@[k] == old(
                items,
            )@[k],
        final(items)@.subrange(lo as int, hi as int).to_multiset() == old(items)@.subrange(
            lo as int,
            hi as int,
        ).to_multiset(),
        all_wf(final(items)@),
{
    let ghost orig = old(items)@;
    let mut i: usize = lo;
    while i < hi
        invariant
            lo <= i <= hi <= items@.len(),
            items@.len() == orig.len(),
            forall|k: int| (0 <= k < lo || hi <= k < items@.len()) ==> items@[k] == orig[k],
            items@.subrange(lo as int, hi as int).to_multiset() == orig.subrange(
                lo as int,
                hi as int,
            ).to_multiset(),
            all_wf(items@),
            axis < 3,
        decreases hi - i,
    {
        let mut best: usize = i;
        let mut kbest = axis_key(&items[i], axis, time0, time1);
        let mut j: usize = i + 1;
        while j < hi
            invariant
                lo <= i <= hi <= items@.len(),
                i <= best < hi,
                i < j <= hi,
                all_wf(items@),
                axis < 3,
            decreases hi - j,
        {
            let kj = axis_key(&items[j], axis, time0, time1);
            if kj < kbest {
                best = j;
                kbest = kj;
            }
            j = j + 1;
        }
        if best != i {
            let ghost before = items@;
            swap_items(items, i, best);
            proof {
                let sub = before.subrange(lo as int, hi as int);
                assert(items@.subrange(lo as int, hi as int) =~= sub.update(
                    i as int - lo,
                    sub[best as int - lo],
                ).update(best as int - lo, sub[i as int - lo]));
                lemma_swap_multiset(sub, i as int - lo, best as int - lo);
            }
        }
        i = i + 1;
    }
}

impl Bvh {
    /// Builds a tree over the stored range `lo..hi`: computes the union box,
    /// splits the range at its midpoint along the box's longest axis, builds
    /// the two halves, and appends one node covering both. Returns the index
    /// of that node and the least and greatest leaf depth below it.
    #[verifier::rlimit(100)]
    fn build_range(
        time0: i64,
        time1: i64,
        items: &mut Vec<Primitive>,
        nodes: &mut Vec<BvhNode>,
        lo: usize,
        hi: usize,
    ) -> (r: (usize, usize, usize))
        requires
            lo < hi <= old(items).len(),
            all_wf(old(items)@),
            old(items).len() <= 0x1000_0000,
            old(nodes)@.len() + 2 * (hi - lo) <= 0x4000_0000,
        ensures
            final(items)@.len() == old(items)@.len(),
            forall|k: int|
                (0 <= k < lo || hi <= k < final(items)@.len()) ==> final(items)@[k] == old(
                    items,
                )@[k],
            final(items)@.subrange(lo as int, hi as int).to_multiset() == old(items)@.subrange(
                lo as int,
                hi as int,
            ).to_multiset(),
            all_wf(final(items)@),
            final(nodes)@.len() > old(nodes)@.len(),
            final(nodes)@.len() <= old(nodes)@.len() + 2 * (hi - lo) - 1,
            forall|j: int| 0 <= j < old(nodes)@.len() ==> final(nodes)@[j] == old(nodes)@[j],
            r.0 as int == final(nodes)@.len() - 1,
            subtree_wf(final(nodes)@, final(items)@, r.0 as int, lo as int, hi as int),
            1 <= r.1 <= r.2 <= hi - lo,
        decreases hi - lo,
    {
        let n = hi - lo;
        if n == 1 {
            let bx = items[lo].stored_box();
            nodes.push(
                BvhNode { left: BvhChild::Leaf(lo), right: BvhChild::Absent, bounding_box: bx },
            );
            ((nodes.len() - 1), 1, 1)
        } else if n == 2 {
            let b0 = items[lo].stored_box();
            let b1 = items[lo + 1].stored_box();
            let ub = surrounding_box(b0, b1);
            let axis = ub.longest_axis();
            let k0 = axis_key(&items[lo], axis, time0, time1);
            let k1 = axis_key(&items[lo + 1], axis, time0, time1);
            if k0 > k1 {
                let ghost before = items@;
                swap_items(items, lo, lo + 1);
                proof {
                    let sub = before.subrange(lo as int, lo as int + 2);
                    assert(items@.subrange(lo as int, lo as int + 2) =~= sub.update(
                        0,
                        sub[1],
                    ).update(1, sub[0]));
                    lemma_swap_multiset(sub, 0, 1);
                }
            }
            let nb0 = items[lo].stored_box();
            let nb1 = items[lo + 1].stored_box();
            nodes.push(
                BvhNode {
                    left: BvhChild::Leaf(lo),
                    right: BvhChild::Leaf(lo + 1),
                    bounding_box: surrounding_box(nb0, nb1),
                },
            );
            ((nodes.len() - 1), 1, 1)
        } else {
            let mut ub = items[lo].stored_box();
            let mut k: usize = lo + 1;
            while k < hi
                invariant
                    lo < k <= hi <= items@.len(),
                    all_wf(items@),
                    ub.wf(),
                decreases hi - k,
            {
                let bk = items[k].stored_box();
                ub = surrounding_box(ub, bk);
                k = k + 1;
            }
            let axis = ub.longest_axis();
            sort_range(items, lo, hi, axis, time0, time1);
            let ghost after_sort_items = items@;
            let mid = lo + n / 2;
            let (li, lmin, lmax) = Self::build_range(time0, time1, items, nodes, lo, mid);
            let ghost items_l = items@;
            let ghost nodes_l = nodes@;
            let (ri, rmin, rmax) = Self::build_range(time0, time1, items, nodes, mid, hi);
            proof {
                lemma_subtree_frame(
                    nodes_l,
                    items_l,
                    nodes@,
                    items@,
                    li as int,
                    lo as int,
                    mid as int,
                );
            }
            let lb = nodes[li].bounding_box;
            let rbx = nodes[ri].bounding_box;
            let nb = surrounding_box(lb, rbx);
            let ghost nodes_r = nodes@;
            nodes.push(BvhNode { left: BvhChild::Node(li), right: BvhChild::Node(ri), bounding_box: nb });
            proof {
                lemma_subtree_frame(
                    nodes_r,
                    items@,
                    nodes@,
                    items@,
                    li as int,
                    lo as int,
                    mid as int,
                );
                lemma_subtree_frame(
                    nodes_r,
                    items@,
                    nodes@,
                    items@,
                    ri as int,
                    mid as int,
                    hi as int,
                );
                // The three stages only permute the range: glue the multisets.
                let so = old(items)@.subrange(lo as int, hi as int);
                let ss = after_sort_items.subrange(lo as int, hi as int);
                let sl = items_l.subrange(lo as int, hi as int);
                let sf = items@.subrange(lo as int, hi as int);
                assert(sl =~= items_l.subrange(lo as int, mid as int) + items_l.subrange(
                    mid as int,
                    hi as int,
                ));
                assert(sf =~= items@.subrange(lo as int, mid as int) + items@.subrange(
                    mid as int,
                    hi as int,
                ));
                assert(ss =~= after_sort_items.subrange(lo as int, mid as int)
                    + after_sort_items.subrange(mid as int, hi as int));
                assert(items_l.subrange(mid as int, hi as int) =~= after_sort_items.subrange(
                    mid as int,
                    hi as int,
                ));
                assert(items@.subrange(lo as int, mid as int) =~= items_l.subrange(
                    lo as int,
                    mid as int,
                ));
                lemma_multiset_commutative(
                    items_l.subrange(lo as int, mid as int),
                    items_l.subrange(mid as int, hi as int),
                );
                lemma_multiset_commutative(
                    items@.subrange(lo as int, mid as int),
                    items@.subrange(mid as int, hi as int),
                );
                lemma_multiset_commutative(
                    after_sort_items.subrange(lo as int, mid as int),
                    after_sort_items.subrange(mid as int, hi as int),
                );
            }
            let dmin = if lmin < rmin {
                lmin
            } else {
                rmin
            };
            let dmax = if lmax > rmax {
                lmax
            } else {
                rmax
            };
            ((nodes.len() - 1), dmin + 1, dmax + 1)
        }
    }

    /// Builds a BVH from scene data: the tree is built once, and afterwards
    /// querying it is the same as scanning the primitives it was given.
    pub fn build(time0: i64, time1: i64, items: Vec<Primitive>) -> (r: (Bvh, BvhMetrics))
        requires
            items@.len() > 0,
            all_wf(items@),
            items@.len() <= 0x1000_0000,
        ensures
            r.0.wf(),
            r.0.items@.to_multiset() == items@.to_multiset(),
            r.0.spec_items().to_multiset() == items@.to_multiset(),
            r.1.num_objects == items@.len(),
            1 <= r.1.min_depth <= r.1.max_depth <= items@.len(),
    {
        let ghost given = items@;
        let mut its = items;
        let mut nodes: Vec<BvhNode> = Vec::new();
        let n = its.len();
        let (root, dmin, dmax) = Self::build_range(time0, time1, &mut its, &mut nodes, 0, n);
        proof {
            assert(its@.subrange(0, n as int) =~= its@);
            assert(given.subrange(0, n as int) =~= given);
        }
        let b = Bvh { nodes, items: its, root };
        proof {
            lemma_bvh_items_complete(b);
        }
        let metrics = BvhMetrics { num_objects: n, min_depth: dmin, max_depth: dmax };
        (b, metrics)
    }
}

} // verus!
