use vstd::prelude::*;
use crate::ray::{Ray, T_LIMIT, scene_ray_ok};
use crate::aabb::BoundingBox;
use crate::hit_record::HitRecord;
use crate::objects::{
    Primitive,
    prim_wf,
    prim_hit,
    lemma_prim_hit_in_box,
    lemma_prim_hit_window,
};

verus! {

/// The closer of an already found hit and a candidate; ties keep the earlier
/// one.
pub open spec fn better_hit(best: Option<HitRecord>, cand: Option<HitRecord>) -> Option<
    HitRecord,
> {
    match cand {
        Some(c) => match best {
            Some(b) => if (c.t as int) < (b.t as int) {
                Some(c)
            } else {
                Some(b)
            },
            None => Some(c),
        },
        None => best,
    }
}

/// What a linear scan over the primitives reports: the hit with the least
/// parameter among all primitives' hits over the full window, ties going to
/// the earliest primitive in the sequence.
pub open spec fn scene_hit(ps: Seq<Primitive>, ray: Ray, tmin: int, tmax: int) -> Option<HitRecord>
    decreases ps.len(),
{
    if ps.len() == 0 {
        None
    } else {
        better_hit(
            scene_hit(ps.drop_last(), ray, tmin, tmax),
            prim_hit(ps.last(), ray, tmin, tmax),
        )
    }
}

/// Every primitive in the sequence is well formed.
pub open spec fn all_wf(ps: Seq<Primitive>) -> bool {
    forall|i: int| 0 <= i < ps.len() ==> prim_wf(#[trigger] ps[i])
}

/// What `scene_hit` returns, characterised without the fold: it is `None`
/// exactly when no primitive hits, and otherwise it is one primitive's hit
/// and no primitive hits at a smaller parameter.
#[verifier::rlimit(60)]
pub proof fn lemma_scene_hit_char(ps: Seq<Primitive>, ray: Ray, tmin: int, tmax: int)
    ensures
        scene_hit(ps, ray, tmin, tmax) is None <==> (forall|i: int|
            0 <= i < ps.len() ==> prim_hit(#[trigger] ps[i], ray, tmin, tmax) is None),
        scene_hit(ps, ray, tmin, tmax) matches Some(rec) ==> (exists|i: int|
            0 <= i < ps.len() && prim_hit(#[trigger] ps[i], ray, tmin, tmax) == Some(rec)),
        scene_hit(ps, ray, tmin, tmax) matches Some(rec) ==> (forall|i: int|
            0 <= i < ps.len() && prim_hit(#[trigger] ps[i], ray, tmin, tmax) is Some
                ==> rec.t <= prim_hit(ps[i], ray, tmin, tmax).unwrap().t),
    decreases ps.len(),
{
    if ps.len() > 0 {
        lemma_scene_hit_char(ps.drop_last(), ray, tmin, tmax);
        assert(forall|i: int|
            0 <= i < ps.len() - 1 ==> ps.drop_last()[i] == #[trigger] ps[i]);
    }
}

/// Appending sequences of primitives folds through `better_hit`.
pub proof fn lemma_scene_hit_split(a: Seq<Primitive>, b: Seq<Primitive>, ray: Ray, tmin: int, tmax: int)
    ensures
        scene_hit(a + b, ray, tmin, tmax) == better_hit(
            scene_hit(a, ray, tmin, tmax),
            scene_hit(b, ray, tmin, tmax),
        ),
    decreases b.len(),
{
    if b.len() == 0 {
        assert(a + b =~= a);
    } else {
        lemma_scene_hit_split(a, b.drop_last(), ray, tmin, tmax);
        assert((a + b).drop_last() =~= a + b.drop_last());
        assert((a + b).last() == b.last());
    }
}

/// Restricting the upper end of the window keeps the reported hit when it
/// still fits and drops every other, for a whole scene scan.
pub proof fn lemma_scene_hit_window(ps: Seq<Primitive>, ray: Ray, tmin: int, tmax: int, tmax2: int)
    requires
        all_wf(ps),
        scene_ray_ok(ray),
        tmax2 <= tmax,
        -T_LIMIT <= tmin <= T_LIMIT,
        -T_LIMIT <= tmax <= T_LIMIT,
        -T_LIMIT <= tmax2 <= T_LIMIT,
    ensures
        scene_hit(ps, ray, tmin, tmax2) == (match scene_hit(ps, ray, tmin, tmax) {
            Some(rec) => if (rec.t as int) < tmax2 {
                Some(rec)
            } else {
                None::<HitRecord>
            },
            None => None::<HitRecord>,
        }),
    decreases ps.len(),
{
    if ps.len() > 0 {
        assert(all_wf(ps.drop_last())) by {
            assert(forall|i: int|
                0 <= i < ps.len() - 1 ==> ps.drop_last()[i] == #[trigger] ps[i]);
        }
        lemma_scene_hit_window(ps.drop_last(), ray, tmin, tmax, tmax2);
        lemma_prim_hit_window(ps.last(), ray, tmin, tmax, tmax2);
    }
}

/// A scene hit lies strictly inside the query window.
pub proof fn lemma_scene_hit_in_window(ps: Seq<Primitive>, ray: Ray, tmin: int, tmax: int)
    requires
        all_wf(ps),
        scene_ray_ok(ray),
        -T_LIMIT <= tmin <= T_LIMIT,
        -T_LIMIT <= tmax <= T_LIMIT,
    ensures
        scene_hit(ps, ray, tmin, tmax) matches Some(rec) ==> tmin < rec.t < tmax,
    decreases ps.len(),
{
    if ps.len() > 0 {
        assert(all_wf(ps.drop_last())) by {
            assert(forall|i: int|
                0 <= i < ps.len() - 1 ==> ps.drop_last()[i] == #[trigger] ps[i]);
        }
        lemma_scene_hit_in_window(ps.drop_last(), ray, tmin, tmax);
        lemma_prim_hit_in_box(ps.last(), ray, tmin, tmax);
    }
}

/// Two scenes that hold the same primitives, in any order, agree on whether a
/// ray hits and on the parameter of the closest hit.
/// If every primitive of `a` also occurs in `b`, then whenever the scan of
/// `a` reports a hit, the scan of `b` reports one at most as far.
proof fn lemma_scene_hit_le(a: Seq<Primitive>, b: Seq<Primitive>, ray: Ray, tmin: int, tmax: int)
    requires
        forall|p: Primitive| a.contains(p) ==> b.contains(p),
    ensures
        scene_hit(a, ray, tmin, tmax) is Some ==> scene_hit(b, ray, tmin, tmax) is Some
            && scene_hit(b, ray, tmin, tmax).unwrap().t <= scene_hit(
            a,
            ray,
            tmin,
            tmax,
        ).unwrap().t,
{
    lemma_scene_hit_char(a, ray, tmin, tmax);
    lemma_scene_hit_char(b, ray, tmin, tmax);
    if scene_hit(a, ray, tmin, tmax) is Some {
        let ra = scene_hit(a, ray, tmin, tmax).unwrap();
        let i = choose|i: int|
            0 <= i < a.len() && prim_hit(#[trigger] a[i], ray, tmin, tmax) == Some(ra);
        assert(a.contains(a[i]));
        assert(b.contains(a[i]));
        let j = choose|j: int| 0 <= j < b.len() && b[j] == a[i];
        assert(prim_hit(b[j], ray, tmin, tmax) == Some(ra));
        assert(scene_hit(b, ray, tmin, tmax) is Some);
        assert(scene_hit(b, ray, tmin, tmax).unwrap().t <= ra.t);
    }
}

/// Two scenes that hold the same primitives, in any order, agree on whether a
/// ray hits and on the parameter of the closest hit.
pub proof fn lemma_scene_hit_same_multiset(
    a: Seq<Primitive>,
    b: Seq<Primitive>,
    ray: Ray,
    tmin: int,
    tmax: int,
)
    requires
        a.to_multiset() == b.to_multiset(),
    ensures
        scene_hit(a, ray, tmin, tmax) is Some <==> scene_hit(b, ray, tmin, tmax) is Some,
        (scene_hit(a, ray, tmin, tmax) is Some && scene_hit(b, ray, tmin, tmax) is Some)
            ==> scene_hit(a, ray, tmin, tmax).unwrap().t == scene_hit(
            b,
            ray,
            tmin,
            tmax,
        ).unwrap().t,
{
    a.to_multiset_ensures();
    b.to_multiset_ensures();
    assert(forall|p: Primitive| a.contains(p) ==> b.contains(p)) by {
        assert(forall|p: Primitive|
            a.contains(p) ==> #[trigger] a.to_multiset().count(p) > 0);
        assert(forall|p: Primitive|
            b.to_multiset().count(p) > 0 ==> #[trigger] b.contains(p));
    }
    assert(forall|p: Primitive| b.contains(p) ==> a.contains(p)) by {
        assert(forall|p: Primitive|
            b.contains(p) ==> #[trigger] b.to_multiset().count(p) > 0);
        assert(forall|p: Primitive|
            a.to_multiset().count(p) > 0 ==> #[trigger] a.contains(p));
    }
    lemma_scene_hit_le(a, b, ray, tmin, tmax);
    lemma_scene_hit_le(b, a, ray, tmin, tmax);
}

/// A scan over one primitive is that primitive's own report.
pub proof fn lemma_scene_hit_singleton(p: Primitive, ray: Ray, tmin: int, tmax: int)
    ensures
        scene_hit(seq![p], ray, tmin, tmax) == prim_hit(p, ray, tmin, tmax),
{
    assert(seq![p].drop_last() =~= Seq::<Primitive>::empty());
    assert(seq![p].last() == p);
    assert(scene_hit(Seq::<Primitive>::empty(), ray, tmin, tmax) is None);
}

/// The two-child traversal step: query the left side over the full window,
/// narrow the window to its hit, query the right side, and prefer the right
/// side's answer. That equals a single scan over both sides in order.
pub proof fn lemma_combine_children(
    la: Seq<Primitive>,
    rb: Seq<Primitive>,
    ray: Ray,
    tmin: int,
    tmax: int,
)
    requires
        all_wf(la),
        all_wf(rb),
        scene_ray_ok(ray),
        -T_LIMIT <= tmin <= T_LIMIT,
        -T_LIMIT <= tmax <= T_LIMIT,
    ensures
        ({
            let left = scene_hit(la, ray, tmin, tmax);
            let closest = if left is Some {
                left.unwrap().t as int
            } else {
                tmax
            };
            let right = scene_hit(rb, ray, tmin, closest);
            scene_hit(la + rb, ray, tmin, tmax) == if right is Some {
                right
            } else {
                left
            }
        }),
{
    let left = scene_hit(la, ray, tmin, tmax);
    let closest = if left is Some {
        left.unwrap().t as int
    } else {
        tmax
    };
    lemma_scene_hit_in_window(la, ray, tmin, tmax);
    lemma_scene_hit_split(la, rb, ray, tmin, tmax);
    lemma_scene_hit_window(rb, ray, tmin, tmax, closest);
    lemma_scene_hit_in_window(rb, ray, tmin, tmax);
}

/// A flat list of primitives, intersected by scanning every item.
#[derive(Clone, Debug)]
pub struct HittableList {
    pub items: Vec<Primitive>,
}

impl HittableList {
    pub open spec fn wf(self) -> bool {
        all_wf(self.items@)
    }

    pub fn new() -> (r: HittableList)
        ensures
            r.items@ =~= Seq::<Primitive>::empty(),
            r.wf(),
    {
        HittableList { items: Vec::new() }
    }

    pub fn add(&mut self, item: Primitive)
        requires
            old(self).wf(),
            prim_wf(item),
        ensures
            final(self).items@ =~= old(self).items@.push(item),
            final(self).wf(),
    {
        self.items.push(item);
    }

    /// Wraps an already assembled list of primitives.
    pub fn build(items: Vec<Primitive>) -> (r: HittableList)
        requires
            all_wf(items@),
        ensures
            r.items@ == items@,
            r.wf(),
    {
        HittableList { items }
    }

    pub fn clear(&mut self)
        ensures
            final(self).items@ =~= Seq::<Primitive>::empty(),
            final(self).wf(),
    {
        self.items.clear();
    }

    /// Scans every primitive, narrowing the window to the closest hit found
    /// so far; reports exactly `scene_hit` over the full window.
    pub fn hit(&self, ray: &Ray, t_min: i64, t_max: i64) -> (res: Option<HitRecord>)
        requires
            self.wf(),
            scene_ray_ok(*ray),
            -T_LIMIT <= t_min <= T_LIMIT,
            -T_LIMIT <= t_max <= T_LIMIT,
        ensures
            res == scene_hit(self.items@, *ray, t_min as int, t_max as int),
    {
        let ghost full = self.items@;
        let mut best: Option<HitRecord> = None;
        let mut closest: i64 = t_max;
        let mut i: usize = 0;
        while i < self.items.len()
            invariant
                0 <= i <= self.items.len(),
                self.wf(),
                scene_ray_ok(*ray),
                -T_LIMIT <= t_min <= T_LIMIT,
                -T_LIMIT <= t_max <= T_LIMIT,
                full == self.items@,
                best == scene_hit(full.take(i as int), *ray, t_min as int, t_max as int),
                match best {
                    Some(b) => closest == b.t && t_min < b.t < t_max,
                    None => closest == t_max,
                },
            decreases self.items.len() - i,
        {
            let ghost prefix = full.take(i as int);
            let cur = self.items[i].hit(ray, t_min, closest);
            proof {
                lemma_prim_hit_window(
                    full[i as int],
                    *ray,
                    t_min as int,
                    t_max as int,
                    closest as int,
                );
                lemma_prim_hit_in_box(full[i as int], *ray, t_min as int, t_max as int);
                assert(full.take(i as int + 1).drop_last() =~= prefix);
                assert(full.take(i as int + 1).last() == full[i as int]);
            }
            match cur {
                Some(hr) => {
                    best = Some(hr);
                    closest = hr.t;
                },
                None => {},
            }
            i = i + 1;
        }
        proof {
            assert(full.take(full.len() as int) =~= full);
        }
        best
    }
}

/// The tight box around every primitive of a list, or nothing for an empty
/// list.
pub open spec fn spec_list_box(ps: Seq<Primitive>) -> Option<BoundingBox>
    decreases ps.len(),
{
    if ps.len() == 0 {
        None
    } else {
        match spec_list_box(ps.drop_last()) {
            None => Some(crate::objects::prim_tight_box(ps.last())),
            Some(b) => Some(
                crate::aabb::spec_surrounding_box(b, crate::objects::prim_tight_box(ps.last())),
            ),
        }
    }
}

impl HittableList {
    /// The smallest box around the tight extents of everything in the list;
    /// nothing when the list is empty.
    pub fn bounding_box(&self, time0: i64, time1: i64) -> (r: Option<BoundingBox>)
        requires
            self.wf(),
        ensures
            r == spec_list_box(self.items@),
            r matches Some(b) ==> b.wf(),
    {
        if self.items.len() == 0 {
            return None;
        }
        let mut out = self.items[0].bounding_box(time0, time1);
        proof {
            assert(self.items@.take(1).drop_last() =~= Seq::<Primitive>::empty());
            assert(self.items@.take(1).last() == self.items@[0]);
            assert(spec_list_box(Seq::<Primitive>::empty()) is None);
        }
        let mut i: usize = 1;
        while i < self.items.len()
            invariant
                1 <= i <= self.items@.len(),
                self.wf(),
                Some(out) == spec_list_box(self.items@.take(i as int)),
                out.wf(),
            decreases self.items@.len() - i,
        {
            let bi = self.items[i].bounding_box(time0, time1);
            out = crate::aabb::surrounding_box(out, bi);
            proof {
                assert(self.items@.take(i as int + 1).drop_last() =~= self.items@.take(i as int));
                assert(self.items@.take(i as int + 1).last() == self.items@[i as int]);
            }
            i = i + 1;
        }
        proof {
            assert(self.items@.take(self.items@.len() as int) =~= self.items@);
        }
        Some(out)
    }
}

} // verus!
