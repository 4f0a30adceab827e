use vstd::prelude::*;
use crate::vec3d::{Vec3d, in_range};
use crate::ray::{Ray, T_LIMIT};
use crate::arith::{
    lemma_mul_lt_mono,
    lemma_mul_le_mono,
    lemma_mul_lt_cancel,
    lemma_rat_lt_trans,
    lemma_rat_le_lt_trans,
    lemma_rat_lt_le_trans,
};

verus! {

/// Largest magnitude a box bound may have. Boxes around scene geometry are a
/// little wider than the geometry itself (they carry a small pad), so this
/// exceeds `COORD_LIMIT`.
pub const BOX_LIMIT: i64 = 0x50_0000;

/// `a/b < c/d` for positive denominators, written over cross-multiplied
/// integers so that it is exact.
pub open spec fn rat_lt(an: int, ad: int, bn: int, bd: int) -> bool {
    an * bd < bn * ad
}

/// The ray parameter `n/m` lies strictly inside the open interval whose ends
/// are the two rationals `lon/lod` and `hin/hid`.
pub open spec fn in_open(lon: int, lod: int, hin: int, hid: int, n: int, m: int) -> bool {
    rat_lt(lon, lod, n, m) && rat_lt(n, m, hin, hid)
}

/// At parameter `n/m` the ray coordinate `o + (n/m)*d` lies strictly between
/// `bmin` and `bmax`, with the comparison cleared of the denominator `m`.
pub open spec fn axis_strict(bmin: int, bmax: int, o: int, d: int, n: int, m: int) -> bool {
    bmin * m < o * m + n * d && o * m + n * d < bmax * m
}

/// The point the ray reaches at parameter `n/m` is strictly inside the box on
/// all three axes.
pub open spec fn strictly_inside_at(bmin: Vec3d, bmax: Vec3d, o: Vec3d, d: Vec3d, n: int, m: int) -> bool {
    &&& axis_strict(bmin.x as int, bmax.x as int, o.x as int, d.x as int, n, m)
    &&& axis_strict(bmin.y as int, bmax.y as int, o.y as int, d.y as int, n, m)
    &&& axis_strict(bmin.z as int, bmax.z as int, o.z as int, d.z as int, n, m)
}

/// The slab condition for one axis. An axis the ray moves along is passed
/// strictly, as the interval narrowing demands; an axis the ray is parallel
/// to is passed on the closed slab, so a ray lying exactly in a face plane
/// still counts (the inclusive boundary of the face-plane edge case).
pub open spec fn axis_hit(bmin: int, bmax: int, o: int, d: int, n: int, m: int) -> bool {
    if d == 0 {
        bmin <= o && o <= bmax
    } else {
        axis_strict(bmin, bmax, o, d, n, m)
    }
}

/// The ray's point at parameter `n/m` passes the slab condition on all three
/// axes.
pub open spec fn box_meets_at(bmin: Vec3d, bmax: Vec3d, o: Vec3d, d: Vec3d, n: int, m: int) -> bool {
    &&& axis_hit(bmin.x as int, bmax.x as int, o.x as int, d.x as int, n, m)
    &&& axis_hit(bmin.y as int, bmax.y as int, o.y as int, d.y as int, n, m)
    &&& axis_hit(bmin.z as int, bmax.z as int, o.z as int, d.z as int, n, m)
}

/// The parameter `n/m` lies strictly inside the fixed-point query window.
pub open spec fn window_ok(tmin: int, tmax: int, n: int, m: int) -> bool {
    tmin * m < n * (crate::T_SCALE as int) && n * (crate::T_SCALE as int) < tmax * m
}

/// A single rational ray parameter witnessing that the ray, restricted to
/// the open window, passes the slab conditions of the box.
pub open spec fn witness_ok(
    bmin: Vec3d,
    bmax: Vec3d,
    o: Vec3d,
    d: Vec3d,
    tmin: int,
    tmax: int,
    n: int,
    m: int,
) -> bool {
    m > 0 && window_ok(tmin, tmax, n, m) && box_meets_at(bmin, bmax, o, d, n, m)
}

/// The ray `o + t*d`, restricted to parameters strictly between `tmin/T_SCALE`
/// and `tmax/T_SCALE`, meets the box: on the axes it moves along it passes
/// strictly between the faces, and on the axes it is parallel to its
/// coordinate lies within the closed slab.
pub open spec fn seg_hits_box(
    bmin: Vec3d,
    bmax: Vec3d,
    o: Vec3d,
    d: Vec3d,
    tmin: int,
    tmax: int,
) -> bool {
    exists|n: int, m: int| witness_ok(bmin, bmax, o, d, tmin, tmax, n, m)
}

/// Which of the three axes has the greatest extent; ties prefer the earlier
/// axis.
pub open spec fn longest_axis_of(min: Vec3d, max: Vec3d) -> usize {
    let lx = max.x - min.x;
    let ly = max.y - min.y;
    let lz = max.z - min.z;
    if lx >= ly && lx >= lz {
        0usize
    } else if ly >= lz {
        1usize
    } else {
        2usize
    }
}

/// The least of three integers.
pub open spec fn min3(a: int, b: int, c: int) -> int {
    if a <= b && a <= c {
        a
    } else if b <= c {
        b
    } else {
        c
    }
}

/// The greatest of three integers.
pub open spec fn max3(a: int, b: int, c: int) -> int {
    if a >= b && a >= c {
        a
    } else if b >= c {
        b
    } else {
        c
    }
}

/// A box value with its split axis derived from the extents.
pub open spec fn spec_box(min: Vec3d, max: Vec3d) -> BoundingBox {
    BoundingBox { min, max, longest_axis: longest_axis_of(min, max) }
}

/// Axis-aligned bounding box
#[derive(Clone, Copy, Debug, PartialEq, Eq, Structural)]
pub struct BoundingBox {
    pub min: Vec3d,
    pub max: Vec3d,
    /// Chosen once at construction; `wf` ties it to the extents.
    pub longest_axis: usize,
}

impl BoundingBox {
    pub open spec fn wf(self) -> bool {
        &&& in_range(self.min, BOX_LIMIT as int)
        &&& in_range(self.max, BOX_LIMIT as int)
        &&& self.min.x <= self.max.x
        &&& self.min.y <= self.max.y
        &&& self.min.z <= self.max.z
        &&& self.longest_axis == longest_axis_of(self.min, self.max)
    }

    pub fn new(min: Vec3d, max: Vec3d) -> (r: BoundingBox)
        requires
            in_range(min, BOX_LIMIT as int),
            in_range(max, BOX_LIMIT as int),
            min.x <= max.x,
            min.y <= max.y,
            min.z <= max.z,
        ensures
            r == spec_box(min, max),
            r.min == min,
            r.max == max,
            r.wf(),
    {
        let len_x = max.x - min.x;
        let len_y = max.y - min.y;
        let len_z = max.z - min.z;
        let longest_axis: usize = if len_x >= len_y && len_x >= len_z {
            0
        } else if len_y >= len_z {
            1
        } else {
            2
        };
        BoundingBox { min, max, longest_axis }
    }

    /// The axis of greatest extent, chosen once at construction and used as
    /// the split heuristic when a hierarchy is built over boxes.
    pub fn longest_axis(&self) -> (r: usize)
        requires
            self.wf(),
        ensures
            r == longest_axis_of(self.min, self.max),
            r < 3,
    {
        self.longest_axis
    }

    /// Every point of `inner` is inside `self`.
    pub open spec fn contains(self, inner: BoundingBox) -> bool {
        &&& self.min.x <= inner.min.x
        &&& self.min.y <= inner.min.y
        &&& self.min.z <= inner.min.z
        &&& inner.max.x <= self.max.x
        &&& inner.max.y <= self.max.y
        &&& inner.max.z <= self.max.z
    }
}

/// `a/b < c/d`, decided exactly by cross multiplication.
fn rat_lt_e(an: i64, ad: i64, bn: i64, bd: i64) -> (r: bool)
    requires
        ad > 0,
        bd > 0,
    ensures
        r == rat_lt(an as int, ad as int, bn as int, bd as int),
{
    proof {
        crate::arith::lemma_mul_bound(
            an as int,
            bd as int,
            0x8000_0000_0000_0000,
            0x8000_0000_0000_0000,
        );
        crate::arith::lemma_mul_bound(
            bn as int,
            ad as int,
            0x8000_0000_0000_0000,
            0x8000_0000_0000_0000,
        );
        assert((0x8000_0000_0000_0000 as int) * (0x8000_0000_0000_0000 as int)
            < 0x8000_0000_0000_0000_0000_0000_0000_0000) by (nonlinear_arith);
    }
    (an as i128) * (bd as i128) < (bn as i128) * (ad as i128)
}

/// Rearranges the two clauses of `axis_strict` into rational comparisons
/// against the entry and exit parameters of the slab, for `d > 0`.
proof fn lemma_axis_strict_pos(bmin: int, bmax: int, o: int, d: int, n: int, m: int)
    requires
        d > 0,
        m > 0,
    ensures
        axis_strict(bmin, bmax, o, d, n, m) <==> (rat_lt(bmin - o, d, n, m) && rat_lt(
            n,
            m,
            bmax - o,
            d,
        )),
{
    assert((bmin * m < o * m + n * d && o * m + n * d < bmax * m) <==> ((bmin - o) * m < n * d && n
        * d < (bmax - o) * m)) by (nonlinear_arith);
}

/// The same rearrangement for `d < 0`: the roles of the two faces swap and
/// the pair is normalised to the positive denominator `-d`.
proof fn lemma_axis_strict_neg(bmin: int, bmax: int, o: int, d: int, n: int, m: int)
    requires
        d < 0,
        m > 0,
    ensures
        axis_strict(bmin, bmax, o, d, n, m) <==> (rat_lt(o - bmax, -d, n, m) && rat_lt(
            n,
            m,
            o - bmin,
            -d,
        )),
{
    assert((bmin * m < o * m + n * d && o * m + n * d < bmax * m) <==> ((o - bmax) * m < n * (-d)
        && n * (-d) < (o - bmin) * m)) by (nonlinear_arith);
}

/// For an axis the ray travels along (`d == 0`) the slab constraint is
/// independent of the parameter: it holds exactly when the origin coordinate
/// is strictly inside the slab.
proof fn lemma_axis_strict_zero(bmin: int, bmax: int, o: int, n: int, m: int)
    requires
        m > 0,
    ensures
        axis_strict(bmin, bmax, o, 0, n, m) <==> (bmin < o && o < bmax),
{
    if bmin < o {
        lemma_mul_lt_mono(m, bmin, o);
    }
    if o < bmax {
        lemma_mul_lt_mono(m, o, bmax);
    }
    if bmin * m < o * m + n * 0 {
        lemma_mul_lt_cancel(m, bmin, o);
    }
    if o * m + n * 0 < bmax * m {
        lemma_mul_lt_cancel(m, o, bmax);
    }
}

/// Narrows the running open interval by one slab whose direction component is
/// nonzero. The result describes exactly the parameters that were inside the
/// interval before and are strictly inside this slab.
fn narrow_axis(lon: i64, lod: i64, hin: i64, hid: i64, bmin: i64, bmax: i64, o: i64, d: i64) -> (r:
    (i64, i64, i64, i64))
    requires
        lod > 0,
        hid > 0,
        d != 0,
        -BOX_LIMIT <= bmin <= BOX_LIMIT,
        -BOX_LIMIT <= bmax <= BOX_LIMIT,
        -crate::ray::ORIGIN_LIMIT <= o <= crate::ray::ORIGIN_LIMIT,
        -crate::ray::DIR_LIMIT <= d <= crate::ray::DIR_LIMIT,
    ensures
        r.1 > 0,
        r.3 > 0,
        forall|n: int, m: int|
            m > 0 ==> (#[trigger] in_open(r.0 as int, r.1 as int, r.2 as int, r.3 as int, n, m)
                <==> (in_open(lon as int, lod as int, hin as int, hid as int, n, m) && axis_strict(
                bmin as int,
                bmax as int,
                o as int,
                d as int,
                n,
                m,
            ))),
{
    let (cln, cld, chn, chd) = if d > 0 {
        (bmin - o, d, bmax - o, d)
    } else {
        (o - bmax, -d, o - bmin, -d)
    };
    let (nlon, nlod) = if rat_lt_e(lon, lod, cln, cld) {
        (cln, cld)
    } else {
        (lon, lod)
    };
    let (nhin, nhid) = if rat_lt_e(chn, chd, hin, hid) {
        (chn, chd)
    } else {
        (hin, hid)
    };
    proof {
        assert forall|n: int, m: int| m > 0 implies (#[trigger] in_open(
            nlon as int,
            nlod as int,
            nhin as int,
            nhid as int,
            n,
            m,
        ) <==> (in_open(lon as int, lod as int, hin as int, hid as int, n, m) && axis_strict(
            bmin as int,
            bmax as int,
            o as int,
            d as int,
            n,
            m,
        ))) by {
            if d > 0 {
                lemma_axis_strict_pos(bmin as int, bmax as int, o as int, d as int, n, m);
            } else {
                lemma_axis_strict_neg(bmin as int, bmax as int, o as int, d as int, n, m);
            }
            // The new lower end is the maximum of the old one and the slab
            // entry; a parameter clears it exactly when it clears both.
            if rat_lt(lon as int, lod as int, cln as int, cld as int) {
                if rat_lt(cln as int, cld as int, n, m) {
                    lemma_rat_lt_trans(lon as int, lod as int, cln as int, cld as int, n, m);
                }
            } else {
                if rat_lt(lon as int, lod as int, n, m) {
                    lemma_rat_le_lt_trans(cln as int, cld as int, lon as int, lod as int, n, m);
                }
            }
            // Symmetrically for the upper end and the slab exit.
            if rat_lt(chn as int, chd as int, hin as int, hid as int) {
                if rat_lt(n, m, chn as int, chd as int) {
                    lemma_rat_lt_trans(n, m, chn as int, chd as int, hin as int, hid as int);
                }
            } else {
                if rat_lt(n, m, hin as int, hid as int) {
                    lemma_rat_lt_le_trans(n, m, hin as int, hid as int, chn as int, chd as int);
                }
            }
        }
    }
    (nlon, nlod, nhin, nhid)
}

impl BoundingBox {
    /// The slab test: whether some parameter strictly inside the open window
    /// `(t_min, t_max)` (both in fixed-point `T_SCALE` units) passes every
    /// slab. On the axes the ray moves along the interval narrowing is
    /// strict; on an axis the ray is parallel to the closed slab counts, so
    /// a ray lying exactly in a face plane is a hit. The answer is exact:
    /// no false negatives and no false positives with respect to
    /// `seg_hits_box`.
    pub fn hit(&self, ray: &Ray, t_min: i64, t_max: i64) -> (r: bool)
        requires
            self.wf(),
            ray.wf(),
            -T_LIMIT <= t_min <= T_LIMIT,
            -T_LIMIT <= t_max <= T_LIMIT,
        ensures
            r == seg_hits_box(
                self.min,
                self.max,
                ray.origin,
                ray.direction,
                t_min as int,
                t_max as int,
            ),
    {
        let o = ray.origin;
        let d = ray.direction;
        let ghost bmin = self.min;
        let ghost bmax = self.max;
        let mut lon: i64 = t_min;
        let mut lod: i64 = crate::T_SCALE;
        let mut hin: i64 = t_max;
        let mut hid: i64 = crate::T_SCALE;

        // Axis x.
        if d.x == 0 {
            if !(self.min.x <= o.x && o.x <= self.max.x) {
                return false;
            }
        } else {
            let (a, b, c, e) = narrow_axis(lon, lod, hin, hid, self.min.x, self.max.x, o.x, d.x);
            lon = a;
            lod = b;
            hin = c;
            hid = e;
        }
        proof {
            assert forall|n: int, m: int| m > 0 implies (#[trigger] in_open(
                lon as int,
                lod as int,
                hin as int,
                hid as int,
                n,
                m,
            ) <==> (window_ok(t_min as int, t_max as int, n, m) && axis_hit(
                bmin.x as int,
                bmax.x as int,
                o.x as int,
                d.x as int,
                n,
                m,
            ))) by {}
        }

        // Axis y.
        if d.y == 0 {
            if !(self.min.y <= o.y && o.y <= self.max.y) {
                return false;
            }
        } else {
            let (a, b, c, e) = narrow_axis(lon, lod, hin, hid, self.min.y, self.max.y, o.y, d.y);
            lon = a;
            lod = b;
            hin = c;
            hid = e;
        }
        proof {
            assert forall|n: int, m: int| m > 0 implies (#[trigger] in_open(
                lon as int,
                lod as int,
                hin as int,
                hid as int,
                n,
                m,
            ) <==> (window_ok(t_min as int, t_max as int, n, m) && axis_hit(
                bmin.x as int,
                bmax.x as int,
                o.x as int,
                d.x as int,
                n,
                m,
            ) && axis_hit(
                bmin.y as int,
                bmax.y as int,
                o.y as int,
                d.y as int,
                n,
                m,
            ))) by {}
        }

        // Axis z.
        if d.z == 0 {
            if !(self.min.z <= o.z && o.z <= self.max.z) {
                return false;
            }
        } else {
            let (a, b, c, e) = narrow_axis(lon, lod, hin, hid, self.min.z, self.max.z, o.z, d.z);
            lon = a;
            lod = b;
            hin = c;
            hid = e;
        }

        proof {
            // The running interval holds exactly the parameters inside the
            // window and strictly inside all three slabs.
            assert forall|n: int, m: int| m > 0 implies (#[trigger] in_open(
                lon as int,
                lod as int,
                hin as int,
                hid as int,
                n,
                m,
            ) <==> (window_ok(t_min as int, t_max as int, n, m) && box_meets_at(
                bmin,
                bmax,
                o,
                d,
                n,
                m,
            ))) by {}
        }
        let res = rat_lt_e(lon, lod, hin, hid);
        proof {
            if res {
                // The interval is nonempty; its midpoint is a witness.
                let ghost n0: int = (lon as int) * (hid as int) + (hin as int) * (lod as int);
                let ghost m0: int = 2 * (lod as int) * (hid as int);
                assert(m0 > 0 && rat_lt(lon as int, lod as int, n0, m0) && rat_lt(
                    n0,
                    m0,
                    hin as int,
                    hid as int,
                )) by (nonlinear_arith)
                    requires
                        lod > 0,
                        hid > 0,
                        rat_lt(lon as int, lod as int, hin as int, hid as int),
                        n0 == (lon as int) * (hid as int) + (hin as int) * (lod as int),
                        m0 == 2 * (lod as int) * (hid as int),
                ;
                assert(in_open(lon as int, lod as int, hin as int, hid as int, n0, m0));
                assert(witness_ok(bmin, bmax, o, d, t_min as int, t_max as int, n0, m0));
            } else {
                assert forall|n: int, m: int|
                    !witness_ok(bmin, bmax, o, d, t_min as int, t_max as int, n, m) by {
                    if witness_ok(bmin, bmax, o, d, t_min as int, t_max as int, n, m) {
                        assert(in_open(lon as int, lod as int, hin as int, hid as int, n, m));
                        lemma_rat_lt_trans(lon as int, lod as int, n, m, hin as int, hid as int);
                    }
                }
            }
        }
        res
    }
}

/// Entering the box interior at one in-window parameter is enough for the
/// slab test to answer true: the pruning step of a hierarchy can never hide a
/// hit whose point is strictly inside the node's box.
pub proof fn lemma_interior_point_witness(
    bmin: Vec3d,
    bmax: Vec3d,
    o: Vec3d,
    d: Vec3d,
    tmin: int,
    tmax: int,
    t: int,
)
    requires
        tmin < t,
        t < tmax,
        strictly_inside_at(bmin, bmax, o, d, t, crate::T_SCALE as int),
    ensures
        seg_hits_box(bmin, bmax, o, d, tmin, tmax),
{
    lemma_mul_lt_mono(crate::T_SCALE as int, tmin, t);
    lemma_mul_lt_mono(crate::T_SCALE as int, t, tmax);
    let m = crate::T_SCALE as int;
    if d.x == 0 {
        lemma_axis_strict_zero(bmin.x as int, bmax.x as int, o.x as int, t, m);
    }
    if d.y == 0 {
        lemma_axis_strict_zero(bmin.y as int, bmax.y as int, o.y as int, t, m);
    }
    if d.z == 0 {
        lemma_axis_strict_zero(bmin.z as int, bmax.z as int, o.z as int, t, m);
    }
    assert(witness_ok(bmin, bmax, o, d, tmin, tmax, t, crate::T_SCALE as int));
}

/// Strict interiority is preserved when the box grows.
pub proof fn lemma_inside_monotone(inner: BoundingBox, outer: BoundingBox, o: Vec3d, d: Vec3d, n: int, m: int)
    requires
        m > 0,
        outer.contains(inner),
        strictly_inside_at(inner.min, inner.max, o, d, n, m),
    ensures
        strictly_inside_at(outer.min, outer.max, o, d, n, m),
{
    lemma_mul_le_mono(m, outer.min.x as int, inner.min.x as int);
    lemma_mul_le_mono(m, outer.min.y as int, inner.min.y as int);
    lemma_mul_le_mono(m, outer.min.z as int, inner.min.z as int);
    lemma_mul_le_mono(m, inner.max.x as int, outer.max.x as int);
    lemma_mul_le_mono(m, inner.max.y as int, outer.max.y as int);
    lemma_mul_le_mono(m, inner.max.z as int, outer.max.z as int);
}

/// The smallest box that contains both arguments: componentwise minimum of
/// the minima and maximum of the maxima.
pub open spec fn spec_surrounding_box(a: BoundingBox, b: BoundingBox) -> BoundingBox {
    let min = Vec3d {
        x: if a.min.x <= b.min.x { a.min.x } else { b.min.x },
        y: if a.min.y <= b.min.y { a.min.y } else { b.min.y },
        z: if a.min.z <= b.min.z { a.min.z } else { b.min.z },
    };
    let max = Vec3d {
        x: if a.max.x >= b.max.x { a.max.x } else { b.max.x },
        y: if a.max.y >= b.max.y { a.max.y } else { b.max.y },
        z: if a.max.z >= b.max.z { a.max.z } else { b.max.z },
    };
    BoundingBox { min, max, longest_axis: longest_axis_of(min, max) }
}

pub fn surrounding_box(box0: BoundingBox, box1: BoundingBox) -> (r: BoundingBox)
    requires
        box0.wf(),
        box1.wf(),
    ensures
        r == spec_surrounding_box(box0, box1),
        r.wf(),
        r.contains(box0),
        r.contains(box1),
{
    let min = Vec3d {
        x: if box0.min.x <= box1.min.x { box0.min.x } else { box1.min.x },
        y: if box0.min.y <= box1.min.y { box0.min.y } else { box1.min.y },
        z: if box0.min.z <= box1.min.z { box0.min.z } else { box1.min.z },
    };
    let max = Vec3d {
        x: if box0.max.x >= box1.max.x { box0.max.x } else { box1.max.x },
        y: if box0.max.y >= box1.max.y { box0.max.y } else { box1.max.y },
        z: if box0.max.z >= box1.max.z { box0.max.z } else { box1.max.z },
    };
    BoundingBox::new(min, max)
}

/// The box union is commutative.
pub proof fn law_surrounding_box_commutative(a: BoundingBox, b: BoundingBox)
    ensures
        spec_surrounding_box(a, b) == spec_surrounding_box(b, a),
{
}

/// The box union is associative.
pub proof fn law_surrounding_box_associative(a: BoundingBox, b: BoundingBox, c: BoundingBox)
    ensures
        spec_surrounding_box(spec_surrounding_box(a, b), c) == spec_surrounding_box(
            a,
            spec_surrounding_box(b, c),
        ),
{
}

/// The box union is idempotent on well-formed boxes.
pub proof fn law_surrounding_box_idempotent(a: BoundingBox)
    requires
        a.wf(),
    ensures
        spec_surrounding_box(a, a) == a,
{
}

/// The box union contains both of its arguments.
pub proof fn law_surrounding_box_contains(a: BoundingBox, b: BoundingBox)
    ensures
        spec_surrounding_box(a, b).contains(a),
        spec_surrounding_box(a, b).contains(b),
{
}

} // verus!
