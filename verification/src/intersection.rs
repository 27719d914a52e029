use crate::intersection_laws::{
    lemma_hit_unique, lemma_nearest_is_hit, lemma_sort_keeps_hit, lemma_sorted_ascending,
    lemma_sorted_len, lemma_sorted_numbers, lemma_sorted_permutes,
};
use crate::ray::Ray;
use crate::scalar::Scalar;
use crate::sphere::Sphere;
use crate::tuple::Tuple;
use vstd::prelude::*;

verus! {

/// One crossing of a ray with an object: the ray parameter and the object.
#[derive(Clone, Copy, Debug, PartialEq, Eq)]
pub struct Intersection {
    pub t: Scalar,
    pub object: Sphere,
}

/// The crossings of one ray, in the order in which they were recorded until
/// [`Intersections::sort`] orders them.
#[derive(Debug)]
pub struct Intersections {
    data: Vec<Intersection>,
}

/// What shading needs to know about one crossing.
#[derive(Clone, Copy, Debug, PartialEq, Eq)]
pub struct Computation {
    pub t: Scalar,
    pub object: Sphere,
    pub point: Tuple,
    pub eyev: Tuple,
    pub normalv: Tuple,
    pub inside: bool,
    pub over_point: Tuple,
}

/// Whether the crossing lies in front of the ray's origin: `t > 0`.
pub open spec fn in_front(i: Intersection) -> bool {
    Scalar::zero().less(i.t)
}

/// Whether entry `k` is the hit of `s`: it lies in front of the origin, no
/// entry in front is nearer, and every entry in front that was recorded
/// earlier is farther.
pub open spec fn is_hit_at(s: Seq<Intersection>, k: int) -> bool {
    &&& 0 <= k < s.len()
    &&& in_front(s[k])
    &&& forall|j: int| 0 <= j < s.len() && in_front(s[j]) ==> !(#[trigger] s[j]).t.less(s[k].t)
    &&& forall|j: int| 0 <= j < k && in_front(s[j]) ==> s[k].t.less((#[trigger] s[j]).t)
}

/// Whether no entry holds a NaN.
pub open spec fn all_numbers(s: Seq<Intersection>) -> bool {
    forall|j: int| 0 <= j < s.len() ==> !(#[trigger] s[j]).t.nan()
}

/// Whether `t` never decreases along `s`.
pub open spec fn ascending(s: Seq<Intersection>) -> bool {
    forall|i: int, j: int| 0 <= i < j < s.len() ==> !(#[trigger] s[j]).t.less((#[trigger] s[i]).t)
}

/// Where `x` goes into the ordered sequence `s`: behind every entry that is
/// not greater, so behind its equals.
pub open spec fn insert_pos(s: Seq<Intersection>, x: Intersection) -> int
    decreases s.len(),
{
    if s.len() == 0 {
        0
    } else if x.t.less(s.last().t) {
        insert_pos(s.drop_last(), x)
    } else {
        s.len() as int
    }
}

/// `s` in ascending order of `t`, entries with equal `t` in the order they
/// have in `s`.
pub open spec fn sorted_by_t(s: Seq<Intersection>) -> Seq<Intersection>
    decreases s.len(),
{
    if s.len() == 0 {
        Seq::empty()
    } else {
        let front = sorted_by_t(s.drop_last());
        front.insert(insert_pos(front, s.last()), s.last())
    }
}

/// The nearest entry in front of the origin, found by going through `s`
/// from its start: a later entry replaces the one held only where it is
/// strictly nearer.
pub open spec fn nearest(s: Seq<Intersection>) -> Option<Intersection>
    decreases s.len(),
{
    if s.len() == 0 {
        None
    } else {
        let held = nearest(s.drop_last());
        if in_front(s.last()) && (held is None || s.last().t.less(held->0.t)) {
            Some(s.last())
        } else {
            held
        }
    }
}

/// The entries whose `t` equals `k` as a number, in their order.
pub open spec fn entries_at(s: Seq<Intersection>, k: Scalar) -> Seq<Intersection>
    decreases s.len(),
{
    if s.len() == 0 {
        Seq::empty()
    } else if s.last().t.same(k) {
        entries_at(s.drop_last(), k).push(s.last())
    } else {
        entries_at(s.drop_last(), k)
    }
}

impl Intersection {
    /// The crossing of `object` at ray parameter `t`.
    pub fn new(t: Scalar, object: Sphere) -> (r: Intersection)
        ensures
            r == (Intersection { t, object }),
    {
        Intersection { t, object }
    }

    /// Turns the surface normal towards the eye.
    ///
    /// `normal_dot_eye` is the dot product of `normal` and the eye vector.
    /// Where it is negative the eye is inside the object: the normal is
    /// negated and the flag is set.
    pub fn facing(normal: Tuple, normal_dot_eye: Scalar) -> (r: (Tuple, bool))
        ensures
            r.1 == normal_dot_eye.less(Scalar::zero()),
            r.0 == if r.1 {
                normal.negated()
            } else {
                normal
            },
    {
        if normal_dot_eye.lt(Scalar::zero()) {
            (normal.neg(), true)
        } else {
            (normal, false)
        }
    }

    /// Puts the shading record of this crossing together.
    ///
    /// `point` is where the ray is at `t`, `normal` the surface normal
    /// there, and `normal_dot_eye` the dot product of `normal` and the eye
    /// vector, which is the ray's direction negated. Where that product is
    /// negative the eye is inside the object: the record holds the normal
    /// negated and the flag set, as [`Intersection::facing`] gives them.
    /// `over_point` is `point` moved a little along the turned normal.
    pub fn prepare_computations(
        &self,
        ray: &Ray,
        point: Tuple,
        normal: Tuple,
        normal_dot_eye: Scalar,
        over_point: Tuple,
    ) -> (r: Computation)
        ensures
            r.t == self.t,
            r.object == self.object,
            r.point == point,
            r.eyev == ray.direction.negated(),
            r.inside == normal_dot_eye.less(Scalar::zero()),
            r.normalv == if r.inside {
                normal.negated()
            } else {
                normal
            },
            r.over_point == over_point,
    {
        let (normalv, inside) = Intersection::facing(normal, normal_dot_eye);
        Computation {
            t: self.t,
            object: self.object,
            point,
            eyev: ray.eye_vector(),
            normalv,
            inside,
            over_point,
        }
    }
}

impl View for Intersections {
    type V = Seq<Intersection>;

    closed spec fn view(&self) -> Seq<Intersection> {
        self.data@
    }
}

impl Default for Intersections {
    /// The empty collection.
    fn default() -> (r: Intersections)
        ensures
            r@ == Seq::<Intersection>::empty(),
    {
        Intersections { data: Vec::new() }
    }
}

impl Intersections {
    /// The empty collection.
    pub fn new() -> (r: Intersections)
        ensures
            r@ == Seq::<Intersection>::empty(),
    {
        Intersections { data: Vec::new() }
    }

    /// Records one more crossing, behind those already held.
    pub fn push(&mut self, intersection: Intersection)
        ensures
            final(self)@ == old(self)@.push(intersection),
    {
        self.data.push(intersection);
    }

    /// How many crossings are held.
    pub fn len(&self) -> (r: usize)
        ensures
            r == self@.len(),
    {
        self.data.len()
    }

    /// Whether no crossing is held.
    pub fn is_empty(&self) -> (r: bool)
        ensures
            r == (self@.len() == 0),
    {
        self.data.len() == 0
    }

    /// The entry at position `idx`.
    pub fn get(&self, idx: usize) -> (r: Intersection)
        requires
            idx < self@.len(),
        ensures
            r == self@[idx as int],
    {
        self.data[idx]
    }

    /// Whether some entry holds a NaN, which has no place in an order.
    pub fn has_nan(&self) -> (r: bool)
        ensures
            r == !all_numbers(self@),
    {
        let mut i: usize = 0;
        while i < self.data.len()
            invariant
                i <= self.data@.len(),
                forall|j: int| 0 <= j < i ==> !(#[trigger] self.data@[j]).t.nan(),
            decreases self.data@.len() - i,
        {
            if self.data[i].t.is_nan() {
                return true;
            }
            i = i + 1;
        }
        false
    }

    /// Appends the entries of `b`, in their order.
    pub fn extend(&mut self, b: Intersections)
        ensures
            final(self)@ == old(self)@ + b@,
    {
        let mut other = b;
        self.data.append(&mut other.data);
    }

    /// Orders the entries by ascending `t` and keeps entries with equal `t`
    /// in the order they had. Where no entry holds a NaN, `t` never
    /// decreases afterwards; an entry with a NaN stays behind the entries
    /// that were recorded before it.
    pub fn sort(&mut self)
        ensures
            final(self)@ == sorted_by_t(old(self)@),
            final(self)@.len() == old(self)@.len(),
            final(self)@.to_multiset() == old(self)@.to_multiset(),
            all_numbers(old(self)@) ==> ascending(final(self)@) && all_numbers(final(self)@),
            all_numbers(old(self)@) ==> nearest(final(self)@) == nearest(old(self)@),
    {
        proof {
            lemma_sorted_len(self@);
            lemma_sorted_permutes(self@);
            if all_numbers(self@) {
                lemma_sorted_ascending(self@);
                lemma_sorted_numbers(self@);
                lemma_sort_keeps_hit(self@);
            }
        }
        let n: usize = self.data.len();
        let mut out: Vec<Intersection> = Vec::new();
        let mut i: usize = 0;
        while i < n
            invariant
                i <= n,
                n == self.data@.len(),
                out@ == sorted_by_t(self.data@.take(i as int)),
                out@.len() == i,
            decreases n - i,
        {
            let x = self.data[i];
            let mut pos: usize = out.len();
            proof {
                assert(out@.take(pos as int) =~= out@);
            }
            while pos > 0 && x.t.lt(out[pos - 1].t)
                invariant
                    pos <= out@.len(),
                    insert_pos(out@, x) == insert_pos(out@.take(pos as int), x),
                decreases pos,
            {
                proof {
                    assert(out@.take(pos as int).drop_last() =~= out@.take(pos - 1));
                }
                pos = pos - 1;
            }
            proof {
                assert(pos > 0 ==> out@.take(pos as int).last() == out@[pos - 1]);
                assert(insert_pos(out@, x) == pos);
                assert(self.data@.take(i + 1).drop_last() =~= self.data@.take(i as int));
                assert(self.data@.take(i + 1).last() == x);
            }
            out.insert(pos, x);
            i = i + 1;
        }
        proof {
            assert(self.data@.take(n as int) =~= self.data@);
        }
        self.data = out;
    }

    /// The nearest crossing in front of the ray's origin: the entry with the
    /// smallest `t > 0`, the earliest recorded one among equals. `None`
    /// where no entry has `t > 0`.
    pub fn hit(&self) -> (r: Option<Intersection>)
        ensures
            r is None <==> forall|j: int| 0 <= j < self@.len() ==> !in_front(#[trigger] self@[j]),
            r is Some ==> exists|k: int| #[trigger] is_hit_at(self@, k) && self@[k] == r->0,
            r == nearest(self@),
    {
        let mut result: Option<Intersection> = None;
        let ghost mut at: int = 0;
        let n: usize = self.data.len();
        let mut i: usize = 0;
        while i < n
            invariant
                i <= n,
                n == self.data@.len(),
                result is None <==> forall|j: int| 0 <= j < i ==> !in_front(#[trigger] self.data@[j]),
                result is Some ==> is_hit_at(self.data@.take(i as int), at) && self.data@[at]
                    == result->0,
            decreases n - i,
        {
            let x = self.data[i];
            let ghost before = self.data@.take(i as int);
            let ghost after = self.data@.take(i + 1);
            proof {
                assert(forall|j: int| 0 <= j < i ==> after[j] == before[j]);
                assert(after[i as int] == x);
            }
            if x.t.gt(Scalar::zero()) {
                match result {
                    Some(prev) => {
                        if x.t.lt(prev.t) {
                            proof {
                                assert forall|j: int|
                                    0 <= j < after.len() && in_front(after[j]) implies !(
                                #[trigger] after[j]).t.less(x.t) by {
                                    if j < i {
                                        assert(!before[j].t.less(prev.t));
                                    }
                                }
                                assert forall|j: int| 0 <= j < i && in_front(after[j]) implies x.t.less(
                                    (#[trigger] after[j]).t,
                                ) by {
                                    assert(!before[j].t.less(prev.t));
                                }
                                at = i as int;
                            }
                            result = Some(x);
                        } else {
                            proof {
                                assert forall|j: int|
                                    0 <= j < after.len() && in_front(after[j]) implies !(
                                #[trigger] after[j]).t.less(prev.t) by {
                                    if j < i {
                                        assert(!before[j].t.less(prev.t));
                                    }
                                }
                                assert forall|j: int|
                                    0 <= j < at && in_front(after[j]) implies prev.t.less(
                                    (#[trigger] after[j]).t,
                                ) by {
                                    assert(prev.t.less(before[j].t));
                                }
                            }
                        }
                    },
                    None => {
                        proof {
                            at = i as int;
                        }
                        result = Some(x);
                    },
                }
            } else {
                proof {
                    if result is Some {
                        let prev = result->0;
                        assert forall|j: int|
                            0 <= j < after.len() && in_front(after[j]) implies !(
                        #[trigger] after[j]).t.less(prev.t) by {
                            assert(!before[j].t.less(prev.t));
                        }
                        assert forall|j: int| 0 <= j < at && in_front(after[j]) implies prev.t.less(
                            (#[trigger] after[j]).t,
                        ) by {
                            assert(prev.t.less(before[j].t));
                        }
                    }
                }
            }
            i = i + 1;
        }
        proof {
            assert(self.data@.take(n as int) =~= self.data@);
            assert(self@ == self.data@);
            lemma_nearest_is_hit(self@);
            if result is Some {
                assert(is_hit_at(self@, at));
                assert(in_front(self@[at]));
                let k: int = choose|k: int| #[trigger] is_hit_at(self@, k) && self@[k] == nearest(self@)->0;
                lemma_hit_unique(self@, k, at);
            }
        }
        result
    }
}

} // verus!
