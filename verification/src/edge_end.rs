//! Directed stubs of edges incident on a node, and their robust angular
//! order.

use vstd::prelude::*;
use vstd::seq_lib::lemma_multiset_commutative;

use crate::coord::Coord;
use crate::kernel::{orient2d, orientation_of_sign, spec_cross, Orientation};
use crate::label::Label;
use crate::quadrant::{spec_quadrant, Quadrant};

verus! {

/// The geometric part of an edge end: its two defining coordinates, the
/// direction vector from the first to the second, and the vector's
/// quadrant. Edge ends around a node are ordered by the angle of this
/// vector with the positive x axis.
#[derive(Clone, Copy, Debug)]
pub struct EdgeEndKey {
    pub coord_0: Coord,
    pub coord_1: Coord,
    pub delta: Coord,
    pub quadrant: Option<Quadrant>,
}

/// The end of an edge incident on a node: an outgoing directed stub with
/// the edge's label.
#[derive(Clone, Copy, Debug)]
pub struct EdgeEnd {
    pub label: Label,
    pub key: EdgeEndKey,
}

impl EdgeEndKey {
    /// The key's derived fields agree with its coordinates, and the
    /// coordinates are in range.
    pub open spec fn wf(self) -> bool {
        &&& self.coord_0.is_valid()
        &&& self.coord_1.is_valid()
        &&& self.delta.x == self.coord_1.x - self.coord_0.x
        &&& self.delta.y == self.coord_1.y - self.coord_0.y
        &&& self.quadrant == spec_quadrant(self.delta.x as int, self.delta.y as int)
    }

    /// The robust angular order on edge-end keys: equal direction
    /// vectors are equal; otherwise different quadrants order coarsely,
    /// and within one quadrant the exact orientation of `other`'s ray
    /// against this key's head decides.
    #[verifier::opaque]
    pub open spec fn spec_compare(self, other: EdgeEndKey) -> core::cmp::Ordering {
        if self.delta == other.delta {
            core::cmp::Ordering::Equal
        } else {
            match (self.quadrant, other.quadrant) {
                (Option::Some(q1), Option::Some(q2)) => {
                    if q1.spec_rank() > q2.spec_rank() {
                        core::cmp::Ordering::Greater
                    } else if q1.spec_rank() < q2.spec_rank() {
                        core::cmp::Ordering::Less
                    } else {
                        self.spec_compare_by_orientation(other)
                    }
                },
                _ => self.spec_compare_by_orientation(other),
            }
        }
    }

    /// The tie-break within one quadrant: this key is the greater one
    /// when its head lies counter-clockwise of the other's ray.
    pub open spec fn spec_compare_by_orientation(self, other: EdgeEndKey) -> core::cmp::Ordering {
        match orientation_of_sign(spec_cross(other.coord_0, other.coord_1, self.coord_1)) {
            Orientation::Clockwise => core::cmp::Ordering::Less,
            Orientation::CounterClockwise => core::cmp::Ordering::Greater,
            Orientation::Collinear => core::cmp::Ordering::Equal,
        }
    }

    /// Compare two edge-end keys by angle from the positive x axis,
    /// exactly.
    pub fn compare_direction(&self, other: &EdgeEndKey) -> (r: core::cmp::Ordering)
        requires
            self.wf(),
            other.wf(),
        ensures
            r == self.spec_compare(*other),
    {
        proof {
            reveal(EdgeEndKey::spec_compare);
        }
        if self.delta == other.delta {
            return core::cmp::Ordering::Equal;
        }
        match (self.quadrant, other.quadrant) {
            (Option::Some(q1), Option::Some(q2)) => {
                let r1 = q1.rank();
                let r2 = q2.rank();
                if r1 > r2 {
                    core::cmp::Ordering::Greater
                } else if r1 < r2 {
                    core::cmp::Ordering::Less
                } else {
                    self.compare_by_orientation(other)
                }
            },
            _ => self.compare_by_orientation(other),
        }
    }

    fn compare_by_orientation(&self, other: &EdgeEndKey) -> (r: core::cmp::Ordering)
        requires
            self.wf(),
            other.wf(),
        ensures
            r == self.spec_compare_by_orientation(*other),
    {
        match orient2d(other.coord_0, other.coord_1, self.coord_1) {
            Orientation::Clockwise => core::cmp::Ordering::Less,
            Orientation::CounterClockwise => core::cmp::Ordering::Greater,
            Orientation::Collinear => core::cmp::Ordering::Equal,
        }
    }
}

/// Around one node the angular comparison is antisymmetric: whenever one
/// key compares greater than another, the other compares less.
pub proof fn lemma_compare_antisymmetric(a: EdgeEndKey, b: EdgeEndKey)
    requires
        a.wf(),
        b.wf(),
        a.coord_0 == b.coord_0,
        a.spec_compare(b) == core::cmp::Ordering::Greater,
    ensures
        b.spec_compare(a) == core::cmp::Ordering::Less,
{
    reveal(EdgeEndKey::spec_compare);
    if a.delta == b.delta {
    } else {
        let compared_by_quadrants = match (a.quadrant, b.quadrant) {
            (Option::Some(q1), Option::Some(q2)) => q1.spec_rank() != q2.spec_rank(),
            _ => false,
        };
        if !compared_by_quadrants {
            lemma_cross_swap_heads(a.coord_0, a.coord_1, b.coord_1);
        }
    }
}

/// Exchanging the two heads about a common origin flips the sign of the
/// cross product.
proof fn lemma_cross_swap_heads(o: Coord, p: Coord, q: Coord)
    ensures
        spec_cross(o, p, q) == -spec_cross(o, q, p),
{
    let ox = o.x as int;
    let oy = o.y as int;
    let px = p.x as int;
    let py = p.y as int;
    let qx = q.x as int;
    let qy = q.y as int;
    assert((px - ox) * (qy - oy) - (py - oy) * (qx - ox) == -((qx - ox) * (py - oy) - (qy - oy) * (
    px - ox))) by (nonlinear_arith);
}

impl EdgeEnd {
    /// An edge end from `coord_0` toward `coord_1`, carrying `label`.
    pub fn new(coord_0: Coord, coord_1: Coord, label: Label) -> (r: EdgeEnd)
        requires
            coord_0.is_valid(),
            coord_1.is_valid(),
        ensures
            r.label == label,
            r.key.coord_0 == coord_0,
            r.key.coord_1 == coord_1,
            r.key.wf(),
    {
        let delta = Coord { x: coord_1.x - coord_0.x, y: coord_1.y - coord_0.y };
        let quadrant = Quadrant::new(delta.x, delta.y);
        EdgeEnd { label, key: EdgeEndKey { coord_0, coord_1, delta, quadrant } }
    }

    pub fn label(&self) -> (r: &Label)
        ensures
            r == self.label,
    {
        &self.label
    }

    /// Replace the edge end's label.
    pub fn set_label(&mut self, label: Label)
        ensures
            *final(self) == (EdgeEnd { label, ..*old(self) }),
    {
        self.label = label;
    }

    /// The node coordinate the stub starts from.
    pub fn coordinate(&self) -> (r: &Coord)
        ensures
            r == self.key.coord_0,
    {
        &self.key.coord_0
    }

    pub fn key(&self) -> (r: &EdgeEndKey)
        ensures
            r == self.key,
    {
        &self.key
    }
}

/// Whether a ring of edge ends is in non-decreasing angular order:
/// no member compares greater than its successor.
pub open spec fn ring_sorted(ring: Seq<EdgeEnd>) -> bool {
    forall|i: int|
        0 <= i < ring.len() - 1 ==> #[trigger] ring[i].key.spec_compare(ring[i + 1].key)
            != core::cmp::Ordering::Greater
}

/// All members of a ring are well formed and start at one shared node
/// coordinate.
pub open spec fn ring_wf(ring: Seq<EdgeEnd>) -> bool {
    &&& forall|i: int| 0 <= i < ring.len() ==> (#[trigger] ring[i]).key.wf()
    &&& forall|i: int, j: int|
        0 <= i < ring.len() && 0 <= j < ring.len() ==> (#[trigger] ring[i]).key.coord_0 == (
        #[trigger] ring[j]).key.coord_0
}

/// Inserting an element anywhere in a sequence adds exactly it to the
/// sequence's multiset.
proof fn lemma_insert_to_multiset<A>(s: Seq<A>, k: int, x: A)
    requires
        0 <= k <= s.len(),
    ensures
        s.insert(k, x).to_multiset() == s.to_multiset().insert(x),
{
    let a = s.subrange(0, k);
    let b = s.subrange(k, s.len() as int);
    assert(s =~= a + b);
    assert(s.insert(k, x) == a.push(x) + b);
    lemma_multiset_commutative(a.push(x), b);
    lemma_multiset_commutative(a, b);
    vstd::seq_lib::to_multiset_build(a, x);
    assert(a.to_multiset().insert(x).add(b.to_multiset()) =~= a.to_multiset().add(
        b.to_multiset(),
    ).insert(x));
}

/// Extending a prefix by its next element is a push.
proof fn lemma_subrange_push<A>(s: Seq<A>, k: int)
    requires
        0 <= k < s.len(),
    ensures
        s.subrange(0, k + 1) == s.subrange(0, k).push(s[k]),
{
    assert(s.subrange(0, k + 1) =~= s.subrange(0, k).push(s[k]));
}

/// Inserting an element between its angular neighbours keeps a ring in
/// non-decreasing order.
proof fn lemma_sort_step_sorted(before: Seq<EdgeEnd>, idx: int, e: EdgeEnd, after: Seq<EdgeEnd>)
    requires
        0 <= idx <= before.len(),
        after == before.insert(idx, e),
        ring_sorted(before),
        forall|i: int|
            0 <= i < idx ==> (#[trigger] before[i]).key.spec_compare(e.key)
                != core::cmp::Ordering::Greater,
        idx < before.len() ==> e.key.spec_compare(before[idx].key) != core::cmp::Ordering::Greater,
    ensures
        ring_sorted(after),
{
    before.insert_ensures(idx, e);
    assert forall|i: int| 0 <= i < after.len() - 1 implies (#[trigger] after[i]).key.spec_compare(
        after[i + 1].key,
    ) != core::cmp::Ordering::Greater by {
        if i + 1 < idx {
            assert(after[i] == before[i] && after[i + 1] == before[i + 1]);
        } else if i + 1 == idx {
            assert(after[i] == before[i] && after[i + 1] == e);
        } else if i == idx {
            assert(after[i] == e && after[i + 1] == before[i]);
        } else {
            assert(after[i] == before[i - 1] && after[i + 1] == before[i]);
        }
    }
}

/// Sort the edge ends around one node into non-decreasing angular
/// order. The result holds exactly the given edge ends.
/// Place one edge end among already sorted ones, just before the first
/// member that is not angularly below it.
fn insert_by_angle(result: &mut Vec<EdgeEnd>, e: EdgeEnd)
    requires
        forall|i: int| 0 <= i < old(result)@.len() ==> (#[trigger] old(result)@[i]).key.wf(),
        forall|i: int|
            0 <= i < old(result)@.len() ==> (#[trigger] old(result)@[i]).key.coord_0
                == e.key.coord_0,
        e.key.wf(),
        ring_sorted(old(result)@),
    ensures
        final(result)@.len() == old(result)@.len() + 1,
        final(result)@.to_multiset() == old(result)@.to_multiset().insert(e),
        forall|i: int| 0 <= i < final(result)@.len() ==> (#[trigger] final(result)@[i]).key.wf(),
        forall|i: int|
            0 <= i < final(result)@.len() ==> (#[trigger] final(result)@[i]).key.coord_0
                == e.key.coord_0,
        forall|i: int|
            0 <= i < final(result)@.len() ==> (#[trigger] final(result)@[i]) == e || old(
                result,
            )@.contains(final(result)@[i]),
        ring_sorted(final(result)@),
{
    let ghost before = result@;
    let mut idx: usize = 0;
    let result_len = result.len();
    while idx < result_len
        invariant_except_break
            0 <= idx <= result_len,
            result_len == result@.len(),
            before == result@,
            forall|i: int| 0 <= i < result@.len() ==> (#[trigger] result@[i]).key.wf(),
            forall|i: int|
                0 <= i < result@.len() ==> (#[trigger] result@[i]).key.coord_0 == e.key.coord_0,
            e.key.wf(),
            forall|i: int|
                0 <= i < idx ==> (#[trigger] result@[i]).key.spec_compare(e.key)
                    != core::cmp::Ordering::Greater,
        ensures
            0 <= idx <= result_len,
            result_len == result@.len(),
            before == result@,
            forall|i: int|
                0 <= i < idx ==> (#[trigger] result@[i]).key.spec_compare(e.key)
                    != core::cmp::Ordering::Greater,
            idx < result_len ==> e.key.spec_compare(result@[idx as int].key)
                != core::cmp::Ordering::Greater,
        decreases result_len - idx,
    {
        let cur = result[idx];
        match e.key.compare_direction(&cur.key) {
            core::cmp::Ordering::Greater => {
                proof {
                    lemma_compare_antisymmetric(e.key, result@[idx as int].key);
                }
            },
            _ => {
                break ;
            },
        }
        idx += 1;
    }
    result.insert(idx, e);
    proof {
        lemma_insert_to_multiset(before, idx as int, e);
        lemma_sort_step_sorted(before, idx as int, e, result@);
        before.insert_ensures(idx as int, e);
    }
}

/// Sort the edge ends around one node into non-decreasing angular
/// order. The result holds exactly the given edge ends.
pub fn sort_edge_ends(ring: Vec<EdgeEnd>) -> (r: Vec<EdgeEnd>)
    requires
        ring_wf(ring@),
    ensures
        r@.len() == ring@.len(),
        r@.to_multiset() == ring@.to_multiset(),
        forall|i: int| 0 <= i < r@.len() ==> ring@.contains(#[trigger] r@[i]),
        ring_sorted(r@),
{
    let mut result: Vec<EdgeEnd> = Vec::new();
    let mut taken: usize = 0;
    let len = ring.len();
    proof {
        assert(ring@.subrange(0, 0) =~= result@);
    }
    while taken < len
        invariant
            0 <= taken <= len,
            len == ring@.len(),
            ring_wf(ring@),
            result@.len() == taken,
            result@.to_multiset() == ring@.subrange(0, taken as int).to_multiset(),
            forall|i: int| 0 <= i < result@.len() ==> (#[trigger] result@[i]).key.wf(),
            forall|i: int, j: int|
                0 <= i < result@.len() && 0 <= j < ring@.len() ==> (
                #[trigger] result@[i]).key.coord_0 == (#[trigger] ring@[j]).key.coord_0,
            forall|i: int| 0 <= i < result@.len() ==> ring@.contains(#[trigger] result@[i]),
            ring_sorted(result@),
        decreases len - taken,
    {
        let e = ring[taken];
        let ghost prefix = ring@.subrange(0, taken as int);
        insert_by_angle(&mut result, e);
        proof {
            lemma_subrange_push(ring@, taken as int);
            vstd::seq_lib::to_multiset_build(prefix, e);
        }
        taken += 1;
    }
    proof {
        assert(ring@.subrange(0, len as int) == ring@) by {
            assert(ring@.subrange(0, len as int) =~= ring@);
        }
    }
    result
}

} // verus!
