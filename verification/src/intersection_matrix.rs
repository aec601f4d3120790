//! The dimensionally extended nine-intersection matrix (DE-9IM) and the
//! standard predicates derived from it.

use vstd::prelude::*;
use vstd::string::StringSliceAdditionalSpecFns;

use crate::position::{CoordPos, Dimensions};

verus! {

/// A 3×3 grid of [`Dimensions`] values. Cell `(pos_a, pos_b)` holds the
/// dimension of the intersection of the `pos_a` region of geometry A with
/// the `pos_b` region of geometry B, the regions being interior, boundary
/// and exterior.
#[derive(Clone, Copy, Debug, PartialEq, Eq, Structural)]
pub struct IntersectionMatrix {
    pub ii: Dimensions,
    pub ib: Dimensions,
    pub ie: Dimensions,
    pub bi: Dimensions,
    pub bb: Dimensions,
    pub be: Dimensions,
    pub ei: Dimensions,
    pub eb: Dimensions,
    pub ee: Dimensions,
}

/// Whether one template byte accepts one cell value: `T` any non-empty
/// dimension, `F` only empty, `*` anything, and a digit the matching
/// dimension.
pub open spec fn template_byte_matches(byte: u8, d: Dimensions) -> bool {
    if byte == 84u8 {  // 'T'
        d != Dimensions::Empty
    } else if byte == 70u8 {  // 'F'
        d == Dimensions::Empty
    } else if byte == 42u8 {  // '*'
        true
    } else if byte == 48u8 {  // '0'
        d == Dimensions::ZeroDimensional
    } else if byte == 49u8 {  // '1'
        d == Dimensions::OneDimensional
    } else {  // '2'
        d == Dimensions::TwoDimensional
    }
}

/// Whether a byte is one of the template alphabet `T F * 0 1 2`.
pub open spec fn is_template_byte(byte: u8) -> bool {
    byte == 84u8 || byte == 70u8 || byte == 42u8 || byte == 48u8 || byte == 49u8 || byte == 50u8
}

impl IntersectionMatrix {
    /// The cell for a pair of positions.
    pub open spec fn spec_get(self, pos_a: CoordPos, pos_b: CoordPos) -> Dimensions {
        match (pos_a, pos_b) {
            (CoordPos::Inside, CoordPos::Inside) => self.ii,
            (CoordPos::Inside, CoordPos::OnBoundary) => self.ib,
            (CoordPos::Inside, CoordPos::Outside) => self.ie,
            (CoordPos::OnBoundary, CoordPos::Inside) => self.bi,
            (CoordPos::OnBoundary, CoordPos::OnBoundary) => self.bb,
            (CoordPos::OnBoundary, CoordPos::Outside) => self.be,
            (CoordPos::Outside, CoordPos::Inside) => self.ei,
            (CoordPos::Outside, CoordPos::OnBoundary) => self.eb,
            (CoordPos::Outside, CoordPos::Outside) => self.ee,
        }
    }

    /// The cell in row-major reading order, rows and columns both ordered
    /// interior, boundary, exterior — the order of a DE-9IM template
    /// string.
    pub open spec fn spec_cell(self, index: int) -> Dimensions {
        if index == 0 {
            self.ii
        } else if index == 1 {
            self.ib
        } else if index == 2 {
            self.ie
        } else if index == 3 {
            self.bi
        } else if index == 4 {
            self.bb
        } else if index == 5 {
            self.be
        } else if index == 6 {
            self.ei
        } else if index == 7 {
            self.eb
        } else {
            self.ee
        }
    }

    /// Whether the matrix matches a nine-byte DE-9IM template.
    pub open spec fn spec_matches(self, template: Seq<u8>) -> bool {
        forall|i: int| 0 <= i < 9 ==> template_byte_matches(template[i], #[trigger] self.spec_cell(i))
    }

    /// The matrix with rows and columns exchanged, describing the
    /// relationship read from the other geometry's point of view.
    pub open spec fn spec_transpose(self) -> IntersectionMatrix {
        IntersectionMatrix {
            ii: self.ii,
            ib: self.bi,
            ie: self.ei,
            bi: self.ib,
            bb: self.bb,
            be: self.eb,
            ei: self.ie,
            eb: self.be,
            ee: self.ee,
        }
    }

    /// The matrix with cell `(pos_a, pos_b)` overwritten by `dimensions`.
    pub open spec fn spec_set(
        self,
        pos_a: CoordPos,
        pos_b: CoordPos,
        dimensions: Dimensions,
    ) -> IntersectionMatrix {
        match (pos_a, pos_b) {
            (CoordPos::Inside, CoordPos::Inside) => IntersectionMatrix { ii: dimensions, ..self },
            (CoordPos::Inside, CoordPos::OnBoundary) => IntersectionMatrix { ib: dimensions, ..self },
            (CoordPos::Inside, CoordPos::Outside) => IntersectionMatrix { ie: dimensions, ..self },
            (CoordPos::OnBoundary, CoordPos::Inside) => IntersectionMatrix { bi: dimensions, ..self },
            (CoordPos::OnBoundary, CoordPos::OnBoundary) => IntersectionMatrix {
                bb: dimensions,
                ..self
            },
            (CoordPos::OnBoundary, CoordPos::Outside) => IntersectionMatrix { be: dimensions, ..self },
            (CoordPos::Outside, CoordPos::Inside) => IntersectionMatrix { ei: dimensions, ..self },
            (CoordPos::Outside, CoordPos::OnBoundary) => IntersectionMatrix { eb: dimensions, ..self },
            (CoordPos::Outside, CoordPos::Outside) => IntersectionMatrix { ee: dimensions, ..self },
        }
    }

    /// The matrix with cell `(pos_a, pos_b)` raised to at least
    /// `dimensions`.
    pub open spec fn spec_set_at_least(
        self,
        pos_a: CoordPos,
        pos_b: CoordPos,
        dimensions: Dimensions,
    ) -> IntersectionMatrix {
        self.spec_set(pos_a, pos_b, self.spec_get(pos_a, pos_b).spec_max(dimensions))
    }

    /// The matrix with cell `(pos_a, pos_b)` raised to at least
    /// `dimensions` when both positions are known, else unchanged.
    pub open spec fn spec_set_at_least_if_valid(
        self,
        pos_a: Option<CoordPos>,
        pos_b: Option<CoordPos>,
        dimensions: Dimensions,
    ) -> IntersectionMatrix {
        match (pos_a, pos_b) {
            (Option::Some(pa), Option::Some(pb)) => self.spec_set_at_least(pa, pb, dimensions),
            _ => self,
        }
    }

    /// A matrix with every cell empty.
    pub fn new() -> (r: IntersectionMatrix)
        ensures
            forall|pa: CoordPos, pb: CoordPos| r.spec_get(pa, pb) == Dimensions::Empty,
    {
        IntersectionMatrix {
            ii: Dimensions::Empty,
            ib: Dimensions::Empty,
            ie: Dimensions::Empty,
            bi: Dimensions::Empty,
            bb: Dimensions::Empty,
            be: Dimensions::Empty,
            ei: Dimensions::Empty,
            eb: Dimensions::Empty,
            ee: Dimensions::Empty,
        }
    }

    /// Read one cell.
    pub fn get(&self, pos_a: CoordPos, pos_b: CoordPos) -> (r: Dimensions)
        ensures
            r == self.spec_get(pos_a, pos_b),
    {
        match (pos_a, pos_b) {
            (CoordPos::Inside, CoordPos::Inside) => self.ii,
            (CoordPos::Inside, CoordPos::OnBoundary) => self.ib,
            (CoordPos::Inside, CoordPos::Outside) => self.ie,
            (CoordPos::OnBoundary, CoordPos::Inside) => self.bi,
            (CoordPos::OnBoundary, CoordPos::OnBoundary) => self.bb,
            (CoordPos::OnBoundary, CoordPos::Outside) => self.be,
            (CoordPos::Outside, CoordPos::Inside) => self.ei,
            (CoordPos::Outside, CoordPos::OnBoundary) => self.eb,
            (CoordPos::Outside, CoordPos::Outside) => self.ee,
        }
    }

    /// Overwrite one cell, keeping the others.
    pub fn set(&mut self, pos_a: CoordPos, pos_b: CoordPos, dimensions: Dimensions)
        ensures
            *final(self) == old(self).spec_set(pos_a, pos_b, dimensions),
            final(self).spec_get(pos_a, pos_b) == dimensions,
            forall|pa: CoordPos, pb: CoordPos|
                (pa, pb) != (pos_a, pos_b) ==> final(self).spec_get(pa, pb) == old(self).spec_get(
                    pa,
                    pb,
                ),
    {
        match (pos_a, pos_b) {
            (CoordPos::Inside, CoordPos::Inside) => self.ii = dimensions,
            (CoordPos::Inside, CoordPos::OnBoundary) => self.ib = dimensions,
            (CoordPos::Inside, CoordPos::Outside) => self.ie = dimensions,
            (CoordPos::OnBoundary, CoordPos::Inside) => self.bi = dimensions,
            (CoordPos::OnBoundary, CoordPos::OnBoundary) => self.bb = dimensions,
            (CoordPos::OnBoundary, CoordPos::Outside) => self.be = dimensions,
            (CoordPos::Outside, CoordPos::Inside) => self.ei = dimensions,
            (CoordPos::Outside, CoordPos::OnBoundary) => self.eb = dimensions,
            (CoordPos::Outside, CoordPos::Outside) => self.ee = dimensions,
        }
    }

    /// Raise one cell to at least `dimensions`, keeping the others.
    pub fn set_at_least(&mut self, pos_a: CoordPos, pos_b: CoordPos, dimensions: Dimensions)
        ensures
            *final(self) == old(self).spec_set_at_least(pos_a, pos_b, dimensions),
            final(self).spec_get(pos_a, pos_b) == old(self).spec_get(pos_a, pos_b).spec_max(
                dimensions,
            ),
            forall|pa: CoordPos, pb: CoordPos|
                (pa, pb) != (pos_a, pos_b) ==> final(self).spec_get(pa, pb) == old(self).spec_get(
                    pa,
                    pb,
                ),
    {
        let raised = self.get(pos_a, pos_b).max(dimensions);
        self.set(pos_a, pos_b, raised);
    }

    /// Raise cell `(pos_a, pos_b)` to at least `dimensions` when both
    /// positions are known; when either is unknown, change nothing.
    pub fn set_at_least_if_valid(
        &mut self,
        pos_a: Option<CoordPos>,
        pos_b: Option<CoordPos>,
        dimensions: Dimensions,
    )
        ensures
            *final(self) == old(self).spec_set_at_least_if_valid(pos_a, pos_b, dimensions),
            match (pos_a, pos_b) {
                (Option::Some(pa), Option::Some(pb)) => {
                    &&& final(self).spec_get(pa, pb) == old(self).spec_get(pa, pb).spec_max(
                        dimensions,
                    )
                    &&& forall|qa: CoordPos, qb: CoordPos|
                        (qa, qb) != (pa, pb) ==> final(self).spec_get(qa, qb) == old(
                            self,
                        ).spec_get(qa, qb)
                },
                _ => *final(self) == *old(self),
            },
    {
        if let Option::Some(pa) = pos_a {
            if let Option::Some(pb) = pos_b {
                self.set_at_least(pa, pb, dimensions);
            }
        }
    }

    /// The matrix read from the other geometry's point of view.
    pub fn transpose(&self) -> (r: IntersectionMatrix)
        ensures
            r == self.spec_transpose(),
            forall|pa: CoordPos, pb: CoordPos|
                #[trigger] r.spec_get(pa, pb) == self.spec_get(pb, pa),
    {
        IntersectionMatrix {
            ii: self.ii,
            ib: self.bi,
            ie: self.ei,
            bi: self.ib,
            bb: self.bb,
            be: self.eb,
            ei: self.ie,
            eb: self.be,
            ee: self.ee,
        }
    }

    /// Whether the matrix matches a DE-9IM template: nine characters from
    /// `T F * 0 1 2`, rows for geometry A over interior, boundary,
    /// exterior, columns likewise for geometry B.
    pub fn matches(&self, template: &str) -> (r: bool)
        requires
            template.spec_bytes().len() == 9,
            forall|i: int| 0 <= i < 9 ==> is_template_byte(#[trigger] template.spec_bytes()[i]),
        ensures
            r == self.spec_matches(template.spec_bytes()),
    {
        let bytes = template.as_bytes();
        let mut i: usize = 0;
        while i < 9
            invariant
                0 <= i <= 9,
                bytes@ == template.spec_bytes(),
                bytes@.len() == 9,
                forall|j: int|
                    0 <= j < i ==> template_byte_matches(bytes@[j], #[trigger] self.spec_cell(j)),
            decreases 9 - i,
        {
            let cell = self.cell(i);
            let byte = bytes[i];
            let ok = if byte == 84u8 {
                !matches!(cell, Dimensions::Empty)
            } else if byte == 70u8 {
                matches!(cell, Dimensions::Empty)
            } else if byte == 42u8 {
                true
            } else if byte == 48u8 {
                matches!(cell, Dimensions::ZeroDimensional)
            } else if byte == 49u8 {
                matches!(cell, Dimensions::OneDimensional)
            } else {
                matches!(cell, Dimensions::TwoDimensional)
            };
            if !ok {
                return false;
            }
            i += 1;
        }
        true
    }

    /// The cell in template reading order; `index` runs from 0 to 8.
    pub fn cell(&self, index: usize) -> (r: Dimensions)
        requires
            index < 9,
        ensures
            r == self.spec_cell(index as int),
    {
        if index == 0 {
            self.ii
        } else if index == 1 {
            self.ib
        } else if index == 2 {
            self.ie
        } else if index == 3 {
            self.bi
        } else if index == 4 {
            self.bb
        } else if index == 5 {
            self.be
        } else if index == 6 {
            self.ei
        } else if index == 7 {
            self.eb
        } else {
            self.ee
        }
    }
}

// The standard DE-9IM predicates. Each is specified exactly by the cells
// it constrains, following the standard templates.
impl IntersectionMatrix {
    /// `equals`: template `T*F**FFF*`.
    pub open spec fn spec_is_equal_topo(self) -> bool {
        &&& self.ii != Dimensions::Empty
        &&& self.ie == Dimensions::Empty
        &&& self.be == Dimensions::Empty
        &&& self.ei == Dimensions::Empty
        &&& self.eb == Dimensions::Empty
    }

    /// `disjoint`: template `FF*FF****`.
    pub open spec fn spec_is_disjoint(self) -> bool {
        &&& self.ii == Dimensions::Empty
        &&& self.ib == Dimensions::Empty
        &&& self.bi == Dimensions::Empty
        &&& self.bb == Dimensions::Empty
    }

    /// `contains`: template `T*****FF*`.
    pub open spec fn spec_is_contains(self) -> bool {
        &&& self.ii != Dimensions::Empty
        &&& self.ei == Dimensions::Empty
        &&& self.eb == Dimensions::Empty
    }

    /// `within`: template `T*F**F***`.
    pub open spec fn spec_is_within(self) -> bool {
        &&& self.ii != Dimensions::Empty
        &&& self.ie == Dimensions::Empty
        &&& self.be == Dimensions::Empty
    }

    /// `covers`: one of `T*****FF*`, `*T****FF*`, `***T**FF*`,
    /// `****T*FF*`.
    pub open spec fn spec_is_covers(self) -> bool {
        &&& self.ei == Dimensions::Empty
        &&& self.eb == Dimensions::Empty
        &&& (self.ii != Dimensions::Empty || self.ib != Dimensions::Empty || self.bi
            != Dimensions::Empty || self.bb != Dimensions::Empty)
    }

    /// `touches`: one of `FT*******`, `F**T*****`, `F***T****`.
    pub open spec fn spec_is_touches(self) -> bool {
        &&& self.ii == Dimensions::Empty
        &&& (self.ib != Dimensions::Empty || self.bi != Dimensions::Empty || self.bb
            != Dimensions::Empty)
    }

    /// `crosses` for input dimensions `dim_a` and `dim_b`: `T*T******`
    /// when A is lower-dimensional than B, its transpose when higher, and
    /// `0********` for two lines.
    pub open spec fn spec_is_crosses(self, dim_a: Dimensions, dim_b: Dimensions) -> bool {
        if dim_a.spec_rank() < dim_b.spec_rank() {
            self.ii != Dimensions::Empty && self.ie != Dimensions::Empty
        } else if dim_a.spec_rank() > dim_b.spec_rank() {
            self.ii != Dimensions::Empty && self.ei != Dimensions::Empty
        } else if dim_a == Dimensions::OneDimensional && dim_b == Dimensions::OneDimensional {
            self.ii == Dimensions::ZeroDimensional
        } else {
            false
        }
    }

    /// `overlaps` for input dimensions: `T*T***T**` for equal-dimension
    /// points or areas, `1*T***T**` for two lines.
    pub open spec fn spec_is_overlaps(self, dim_a: Dimensions, dim_b: Dimensions) -> bool {
        if dim_a == Dimensions::OneDimensional && dim_b == Dimensions::OneDimensional {
            self.ii == Dimensions::OneDimensional && self.ie != Dimensions::Empty && self.ei
                != Dimensions::Empty
        } else if dim_a == dim_b && (dim_a == Dimensions::ZeroDimensional || dim_a
            == Dimensions::TwoDimensional) {
            self.ii != Dimensions::Empty && self.ie != Dimensions::Empty && self.ei
                != Dimensions::Empty
        } else {
            false
        }
    }

    pub fn is_equal_topo(&self) -> (r: bool)
        ensures
            r == self.spec_is_equal_topo(),
    {
        !matches!(self.ii, Dimensions::Empty) && matches!(self.ie, Dimensions::Empty) && matches!(
            self.be,
            Dimensions::Empty,
        ) && matches!(self.ei, Dimensions::Empty) && matches!(self.eb, Dimensions::Empty)
    }

    pub fn is_disjoint(&self) -> (r: bool)
        ensures
            r == self.spec_is_disjoint(),
    {
        matches!(self.ii, Dimensions::Empty) && matches!(self.ib, Dimensions::Empty) && matches!(
            self.bi,
            Dimensions::Empty,
        ) && matches!(self.bb, Dimensions::Empty)
    }

    /// `intersects` is the negation of `disjoint`.
    pub fn is_intersects(&self) -> (r: bool)
        ensures
            r == !self.spec_is_disjoint(),
    {
        !self.is_disjoint()
    }

    pub fn is_contains(&self) -> (r: bool)
        ensures
            r == self.spec_is_contains(),
    {
        !matches!(self.ii, Dimensions::Empty) && matches!(self.ei, Dimensions::Empty) && matches!(
            self.eb,
            Dimensions::Empty,
        )
    }

    pub fn is_within(&self) -> (r: bool)
        ensures
            r == self.spec_is_within(),
    {
        !matches!(self.ii, Dimensions::Empty) && matches!(self.ie, Dimensions::Empty) && matches!(
            self.be,
            Dimensions::Empty,
        )
    }

    pub fn is_covers(&self) -> (r: bool)
        ensures
            r == self.spec_is_covers(),
    {
        let any_inner = !matches!(self.ii, Dimensions::Empty) || !matches!(
            self.ib,
            Dimensions::Empty,
        ) || !matches!(self.bi, Dimensions::Empty) || !matches!(self.bb, Dimensions::Empty);
        any_inner && matches!(self.ei, Dimensions::Empty) && matches!(self.eb, Dimensions::Empty)
    }

    pub fn is_touches(&self) -> (r: bool)
        ensures
            r == self.spec_is_touches(),
    {
        matches!(self.ii, Dimensions::Empty) && (!matches!(self.ib, Dimensions::Empty)
            || !matches!(self.bi, Dimensions::Empty) || !matches!(self.bb, Dimensions::Empty))
    }

    pub fn is_crosses(&self, dim_a: Dimensions, dim_b: Dimensions) -> (r: bool)
        ensures
            r == self.spec_is_crosses(dim_a, dim_b),
    {
        let rank_a = dim_a.rank();
        let rank_b = dim_b.rank();
        if rank_a < rank_b {
            !matches!(self.ii, Dimensions::Empty) && !matches!(self.ie, Dimensions::Empty)
        } else if rank_a > rank_b {
            !matches!(self.ii, Dimensions::Empty) && !matches!(self.ei, Dimensions::Empty)
        } else if matches!(dim_a, Dimensions::OneDimensional) && matches!(
            dim_b,
            Dimensions::OneDimensional,
        ) {
            matches!(self.ii, Dimensions::ZeroDimensional)
        } else {
            false
        }
    }

    pub fn is_overlaps(&self, dim_a: Dimensions, dim_b: Dimensions) -> (r: bool)
        ensures
            r == self.spec_is_overlaps(dim_a, dim_b),
    {
        if matches!(dim_a, Dimensions::OneDimensional) && matches!(
            dim_b,
            Dimensions::OneDimensional,
        ) {
            matches!(self.ii, Dimensions::OneDimensional) && !matches!(self.ie, Dimensions::Empty)
                && !matches!(self.ei, Dimensions::Empty)
        } else if dim_a.rank() == dim_b.rank() && (matches!(dim_a, Dimensions::ZeroDimensional)
            || matches!(dim_a, Dimensions::TwoDimensional)) {
            !matches!(self.ii, Dimensions::Empty) && !matches!(self.ie, Dimensions::Empty)
                && !matches!(self.ei, Dimensions::Empty)
        } else {
            false
        }
    }
}

/// Cell by cell, `after` shows at least the dimension `before` shows.
pub open spec fn spec_cellwise_geq(before: IntersectionMatrix, after: IntersectionMatrix) -> bool {
    forall|pa: CoordPos, pb: CoordPos|
        (#[trigger] after.spec_get(pa, pb)).spec_rank() >= before.spec_get(pa, pb).spec_rank()
}

/// Raising one cell never lowers any cell.
pub proof fn lemma_set_at_least_if_valid_geq(
    m: IntersectionMatrix,
    pos_a: Option<CoordPos>,
    pos_b: Option<CoordPos>,
    dimensions: Dimensions,
)
    ensures
        spec_cellwise_geq(m, m.spec_set_at_least_if_valid(pos_a, pos_b, dimensions)),
{
}

/// Cellwise raising composes.
pub proof fn lemma_cellwise_geq_trans(
    first: IntersectionMatrix,
    second: IntersectionMatrix,
    third: IntersectionMatrix,
)
    requires
        spec_cellwise_geq(first, second),
        spec_cellwise_geq(second, third),
    ensures
        spec_cellwise_geq(first, third),
{
    assert forall|pa: CoordPos, pb: CoordPos|
        (#[trigger] third.spec_get(pa, pb)).spec_rank() >= first.spec_get(pa, pb).spec_rank() by {
        assert(second.spec_get(pa, pb).spec_rank() >= first.spec_get(pa, pb).spec_rank());
    }
}

/// Containment duality: one geometry contains another exactly when,
/// read from the other side — on the transposed matrix — it is within it.
pub proof fn lemma_contains_is_within_transposed(m: IntersectionMatrix)
    ensures
        m.spec_is_contains() == m.spec_transpose().spec_is_within(),
        m.spec_is_within() == m.spec_transpose().spec_is_contains(),
{
}

/// A matrix that shows `covers` also shows `intersects`.
pub proof fn lemma_covers_implies_intersects(m: IntersectionMatrix)
    requires
        m.spec_is_covers(),
    ensures
        !m.spec_is_disjoint(),
{
}

/// Transposing a matrix exchanges cell `(i, j)` with cell `(j, i)`.
pub proof fn lemma_transpose_get(m: IntersectionMatrix, pos_a: CoordPos, pos_b: CoordPos)
    ensures
        m.spec_transpose().spec_get(pos_a, pos_b) == m.spec_get(pos_b, pos_a),
{
}

/// The symmetric predicates are unchanged by transposition.
pub proof fn lemma_transpose_symmetric_predicates(m: IntersectionMatrix)
    ensures
        m.spec_transpose().spec_is_disjoint() == m.spec_is_disjoint(),
        m.spec_transpose().spec_is_touches() == m.spec_is_touches(),
        m.spec_transpose().spec_is_equal_topo() == m.spec_is_equal_topo(),
{
}

} // verus!
