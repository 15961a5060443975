//! Dense row-major matrices over any element type, with the block-structured
//! layouts of the trajectory field: the block-diagonal Kronecker product with
//! an identity, and the projection of a block matrix onto a temporal range.
//! A trajectory matrix holds `nt` time blocks of `d` coordinates each, so that
//! row `r` belongs to time `r / d`.

use vstd::prelude::*;

verus! {

/// Why a table cannot be read as a matrix.
#[derive(Clone, Copy, Debug, PartialEq, Eq, Structural)]
pub enum ShapeError {
    /// Some row has a different length from the first row.
    RaggedRows,
}

/// A matrix stored as its rows.
pub struct Matrix<T> {
    rows: Vec<Vec<T>>,
    ncols: usize,
}

/// Every row of `rows` has `width` entries.
pub open spec fn rectangular<T>(rows: Seq<Seq<T>>, width: nat) -> bool {
    forall|i: int| 0 <= i < rows.len() ==> #[trigger] rows[i].len() == width
}

/// The views of a sequence of rows.
pub open spec fn row_views<T>(rows: Seq<Vec<T>>) -> Seq<Seq<T>> {
    rows.map_values(|r: Vec<T>| r@)
}

impl<T> View for Matrix<T> {
    type V = Seq<Seq<T>>;

    closed spec fn view(&self) -> Seq<Seq<T>> {
        row_views(self.rows@)
    }
}

impl<T> Matrix<T> {
    /// Number of columns.
    pub closed spec fn width(&self) -> nat {
        self.ncols as nat
    }

    /// Every row has `width()` entries.
    pub open spec fn wf(&self) -> bool {
        rectangular(self@, self.width())
    }

    /// Builds a matrix from its rows. The number of columns is the length of
    /// the first row (0 when there is no row); the rows are refused when one of
    /// them has another length.
    pub fn from_rows(rows: Vec<Vec<T>>) -> (res: Result<Matrix<T>, ShapeError>)
        ensures
            res is Ok <==> rectangular(
                row_views(rows@),
                if rows@.len() == 0 { 0 } else { rows@[0]@.len() },
            ),
            res matches Ok(m) ==> m.wf() && m@ == row_views(rows@) && m.width() == (if rows@.len()
                == 0 {
                0
            } else {
                rows@[0]@.len()
            }),
            res matches Err(e) ==> e == ShapeError::RaggedRows,
            res is Ok <==> (forall|i: int| 0 <= i < rows@.len() ==> #[trigger] rows@[i]@.len() == rows@[0]@.len()),
            res matches Ok(m) ==> m@.len() == rows@.len() && (forall|i: int|
                0 <= i < rows@.len() ==> #[trigger] m@[i] == rows@[i]@),
    {
        let ncols = if rows.len() == 0 {
            0
        } else {
            rows[0].len()
        };
        let mut i: usize = 0;
        while i < rows.len()
            invariant
                i <= rows@.len(),
                ncols == (if rows@.len() == 0 { 0 } else { rows@[0]@.len() }),
                forall|k: int| 0 <= k < i ==> #[trigger] rows@[k]@.len() == ncols,
            decreases rows@.len() - i,
        {
            if rows[i].len() != ncols {
                proof {
                    assert(row_views(rows@)[i as int].len() != ncols);
                }
                return Err(ShapeError::RaggedRows);
            }
            i = i + 1;
        }
        let m = Matrix { rows, ncols };
        proof {
            assert forall|k: int| 0 <= k < m@.len() implies #[trigger] m@[k].len() == m.width() by {
                assert(m.rows@[k]@.len() == ncols);
            }
        }
        Ok(m)
    }

    /// Number of rows.
    pub fn nrows(&self) -> (n: usize)
        ensures
            n == self@.len(),
    {
        self.rows.len()
    }

    /// Number of columns.
    pub fn ncols(&self) -> (n: usize)
        ensures
            n == self.width(),
    {
        self.ncols
    }

    /// The rows of the matrix.
    pub fn into_rows(self) -> (rows: Vec<Vec<T>>)
        ensures
            row_views(rows@) == self@,
    {
        self.rows
    }
}

impl<T: Copy> Matrix<T> {
    /// The entry at row `i`, column `j`.
    pub fn get(&self, i: usize, j: usize) -> (v: T)
        requires
            self.wf(),
            i < self@.len(),
            j < self.width(),
        ensures
            v == self@[i as int][j as int],
    {
        assert(self.rows@[i as int]@.len() == self@[i as int].len());
        self.rows[i][j]
    }

    /// A `nrows` by `ncols` matrix whose every entry is `value`.
    pub fn filled(nrows: usize, ncols: usize, value: T) -> (m: Matrix<T>)
        ensures
            m.wf(),
            m@.len() == nrows,
            m.width() == ncols,
            forall|i: int, j: int| 0 <= i < nrows && 0 <= j < ncols ==> #[trigger] m@[i][j] == value,
    {
        let mut rows: Vec<Vec<T>> = Vec::new();
        let mut i: usize = 0;
        while i < nrows
            invariant
                i <= nrows,
                rows@.len() == i,
                forall|k: int| 0 <= k < i ==> #[trigger] rows@[k]@.len() == ncols,
                forall|k: int, j: int| 0 <= k < i && 0 <= j < ncols ==> #[trigger] rows@[k]@[j] == value,
            decreases nrows - i,
        {
            let mut row: Vec<T> = Vec::new();
            let mut j: usize = 0;
            while j < ncols
                invariant
                    j <= ncols,
                    row@.len() == j,
                    forall|l: int| 0 <= l < j ==> #[trigger] row@[l] == value,
                decreases ncols - j,
            {
                row.push(value);
                j = j + 1;
            }
            rows.push(row);
            i = i + 1;
        }
        let m = Matrix { rows, ncols };
        proof {
            assert forall|k: int| 0 <= k < m@.len() implies #[trigger] m@[k].len() == m.width() by {
                assert(m.rows@[k]@.len() == ncols);
            }
            assert forall|k: int, j: int| 0 <= k < nrows && 0 <= j < ncols implies #[trigger] m@[k][j]
                == value by {
                assert(m.rows@[k]@[j] == value);
            }
        }
        m
    }
}

/// The entry at row `r`, column `c` of the block-diagonal matrix with
/// `block` (of `block_cols` columns) repeated along the diagonal.
pub open spec fn kron_eye_entry<T>(block: Seq<Seq<T>>, block_cols: nat, zero: T, r: int, c: int) -> T {
    if r / (block.len() as int) == c / (block_cols as int) {
        block[r % (block.len() as int)][c % (block_cols as int)]
    } else {
        zero
    }
}

/// The Kronecker product of the identity of size `nblocks` with `block` (of
/// `block_cols` columns).
pub open spec fn kron_eye_view<T>(block: Seq<Seq<T>>, block_cols: nat, nblocks: nat, zero: T) -> Seq<Seq<T>> {
    Seq::new(
        nblocks * block.len(),
        |r: int| Seq::new(nblocks * block_cols, |c: int| kron_eye_entry(block, block_cols, zero, r, c)),
    )
}

/// The Kronecker product of the identity of size `nblocks` with `block`: the
/// block repeated `nblocks` times along the diagonal, `zero` elsewhere.
pub fn kron_eye<T: Copy>(block: &Matrix<T>, nblocks: usize, zero: T) -> (out: Matrix<T>)
    requires
        block.wf(),
        nblocks * block@.len() <= usize::MAX,
        nblocks * block.width() <= usize::MAX,
    ensures
        out.wf(),
        out@.len() == nblocks * block@.len(),
        out.width() == nblocks * block.width(),
        out@ == kron_eye_view(block@, block.width(), nblocks as nat, zero),
        forall|b: int, i: int, j: int|
            0 <= b < nblocks && 0 <= i < block@.len() && 0 <= j < block.width() ==> #[trigger] out@[b
                * block@.len() + i][b * block.width() + j] == #[trigger] block@[i][j],
        forall|r: int, c: int|
            0 <= r < out@.len() && 0 <= c < out.width() && r / (block@.len() as int) != c / (
            block.width() as int) ==> #[trigger] out@[r][c] == zero,
{
    let br = block.nrows();
    let bc = block.ncols();
    let nr = nblocks * br;
    let nc = nblocks * bc;
    let mut rows: Vec<Vec<T>> = Vec::new();
    let mut r: usize = 0;
    while r < nr
        invariant
            block.wf(),
            br == block@.len(),
            bc == block.width(),
            nr == nblocks * br,
            nc == nblocks * bc,
            r <= nr,
            rows@.len() == r,
            forall|k: int| 0 <= k < r ==> #[trigger] rows@[k]@.len() == nc,
            forall|k: int, c: int|
                0 <= k < r && 0 <= c < nc ==> #[trigger] rows@[k]@[c] == kron_eye_entry(
                    block@,
                    bc as nat,
                    zero,
                    k,
                    c,
                ),
        decreases nr - r,
    {
        assert(br > 0) by (nonlinear_arith)
            requires
                r < nr,
                nr == nblocks * br,
        ;
        let b = r / br;
        let i = r % br;
        let mut row: Vec<T> = Vec::new();
        let mut c: usize = 0;
        while c < nc
            invariant
                block.wf(),
                br == block@.len(),
                bc == block.width(),
                br > 0,
                nc == nblocks * bc,
                b == r / br,
                i == r % br,
                i < br,
                c <= nc,
                row@.len() == c,
                forall|l: int|
                    0 <= l < c ==> #[trigger] row@[l] == kron_eye_entry(block@, bc as nat, zero, r as int, l),
            decreases nc - c,
        {
            assert(bc > 0) by (nonlinear_arith)
                requires
                    c < nc,
                    nc == nblocks * bc,
            ;
            if c / bc == b {
                let v = block.get(i, c % bc);
                row.push(v);
            } else {
                row.push(zero);
            }
            c = c + 1;
        }
        rows.push(row);
        r = r + 1;
    }
    let out = Matrix { rows, ncols: nc };
    proof {
        assert forall|k: int| 0 <= k < out@.len() implies #[trigger] out@[k].len() == out.width() by {
            assert(out.rows@[k]@.len() == nc);
        }
        let kv = kron_eye_view(block@, block.width(), nblocks as nat, zero);
        assert forall|k: int| 0 <= k < out@.len() implies #[trigger] out@[k] =~= kv[k] by {
            assert forall|c: int| 0 <= c < nc implies out@[k][c] == kv[k][c] by {
                assert(out.rows@[k]@[c] == kron_eye_entry(block@, bc as nat, zero, k, c));
            }
        }
        assert(out@ =~= kv);
        assert forall|b: int, i: int, j: int|
            0 <= b < nblocks && 0 <= i < block@.len() && 0 <= j < block.width() implies #[trigger] out@[b
                * block@.len() + i][b * block.width() + j] == #[trigger] block@[i][j] by {
            lemma_kron_eye_diagonal_blocks(block@, block.width(), nblocks as nat, zero, b, i, j);
        }
    }
    out
}

/// The Kronecker product with the identity holds `block` itself, untransposed,
/// in every diagonal block: entry `(i, j)` of the block sits at row
/// `b * rows + i` and column `b * cols + j` of the `b`-th diagonal block.
pub proof fn lemma_kron_eye_diagonal_blocks<T>(
    block: Seq<Seq<T>>,
    block_cols: nat,
    nblocks: nat,
    zero: T,
    b: int,
    i: int,
    j: int,
)
    requires
        0 <= b < nblocks,
        0 <= i < block.len(),
        0 <= j < block_cols,
    ensures
        b * block.len() + i < nblocks * block.len(),
        b * block_cols + j < nblocks * block_cols,
        kron_eye_view(block, block_cols, nblocks, zero)[b * block.len() + i][b * block_cols + j] == block[i][j],
{
    let br = block.len() as int;
    let bc = block_cols as int;
    vstd::arithmetic::div_mod::lemma_fundamental_div_mod_converse(b * br + i, br, b, i);
    vstd::arithmetic::div_mod::lemma_fundamental_div_mod_converse(b * bc + j, bc, b, j);
    assert(b * br + i < nblocks * br) by (nonlinear_arith)
        requires
            0 <= b < nblocks,
            0 <= i < br,
    ;
    assert(b * bc + j < nblocks * bc) by (nonlinear_arith)
        requires
            0 <= b < nblocks,
            0 <= j < bc,
    ;
}

/// Outside the diagonal blocks the Kronecker product with the identity is
/// `zero`.
pub proof fn lemma_kron_eye_off_diagonal_zero<T>(
    block: Seq<Seq<T>>,
    block_cols: nat,
    nblocks: nat,
    zero: T,
    r: int,
    c: int,
)
    requires
        0 <= r < nblocks * block.len(),
        0 <= c < nblocks * block_cols,
        r / (block.len() as int) != c / (block_cols as int),
    ensures
        kron_eye_view(block, block_cols, nblocks, zero)[r][c] == zero,
{
}

/// Row `r` and column `c` both lie in the `nt * d` trajectory part of a matrix
/// and their time blocks are at most `range` apart.
pub open spec fn within_block_range(d: nat, nt: nat, range: nat, r: int, c: int) -> bool {
    &&& r < nt * d
    &&& c < nt * d
    &&& r / (d as int) - c / (d as int) <= range
    &&& c / (d as int) - r / (d as int) <= range
}

/// The matrix `m` (of `width` columns) with every entry outside the temporal
/// range `range` replaced by `zero`.
pub open spec fn block_range_projection<T>(
    m: Seq<Seq<T>>,
    width: nat,
    d: nat,
    nt: nat,
    range: nat,
    zero: T,
) -> Seq<Seq<T>> {
    Seq::new(
        m.len(),
        |r: int|
            Seq::new(
                width,
                |c: int|
                    if within_block_range(d, nt, range, r, c) {
                        m[r][c]
                    } else {
                        zero
                    },
            ),
    )
}

/// Keeps the blocks of `m` whose time indices are at most `range` apart and
/// sets every other entry to `zero`; the matrix holds `nt` time blocks of `d`
/// coordinates. Rows and columns beyond `nt * d` are set to `zero` too.
pub fn project_block_range<T: Copy>(m: &Matrix<T>, d: usize, nt: usize, range: usize, zero: T) -> (out:
    Matrix<T>)
    requires
        m.wf(),
        nt * d <= m@.len(),
        nt * d <= m.width(),
        nt == 0 || nt - 1 + range <= usize::MAX,
    ensures
        out.wf(),
        out.width() == m.width(),
        out@ == block_range_projection(m@, m.width(), d as nat, nt as nat, range as nat, zero),
        out@.len() == m@.len(),
        forall|r: int, c: int|
            #![trigger out@[r][c]]
            0 <= r < m@.len() && 0 <= c < m.width() ==> out@[r][c] == (if r < nt * d && c < nt * d && r / (
            d as int) - c / (d as int) <= range && c / (d as int) - r / (d as int) <= range {
                m@[r][c]
            } else {
                zero
            }),
{
    let nr = m.nrows();
    let nc = m.ncols();
    let n = nt * d;
    let ghost spec_out = block_range_projection(m@, m.width(), d as nat, nt as nat, range as nat, zero);
    let mut rows: Vec<Vec<T>> = Vec::new();
    let mut r: usize = 0;
    while r < nr
        invariant
            m.wf(),
            nr == m@.len(),
            nc == m.width(),
            n == nt * d,
            n <= nr,
            n <= nc,
            spec_out == block_range_projection(m@, m.width(), d as nat, nt as nat, range as nat, zero),
            r <= nr,
            rows@.len() == r,
            forall|k: int| 0 <= k < r ==> #[trigger] rows@[k]@ == spec_out[k],
        decreases nr - r,
    {
        let mut row: Vec<T> = Vec::new();
        let mut c: usize = 0;
        while c < nc
            invariant
                m.wf(),
                nr == m@.len(),
                nc == m.width(),
                n == nt * d,
                n <= nr,
                n <= nc,
                r < nr,
                c <= nc,
                row@.len() == c,
                forall|l: int|
                    0 <= l < c ==> #[trigger] row@[l] == (if within_block_range(
                        d as nat,
                        nt as nat,
                        range as nat,
                        r as int,
                        l,
                    ) {
                        m@[r as int][l]
                    } else {
                        zero
                    }),
            decreases nc - c,
        {
            let keep = if r < n && c < n {
                assert(d > 0) by (nonlinear_arith)
                    requires
                        r < n,
                        n == nt * d,
                ;
                let t = r / d;
                let s = c / d;
                if t >= s {
                    t - s <= range
                } else {
                    s - t <= range
                }
            } else {
                false
            };
            if keep {
                row.push(m.get(r, c));
            } else {
                row.push(zero);
            }
            c = c + 1;
        }
        proof {
            assert(row@ =~= spec_out[r as int]);
        }
        rows.push(row);
        r = r + 1;
    }
    let out = Matrix { rows, ncols: nc };
    proof {
        assert(out@ =~= spec_out);
    }
    out
}

/// A block-diagonal matrix built from a square `d` by `d` block lies within
/// temporal range 0: projecting it onto range 0 changes nothing.
pub proof fn lemma_kron_eye_within_range_zero<T>(block: Seq<Seq<T>>, nt: nat, zero: T)
    requires
        block.len() > 0,
        rectangular(block, block.len()),
    ensures
        block_range_projection(
            kron_eye_view(block, block.len(), nt, zero),
            nt * block.len(),
            block.len(),
            nt,
            0,
            zero,
        ) == kron_eye_view(block, block.len(), nt, zero),
{
    let d = block.len();
    let k = kron_eye_view(block, d, nt, zero);
    let p = block_range_projection(k, nt * d, d, nt, 0, zero);
    assert forall|r: int| 0 <= r < k.len() implies #[trigger] p[r] =~= k[r] by {
        assert(nt * d == d * nt) by (nonlinear_arith);
    }
    assert(p =~= k);
}

/// Projecting twice onto the same temporal range changes nothing more.
pub proof fn lemma_projection_idempotent<T>(m: Seq<Seq<T>>, width: nat, d: nat, nt: nat, range: nat, zero: T)
    requires
        rectangular(m, width),
    ensures
        block_range_projection(block_range_projection(m, width, d, nt, range, zero), width, d, nt, range, zero)
            == block_range_projection(m, width, d, nt, range, zero),
{
    lemma_projection_composes(m, width, d, nt, range, range, zero);
}

/// Projecting onto range `r1` and then onto range `r2` is projecting onto the
/// smaller of the two ranges.
pub proof fn lemma_projection_composes<T>(
    m: Seq<Seq<T>>,
    width: nat,
    d: nat,
    nt: nat,
    r1: nat,
    r2: nat,
    zero: T,
)
    requires
        rectangular(m, width),
    ensures
        block_range_projection(block_range_projection(m, width, d, nt, r1, zero), width, d, nt, r2, zero)
            == block_range_projection(m, width, d, nt, if r1 <= r2 { r1 } else { r2 }, zero),
{
    let p1 = block_range_projection(m, width, d, nt, r1, zero);
    let lhs = block_range_projection(p1, width, d, nt, r2, zero);
    let rhs = block_range_projection(m, width, d, nt, if r1 <= r2 { r1 } else { r2 }, zero);
    assert forall|r: int| 0 <= r < m.len() implies #[trigger] lhs[r] =~= rhs[r] by {
        assert(p1[r].len() == width);
    }
    assert(lhs =~= rhs);
}

/// A range that spans the whole horizon keeps a square trajectory matrix
/// unchanged.
pub proof fn lemma_full_range_keeps_matrix<T>(m: Seq<Seq<T>>, d: nat, nt: nat, range: nat, zero: T)
    requires
        m.len() == nt * d,
        rectangular(m, nt * d),
        range + 1 >= nt,
    ensures
        block_range_projection(m, nt * d, d, nt, range, zero) == m,
{
    let p = block_range_projection(m, nt * d, d, nt, range, zero);
    assert forall|r: int| 0 <= r < m.len() implies #[trigger] p[r] =~= m[r] by {
        assert forall|c: int| 0 <= c < nt * d implies within_block_range(d, nt, range, r, c) by {
            assert(d > 0) by (nonlinear_arith)
                requires
                    0 <= r < nt * d,
            ;
            lemma_block_index_below(r, d, nt);
            lemma_block_index_below(c, d, nt);
        }
    }
    assert(p =~= m);
}

proof fn lemma_block_index_below(r: int, d: nat, nt: nat)
    requires
        0 <= r < nt * d,
        d > 0,
    ensures
        0 <= r / (d as int) < nt,
{
    vstd::arithmetic::div_mod::lemma_div_pos_is_pos(r, d as int);
    vstd::arithmetic::div_mod::lemma_fundamental_div_mod(r, d as int);
    vstd::arithmetic::div_mod::lemma_mod_pos_bound(r, d as int);
    let q = r / (d as int);
    if q >= nt {
        assert((d as int) * q >= nt * d) by (nonlinear_arith)
            requires
                q >= nt,
                d > 0,
        ;
    }
}

/// The projection of a symmetric matrix is symmetric.
pub proof fn lemma_projection_keeps_symmetry<T>(m: Seq<Seq<T>>, d: nat, nt: nat, range: nat, zero: T)
    requires
        rectangular(m, m.len()),
        forall|i: int, j: int| 0 <= i < m.len() && 0 <= j < m.len() ==> #[trigger] m[i][j] == m[j][i],
    ensures
        forall|i: int, j: int|
            0 <= i < m.len() && 0 <= j < m.len() ==> #[trigger] block_range_projection(
                m,
                m.len(),
                d,
                nt,
                range,
                zero,
            )[i][j] == block_range_projection(m, m.len(), d, nt, range, zero)[j][i],
{
}

} // verus!
