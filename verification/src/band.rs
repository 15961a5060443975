//! Layout of the random banded SPD matrices of the timing experiment. The
//! matrix holds `nt` time blocks of `d` coordinates and couples time blocks at
//! most `range` apart; its strictly lower entries are drawn in a fixed order:
//! first the within-block entries of every time block, then, lag by lag, the
//! blocks at that lag. Storing entry `(i, j)` at `(i - j, j)` keeps it within
//! `(range + 1) * d` band rows.

use vstd::prelude::*;

verus! {

/// Entry `(i, j)` lies strictly below the diagonal of an `nt * d` trajectory
/// matrix, and the time blocks of `i` and `j` are at most `range` apart.
pub open spec fn in_lower_band(d: int, nt: int, range: int, i: int, j: int) -> bool {
    &&& 0 <= j < i < nt * d
    &&& i / d - j / d <= range
}

/// The drawing key of entry `(i, j)`: block lag, column block, row offset,
/// column offset.
pub open spec fn fill_key(d: int, i: int, j: int) -> (int, int, int, int) {
    (i / d - j / d, j / d, i % d, j % d)
}

/// Lexicographic order of drawing keys.
pub open spec fn key_lt(x: (int, int, int, int), y: (int, int, int, int)) -> bool {
    ||| x.0 < y.0
    ||| x.0 == y.0 && x.1 < y.1
    ||| x.0 == y.0 && x.1 == y.1 && x.2 < y.2
    ||| x.0 == y.0 && x.1 == y.1 && x.2 == y.2 && x.3 < y.3
}

/// The key `(l, t, a, b)` names a strictly lower entry of the band.
pub open spec fn valid_key(d: int, nt: int, range: int, l: int, t: int, a: int, b: int) -> bool {
    &&& 0 <= l <= range
    &&& 0 <= t
    &&& t + l < nt
    &&& 0 <= a < d
    &&& 0 <= b < d
    &&& (l > 0 || b < a)
}

/// Number of band rows needed to store the lower half of a matrix that couples
/// time blocks at most `range` apart: `(range + 1) * d - 1` below the
/// diagonal, plus the diagonal.
pub fn band_width(d: usize, range: usize) -> (bw: usize)
    requires
        d > 0,
        range < usize::MAX,
        (range + 1) * d <= usize::MAX,
    ensures
        bw == (range + 1) * d - 1,
{
    assert((range + 1) * d >= 1) by (nonlinear_arith)
        requires
            d > 0,
    ;
    (range + 1) * d - 1
}

spec fn fill_invariant(p: Seq<(usize, usize)>, d: int, nt: int, range: int, k: (int, int, int, int)) -> bool {
    &&& forall|m: int|
        0 <= m < p.len() ==> in_lower_band(d, nt, range, #[trigger] p[m].0 as int, p[m].1 as int)
            && p[m].0 - p[m].1 <= (range + 1) * d - 1
    &&& forall|m: int| 0 <= m < p.len() ==> key_lt(fill_key(d, #[trigger] p[m].0 as int, p[m].1 as int), k)
    &&& forall|m1: int, m2: int|
        0 <= m1 < m2 < p.len() ==> key_lt(
            fill_key(d, #[trigger] p[m1].0 as int, p[m1].1 as int),
            fill_key(d, #[trigger] p[m2].0 as int, p[m2].1 as int),
        )
    &&& forall|l: int, t: int, a: int, b: int|
        #![trigger valid_key(d, nt, range, l, t, a, b)]
        valid_key(d, nt, range, l, t, a, b) && key_lt((l, t, a, b), k) ==> exists|m: int|
            0 <= m < p.len() && p[m].0 == (t + l) * d + a && p[m].1 == t * d + b
}

proof fn lemma_key_of_position(d: int, l: int, t: int, a: int, b: int)
    requires
        d > 0,
        l >= 0,
        t >= 0,
        0 <= a < d,
        0 <= b < d,
    ensures
        fill_key(d, (t + l) * d + a, t * d + b) == (l, t, a, b),
{
    vstd::arithmetic::div_mod::lemma_fundamental_div_mod_converse((t + l) * d + a, d, t + l, a);
    vstd::arithmetic::div_mod::lemma_fundamental_div_mod_converse(t * d + b, d, t, b);
}

proof fn lemma_valid_key_in_band(d: int, nt: int, range: int, l: int, t: int, a: int, b: int)
    requires
        d > 0,
        valid_key(d, nt, range, l, t, a, b),
    ensures
        in_lower_band(d, nt, range, (t + l) * d + a, t * d + b),
        ((t + l) * d + a) - (t * d + b) <= (range + 1) * d - 1,
        (t + l) * d + a < nt * d,
{
    lemma_key_of_position(d, l, t, a, b);
    assert((t + l) * d + a < nt * d) by (nonlinear_arith)
        requires
            t + l < nt,
            0 <= a < d,
    ;
    assert(t * d + b >= 0) by (nonlinear_arith)
        requires
            t >= 0,
            b >= 0,
            d > 0,
    ;
    assert((t + l) * d + a > t * d + b) by (nonlinear_arith)
        requires
            l >= 0,
            0 <= a < d,
            0 <= b < d,
            l > 0 || b < a,
    ;
    assert(((t + l) * d + a) - (t * d + b) <= (range + 1) * d - 1) by (nonlinear_arith)
        requires
            0 <= l <= range,
            0 <= a < d,
            0 <= b < d,
    ;
}

proof fn lemma_band_entry_has_valid_key(d: int, nt: int, range: int, i: int, j: int)
    requires
        d > 0,
        in_lower_band(d, nt, range, i, j),
    ensures
        valid_key(d, nt, range, fill_key(d, i, j).0, fill_key(d, i, j).1, fill_key(d, i, j).2, fill_key(d, i, j).3),
        i == (fill_key(d, i, j).1 + fill_key(d, i, j).0) * d + fill_key(d, i, j).2,
        j == fill_key(d, i, j).1 * d + fill_key(d, i, j).3,
{
    vstd::arithmetic::div_mod::lemma_fundamental_div_mod(i, d);
    vstd::arithmetic::div_mod::lemma_fundamental_div_mod(j, d);
    vstd::arithmetic::div_mod::lemma_mod_pos_bound(i, d);
    vstd::arithmetic::div_mod::lemma_mod_pos_bound(j, d);
    vstd::arithmetic::div_mod::lemma_div_pos_is_pos(j, d);
    vstd::arithmetic::div_mod::lemma_div_is_ordered(j, i, d);
    let s = i / d;
    let t = j / d;
    let a = i % d;
    let b = j % d;
    assert(i == s * d + a) by (nonlinear_arith)
        requires
            i == d * s + a,
    ;
    assert(j == t * d + b) by (nonlinear_arith)
        requires
            j == d * t + b,
    ;
    assert(s < nt) by (nonlinear_arith)
        requires
            i == s * d + a,
            a >= 0,
            i < nt * d,
            d > 0,
    ;
    if s == t {
        assert(b < a);
    }
}

proof fn lemma_fill_push(p: Seq<(usize, usize)>, d: int, nt: int, range: int, l: int, t: int, a: int, b: int)
    requires
        d > 0,
        fill_invariant(p, d, nt, range, (l, t, a, b)),
        valid_key(d, nt, range, l, t, a, b),
        (t + l) * d + a <= usize::MAX,
        t * d + b <= usize::MAX,
    ensures
        fill_invariant(
            p.push((((t + l) * d + a) as usize, (t * d + b) as usize)),
            d,
            nt,
            range,
            (l, t, a, b + 1),
        ),
{
    lemma_valid_key_in_band(d, nt, range, l, t, a, b);
    lemma_key_of_position(d, l, t, a, b);
    let q = p.push((((t + l) * d + a) as usize, (t * d + b) as usize));
    assert(q[p.len() as int].0 == (t + l) * d + a);
    assert(q[p.len() as int].1 == t * d + b);
    assert forall|m: int| 0 <= m < q.len() implies in_lower_band(d, nt, range, #[trigger] q[m].0 as int, q[m].1 as int)
        && q[m].0 - q[m].1 <= (range + 1) * d - 1 by {
        if m < p.len() {
            assert(q[m] == p[m]);
        }
    }
    assert forall|m: int| 0 <= m < q.len() implies key_lt(fill_key(d, #[trigger] q[m].0 as int, q[m].1 as int), (l, t, a, b + 1)) by {
        if m < p.len() {
            assert(q[m] == p[m]);
        }
    }
    assert forall|m1: int, m2: int| 0 <= m1 < m2 < q.len() implies key_lt(
        fill_key(d, #[trigger] q[m1].0 as int, q[m1].1 as int),
        fill_key(d, #[trigger] q[m2].0 as int, q[m2].1 as int),
    ) by {
        assert(q[m1] == p[m1]);
        if m2 < p.len() {
            assert(q[m2] == p[m2]);
        }
    }
    assert forall|l2: int, t2: int, a2: int, b2: int|
        #![trigger valid_key(d, nt, range, l2, t2, a2, b2)]
        valid_key(d, nt, range, l2, t2, a2, b2) && key_lt((l2, t2, a2, b2), (l, t, a, b + 1)) implies exists|m: int|
            0 <= m < q.len() && q[m].0 == (t2 + l2) * d + a2 && q[m].1 == t2 * d + b2 by {
        if key_lt((l2, t2, a2, b2), (l, t, a, b)) {
            let m = choose|m: int| 0 <= m < p.len() && p[m].0 == (t2 + l2) * d + a2 && p[m].1 == t2 * d + b2;
            assert(q[m] == p[m]);
        } else {
            assert(l2 == l && t2 == t && a2 == a && b2 == b);
            assert(q[p.len() as int].0 == (t2 + l2) * d + a2);
        }
    }
}

proof fn lemma_fill_skip(
    p: Seq<(usize, usize)>,
    d: int,
    nt: int,
    range: int,
    k: (int, int, int, int),
    k2: (int, int, int, int),
)
    requires
        fill_invariant(p, d, nt, range, k),
        k == k2 || key_lt(k, k2),
        forall|l: int, t: int, a: int, b: int|
            #![trigger valid_key(d, nt, range, l, t, a, b)]
            valid_key(d, nt, range, l, t, a, b) && key_lt((l, t, a, b), k2) ==> key_lt((l, t, a, b), k),
    ensures
        fill_invariant(p, d, nt, range, k2),
{
}

/// The strictly lower entries of the band, in drawing order: for every time
/// block, its within-block entries row by row; then for every lag from 1 to
/// `range` and every column block, the entries of the block at that lag, row
/// by row. Every entry of the band appears, in increasing drawing key, and fits
/// in the `band_width(d, range) + 1` band rows of band storage.
pub fn lower_band_fill_order(horizon: usize, d: usize, range: usize) -> (positions: Vec<(usize, usize)>)
    requires
        d > 0,
        horizon < usize::MAX,
        range <= horizon + 1,
        range < usize::MAX,
        (horizon + 1) * d <= usize::MAX,
        (range + 1) * d <= usize::MAX,
    ensures
        forall|k: int|
            0 <= k < positions@.len() ==> in_lower_band(
                d as int,
                horizon + 1,
                range as int,
                #[trigger] positions@[k].0 as int,
                positions@[k].1 as int,
            ),
        forall|k: int|
            0 <= k < positions@.len() ==> #[trigger] positions@[k].0 - positions@[k].1 <= (range + 1) * d - 1,
        forall|i: usize, j: usize|
            in_lower_band(d as int, horizon + 1, range as int, i as int, j as int) ==> #[trigger] positions@.contains(
                (i, j),
            ),
        forall|k1: int, k2: int|
            0 <= k1 < k2 < positions@.len() ==> key_lt(
                fill_key(d as int, #[trigger] positions@[k1].0 as int, positions@[k1].1 as int),
                fill_key(d as int, #[trigger] positions@[k2].0 as int, positions@[k2].1 as int),
            ),
        forall|k: int|
            #![trigger positions@[k]]
            0 <= k < positions@.len() ==> positions@[k].1 < positions@[k].0 && positions@[k].0 < (horizon + 1)
                * d && positions@[k].0 / d - positions@[k].1 / d <= range,
        forall|i: usize, j: usize|
            #![trigger positions@.contains((i, j))]
            j < i && i < (horizon + 1) * d && i / d - j / d <= range ==> positions@.contains((i, j)),
        forall|k1: int, k2: int|
            #![trigger positions@[k1], positions@[k2]]
            0 <= k1 < k2 < positions@.len() ==> {
                let (i1, j1) = positions@[k1];
                let (i2, j2) = positions@[k2];
                ||| i1 / d - j1 / d < i2 / d - j2 / d
                ||| i1 / d - j1 / d == i2 / d - j2 / d && j1 / d < j2 / d
                ||| i1 / d - j1 / d == i2 / d - j2 / d && j1 / d == j2 / d && i1 % d < i2 % d
                ||| i1 / d - j1 / d == i2 / d - j2 / d && j1 / d == j2 / d && i1 % d == i2 % d && j1 % d < j2 % d
            },
{
    let nt = horizon + 1;
    let ghost di = d as int;
    let ghost nti = nt as int;
    let ghost ri = range as int;
    let mut positions: Vec<(usize, usize)> = Vec::new();
    let mut tt: usize = 0;
    while tt < nt
        invariant
            d > 0,
            nt == horizon + 1,
            range <= nt,
            nt * d <= usize::MAX,
            di == d,
            nti == nt,
            ri == range,
            tt <= nt,
            fill_invariant(positions@, di, nti, ri, (0, tt as int, 0, 0)),
        decreases nt - tt,
    {
        let mut i0: usize = 0;
        while i0 < d
            invariant
                d > 0,
                nt == horizon + 1,
                range <= nt,
                nt * d <= usize::MAX,
                di == d,
                nti == nt,
                ri == range,
                tt < nt,
                i0 <= d,
                fill_invariant(positions@, di, nti, ri, (0, tt as int, i0 as int, 0)),
            decreases d - i0,
        {
            let mut j0: usize = 0;
            while j0 < i0
                invariant
                    d > 0,
                    nt == horizon + 1,
                    range <= nt,
                    nt * d <= usize::MAX,
                    di == d,
                    nti == nt,
                    ri == range,
                    tt < nt,
                    i0 < d,
                    j0 <= i0,
                    fill_invariant(positions@, di, nti, ri, (0, tt as int, i0 as int, j0 as int)),
                decreases i0 - j0,
            {
                proof {
                    lemma_valid_key_in_band(di, nti, ri, 0, tt as int, i0 as int, j0 as int);
                    lemma_fill_push(positions@, di, nti, ri, 0, tt as int, i0 as int, j0 as int);
                }
                let i = tt * d + i0;
                let j = tt * d + j0;
                positions.push((i, j));
                j0 = j0 + 1;
            }
            proof {
                lemma_fill_skip(positions@, di, nti, ri, (0, tt as int, i0 as int, j0 as int), (0, tt as int, i0 + 1, 0));
            }
            i0 = i0 + 1;
        }
        proof {
            lemma_fill_skip(positions@, di, nti, ri, (0, tt as int, d as int, 0), (0, tt + 1, 0, 0));
        }
        tt = tt + 1;
    }
    proof {
        lemma_fill_skip(positions@, di, nti, ri, (0, nt as int, 0, 0), (1, 0, 0, 0));
    }
    let mut lag: usize = 1;
    while lag <= range
        invariant
            d > 0,
            nt == horizon + 1,
            range <= nt,
            nt * d <= usize::MAX,
            di == d,
            nti == nt,
            ri == range,
            1 <= lag <= range + 1,
            range < usize::MAX,
            fill_invariant(positions@, di, nti, ri, (lag as int, 0, 0, 0)),
        decreases range + 1 - lag,
    {
        let mut tt: usize = 0;
        while tt < nt - lag
            invariant
                d > 0,
                nt == horizon + 1,
                range <= nt,
                nt * d <= usize::MAX,
                di == d,
                nti == nt,
                ri == range,
                1 <= lag <= range,
                tt <= nt - lag,
                fill_invariant(positions@, di, nti, ri, (lag as int, tt as int, 0, 0)),
            decreases nt - lag - tt,
        {
            let mut i0: usize = 0;
            while i0 < d
                invariant
                    d > 0,
                    nt == horizon + 1,
                    range <= nt,
                    nt * d <= usize::MAX,
                    di == d,
                    nti == nt,
                    ri == range,
                    1 <= lag <= range,
                    tt < nt - lag,
                    i0 <= d,
                    fill_invariant(positions@, di, nti, ri, (lag as int, tt as int, i0 as int, 0)),
                decreases d - i0,
            {
                let mut j0: usize = 0;
                while j0 < d
                    invariant
                        d > 0,
                        nt == horizon + 1,
                        range <= nt,
                        nt * d <= usize::MAX,
                        di == d,
                        nti == nt,
                        ri == range,
                        1 <= lag <= range,
                        tt < nt - lag,
                        i0 < d,
                        j0 <= d,
                        fill_invariant(positions@, di, nti, ri, (lag as int, tt as int, i0 as int, j0 as int)),
                    decreases d - j0,
                {
                    proof {
                        lemma_valid_key_in_band(di, nti, ri, lag as int, tt as int, i0 as int, j0 as int);
                        lemma_fill_push(positions@, di, nti, ri, lag as int, tt as int, i0 as int, j0 as int);
                    }
                    let i = (tt + lag) * d + i0;
                    let j = tt * d + j0;
                    positions.push((i, j));
                    j0 = j0 + 1;
                }
                proof {
                    lemma_fill_skip(
                        positions@,
                        di,
                        nti,
                        ri,
                        (lag as int, tt as int, i0 as int, d as int),
                        (lag as int, tt as int, i0 + 1, 0),
                    );
                }
                i0 = i0 + 1;
            }
            proof {
                lemma_fill_skip(positions@, di, nti, ri, (lag as int, tt as int, d as int, 0), (lag as int, tt + 1, 0, 0));
            }
            tt = tt + 1;
        }
        proof {
            lemma_fill_skip(positions@, di, nti, ri, (lag as int, (nt - lag) as int, 0, 0), (lag + 1, 0, 0, 0));
        }
        lag = lag + 1;
    }
    proof {
        assert forall|i: usize, j: usize|
            in_lower_band(d as int, horizon + 1, range as int, i as int, j as int) implies #[trigger] positions@.contains(
                (i, j),
            ) by {
            lemma_band_entry_has_valid_key(di, nti, ri, i as int, j as int);
            let key = fill_key(di, i as int, j as int);
            assert(valid_key(di, nti, ri, key.0, key.1, key.2, key.3));
            let m = choose|m: int|
                0 <= m < positions@.len() && positions@[m].0 == (key.1 + key.0) * di + key.2
                    && positions@[m].1 == key.1 * di + key.3;
            assert(positions@[m] == (i, j));
        }
        assert forall|i: usize, j: usize|
            j < i && i < (horizon + 1) * d && i / d - j / d <= range implies #[trigger] positions@.contains((i, j)) by {
            assert(in_lower_band(d as int, horizon + 1, range as int, i as int, j as int));
        }
        assert forall|k: int|
            #![trigger positions@[k]]
            0 <= k < positions@.len() implies positions@[k].1 < positions@[k].0 && positions@[k].0 < (horizon + 1)
                * d && positions@[k].0 / d - positions@[k].1 / d <= range by {
            assert(in_lower_band(d as int, horizon + 1, range as int, positions@[k].0 as int, positions@[k].1 as int));
        }
        assert forall|k1: int, k2: int|
            #![trigger positions@[k1], positions@[k2]]
            0 <= k1 < k2 < positions@.len() implies {
                let (i1, j1) = positions@[k1];
                let (i2, j2) = positions@[k2];
                ||| i1 / d - j1 / d < i2 / d - j2 / d
                ||| i1 / d - j1 / d == i2 / d - j2 / d && j1 / d < j2 / d
                ||| i1 / d - j1 / d == i2 / d - j2 / d && j1 / d == j2 / d && i1 % d < i2 % d
                ||| i1 / d - j1 / d == i2 / d - j2 / d && j1 / d == j2 / d && i1 % d == i2 % d && j1 % d < j2 % d
            } by {
            assert(key_lt(
                fill_key(d as int, positions@[k1].0 as int, positions@[k1].1 as int),
                fill_key(d as int, positions@[k2].0 as int, positions@[k2].1 as int),
            ));
        }
    }
    positions
}


/// The band holds exactly the strictly lower entries whose time blocks are at
/// most `range` apart, the outermost lag `range` included.
pub proof fn lemma_lower_band_membership(d: int, nt: int, range: int, i: int, j: int)
    ensures
        in_lower_band(d, nt, range, i, j) <==> (0 <= j && j < i && i < nt * d && i / d - j / d <= range),
{
}

/// Every key of the band, of any lag from 0 to `range`, names an entry inside
/// the band.
pub proof fn lemma_every_lag_is_in_band(d: int, nt: int, range: int, l: int, t: int, a: int, b: int)
    requires
        d > 0,
        0 <= l <= range,
        0 <= t,
        t + l < nt,
        0 <= a < d,
        0 <= b < d,
        l > 0 || b < a,
    ensures
        valid_key(d, nt, range, l, t, a, b),
        0 <= t * d + b < (t + l) * d + a < nt * d,
        ((t + l) * d + a) / d - (t * d + b) / d == l,
{
    lemma_valid_key_in_band(d, nt, range, l, t, a, b);
    lemma_key_of_position(d, l, t, a, b);
}

} // verus!
