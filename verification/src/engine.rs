//! The adaptive engines.
//!
//! An integration session is a dialogue between a driver, which owns the
//! floating-point arithmetic (rule evaluation, sums, norms, products), and
//! an [`EngineState`], which owns every decision. All numbers cross the
//! boundary as IEEE-754 bit patterns. The protocol:
//!
//! 1. `begin` on a configuration validates the tolerances and builds the
//!    initial partition from the breakpoints.
//! 2. The driver evaluates the rule on each piece and hands the evaluations
//!    with the summed accumulators to `seed`.
//! 3. `assess_seed` decides between immediate success, `MaxIteration`,
//!    `BadTolerance` and refinement.
//! 4. Per round the driver pops worst-error intervals (`pop_next`,
//!    `batch_should_stop`, and in the guarded engines `guard_violation`),
//!    bisects and evaluates them, and hands the halves with the updated
//!    sums to `apply_batch`, which pushes them and decides how to go on.
//! 5. On convergence `finish` assembles the success payload.
//!
//! Each decision is specified exactly over the bits the driver supplied;
//! what the driver must put into each field is stated at that field.

use vstd::prelude::*;
use crate::dbits::{
    dabs, dis_finite, dis_nan, dle, dlt, dmax, ieee_eq, ieee_le, ieee_lt, ieee_max, is_finite_bits,
    is_nan_bits, mag_of, val_key, EPSREL_FLOOR, NEG_INF, PLUS_ZERO, POS_INF,
};
use crate::result::{QagVecIntegrationResult, ResultState};
use crate::rules::{clamp_key, clamped_key, neval_for, neval_of, LIMIT_MAX};
use crate::store::{IntervalStore, Popped, SEntry};

verus! {

/// Bit pattern of `1.0`, the upper bound of a transformed semi-infinite or
/// doubly-infinite domain.
pub const ONE_BITS: u64 = 0x3FF0_0000_0000_0000;

/// Bit pattern of `-1.0`, the lower bound of a transformed doubly-infinite
/// domain.
pub const NEG_ONE_BITS: u64 = 0xBFF0_0000_0000_0000;

/// Most intervals one refinement round may pop.
pub const BATCH_LIMIT: usize = 128;

/// The shape of the integration domain, read off the endpoint bit
/// patterns. It decides which substitution the driver must apply before
/// the engine runs on the finite image.
#[derive(Clone, Copy, Debug, PartialEq, Eq, Structural)]
pub enum DomainKind {
    /// Integrate as given.
    Finite,
    /// `a` finite, `b = +inf`: map onto `(0, 1)`.
    UpperInfinite,
    /// `a = -inf`, `b` finite: map onto `(0, 1)`.
    LowerInfinite,
    /// `a = -inf`, `b = +inf`: map onto `(-1, 1)`.
    DoubleInfinite,
}

/// Which transformation, if any, the interval `(a, b)` needs.
pub fn classify_domain(a: u64, b: u64) -> (k: DomainKind)
    ensures
        k == (if b == POS_INF && is_finite_bits(a) {
            DomainKind::UpperInfinite
        } else if a == NEG_INF && is_finite_bits(b) {
            DomainKind::LowerInfinite
        } else if a == NEG_INF && b == POS_INF {
            DomainKind::DoubleInfinite
        } else {
            DomainKind::Finite
        }),
{
    if b == POS_INF && dis_finite(a) {
        DomainKind::UpperInfinite
    } else if a == NEG_INF && dis_finite(b) {
        DomainKind::LowerInfinite
    } else if a == NEG_INF && b == POS_INF {
        DomainKind::DoubleInfinite
    } else {
        DomainKind::Finite
    }
}

/// The tolerance pair is admissible: not both `epsabs <= 0` and `epsrel`
/// under the floor `max(50 * epsilon, 0.5e-28)`.
pub open spec fn valid_tolerances(epsabs: u64, epsrel: u64) -> bool {
    !(ieee_le(epsabs, PLUS_ZERO) && ieee_lt(epsrel, EPSREL_FLOOR))
}

/// Decides admissibility of the tolerance pair.
pub fn validate_tolerances(epsabs: u64, epsrel: u64) -> (ok: bool)
    ensures
        ok == valid_tolerances(epsabs, epsrel),
{
    !(dle(epsabs, PLUS_ZERO) && dlt(epsrel, EPSREL_FLOOR))
}

/// Some element of `s` carries exactly this bit pattern.
pub open spec fn seq_has_bits(s: Seq<u64>, v: u64) -> bool {
    exists|i: int| 0 <= i < s.len() && s[i] == v
}

proof fn lemma_has_bits_grow(s: Seq<u64>, k1: int, k2: int, v: u64)
    requires
        0 <= k1 <= k2 <= s.len(),
        seq_has_bits(s.take(k1), v),
    ensures
        seq_has_bits(s.take(k2), v),
{
    let i = choose|i: int| 0 <= i < s.take(k1).len() && s.take(k1)[i] == v;
    assert(s.take(k2)[i] == v);
}

/// The pieces form a chain from `a` to `b`: each piece starts where the
/// previous one ended.
pub open spec fn chain_over(parts: Seq<(u64, u64)>, a: u64, b: u64) -> bool {
    &&& parts.len() >= 1
    &&& parts[0].0 == a
    &&& parts[parts.len() - 1].1 == b
    &&& forall|i: int| 0 <= i < parts.len() - 1 ==> (#[trigger] parts[i]).1 == parts[i + 1].0
}

/// Every interior junction lies strictly inside `(a, b)` and the junctions
/// rise strictly, so no piece degenerates and no junction repeats.
pub open spec fn interior_strict(parts: Seq<(u64, u64)>, a: u64, b: u64) -> bool {
    &&& forall|i: int|
        1 <= i < parts.len() ==> ieee_lt(a, (#[trigger] parts[i]).0) && ieee_lt(parts[i].0, b)
    &&& forall|i: int, j: int|
        1 <= i < j < parts.len() ==> ieee_lt((#[trigger] parts[i]).0, (#[trigger] parts[j]).0)
}

/// Every interior junction is one of the given breakpoints.
pub open spec fn junctions_from(parts: Seq<(u64, u64)>, points: Seq<u64>) -> bool {
    forall|i: int|
        1 <= i < parts.len() ==> exists|j: int|
            0 <= j < points.len() && ieee_eq((#[trigger] parts[i]).0, points[j])
}

/// Every breakpoint strictly inside `(a, b)` appears as a junction.
pub open spec fn junctions_cover(
    parts: Seq<(u64, u64)>,
    points: Seq<u64>,
    a: u64,
    b: u64,
) -> bool {
    forall|j: int|
        0 <= j < points.len() && ieee_lt(a, points[j]) && ieee_lt(points[j], b) ==> exists|i: int|
            1 <= i < parts.len() && ieee_eq(#[trigger] points[j], parts[i].0)
}

/// Some piece of `parts` ends on a value equal to `v`.
spec fn end_matches(parts: Seq<(u64, u64)>, v: u64) -> bool {
    exists|i: int| 0 <= i < parts.len() && ieee_eq((#[trigger] parts[i]).1, v)
}

/// Sorts bit patterns by ascending IEEE value.
#[verifier::rlimit(50)]
fn sort_doubles(points: &Vec<u64>) -> (r: Vec<u64>)
    requires
        forall|i: int| 0 <= i < points@.len() ==> !is_nan_bits(#[trigger] points@[i]),
    ensures
        r@.len() == points@.len(),
        forall|i: int| 0 <= i < r@.len() ==> !is_nan_bits(#[trigger] r@[i]),
        forall|i: int, j: int| 0 <= i < j < r@.len() ==> val_key(r@[i]) <= val_key(r@[j]),
        forall|i: int| 0 <= i < r@.len() ==> seq_has_bits(points@, #[trigger] r@[i]),
        forall|j: int| 0 <= j < points@.len() ==> seq_has_bits(r@, #[trigger] points@[j]),
{
    let n = points.len();
    let mut r: Vec<u64> = Vec::new();
    let mut k: usize = 0;
    while k < n
        invariant
            n == points@.len(),
            0 <= k <= n,
            forall|i: int| 0 <= i < points@.len() ==> !is_nan_bits(#[trigger] points@[i]),
            r@.len() == k,
            forall|i: int| 0 <= i < r@.len() ==> !is_nan_bits(#[trigger] r@[i]),
            forall|i: int, j: int| 0 <= i < j < r@.len() ==> val_key(r@[i]) <= val_key(r@[j]),
            forall|i: int|
                0 <= i < r@.len() ==> seq_has_bits(points@.take(k as int), #[trigger] r@[i]),
            forall|j: int| 0 <= j < k ==> seq_has_bits(r@, #[trigger] points@[j]),
        decreases n - k,
    {
        let p = points[k];
        let ghost r_old = r@;
        let mut i = r.len();
        while i > 0 && dlt(p, r[i - 1])
            invariant
                0 <= i <= r@.len(),
                r@ == r_old,
                !is_nan_bits(p),
                forall|i2: int| 0 <= i2 < r@.len() ==> !is_nan_bits(#[trigger] r@[i2]),
                forall|j: int| i <= j < r@.len() ==> val_key(p) < val_key(#[trigger] r@[j]),
            decreases i,
        {
            i -= 1;
        }
        let ghost pos = i as int;
        r.insert(i, p);
        proof {
            assert(r@ =~= r_old.insert(pos, p));
            assert forall|i2: int, j2: int|
                0 <= i2 < j2 < r@.len() implies val_key(r@[i2]) <= val_key(r@[j2]) by {
                if i2 < pos && j2 < pos {
                    assert(r@[i2] == r_old[i2]);
                    assert(r@[j2] == r_old[j2]);
                } else if i2 >= pos + 1 && j2 >= pos + 1 {
                    assert(r@[i2] == r_old[i2 - 1]);
                    assert(r@[j2] == r_old[j2 - 1]);
                } else if j2 == pos {
                    assert(r@[i2] == r_old[i2]);
                    assert(val_key(r_old[pos - 1]) <= val_key(p));
                    assert(val_key(r_old[i2]) <= val_key(r_old[pos - 1]));
                } else if i2 == pos {
                    assert(r@[j2] == r_old[j2 - 1]);
                    assert(val_key(p) < val_key(r_old[j2 - 1]));
                } else {
                    assert(r@[i2] == r_old[i2]);
                    assert(r@[j2] == r_old[j2 - 1]);
                    assert(val_key(p) < val_key(r_old[j2 - 1]));
                    assert(val_key(r_old[pos - 1]) <= val_key(p));
                    assert(val_key(r_old[i2]) <= val_key(r_old[pos - 1]));
                }
            }
            assert forall|i2: int|
                0 <= i2 < r@.len() implies seq_has_bits(points@.take(k + 1), #[trigger] r@[i2]) by {
                if i2 == pos {
                    assert(points@.take(k + 1)[k as int] == r@[i2]);
                } else {
                    let i0 = if i2 < pos {
                        i2
                    } else {
                        i2 - 1
                    };
                    assert(r@[i2] == r_old[i0]);
                    assert(seq_has_bits(points@.take(k as int), r_old[i0]));
                    lemma_has_bits_grow(points@, k as int, k + 1, r_old[i0]);
                }
            }
            assert forall|j2: int|
                0 <= j2 < k + 1 implies seq_has_bits(r@, #[trigger] points@[j2]) by {
                if j2 == k {
                    assert(r@[pos] == points@[j2]);
                } else {
                    assert(seq_has_bits(r_old, points@[j2]));
                    let w = choose|w: int| 0 <= w < r_old.len() && r_old[w] == points@[j2];
                    let w2 = if w < pos {
                        w
                    } else {
                        w + 1
                    };
                    assert(r@[w2] == r_old[w]);
                }
            }
        }
        k += 1;
    }
    proof {
        assert(points@.take(n as int) =~= points@);
    }
    r
}

/// Well-ordered breakpoint patterns: no NaN, ascending values.
spec fn sorted_wf(sorted: Seq<u64>) -> bool {
    &&& forall|i: int| 0 <= i < sorted.len() ==> !is_nan_bits(#[trigger] sorted[i])
    &&& forall|i1: int, j1: int|
        0 <= i1 < j1 < sorted.len() ==> val_key(sorted[i1]) <= val_key(sorted[j1])
}

/// The state of the partition builder after the first `j` sorted
/// breakpoints: the pieces chain from `a` to `prev`, every end lies
/// strictly inside `(a, b)` and the ends rise strictly, each end carries
/// the bit pattern of an already-visited breakpoint, and every visited
/// strictly-inside breakpoint has an equal end.
spec fn pinv(parts: Seq<(u64, u64)>, prev: u64, sorted: Seq<u64>, j: int, a: u64, b: u64) -> bool {
    &&& (parts.len() == 0 ==> prev == a)
    &&& (parts.len() >= 1 ==> parts[0].0 == a && parts[parts.len() - 1].1 == prev)
    &&& forall|i: int| 0 <= i < parts.len() - 1 ==> (#[trigger] parts[i]).1 == parts[i + 1].0
    &&& forall|i: int|
        0 <= i < parts.len() ==> ieee_lt(a, (#[trigger] parts[i]).1) && ieee_lt(parts[i].1, b)
    &&& forall|i1: int, i2: int|
        0 <= i1 < i2 < parts.len() ==> ieee_lt((#[trigger] parts[i1]).1, (#[trigger] parts[i2]).1)
    &&& forall|i: int|
        0 <= i < parts.len() ==> exists|j1: int|
            0 <= j1 < j && (#[trigger] parts[i]).1 == sorted[j1]
    &&& forall|j1: int|
        0 <= j1 < j && ieee_lt(a, sorted[j1]) && ieee_lt(sorted[j1], b) ==> end_matches(
            parts,
            #[trigger] sorted[j1],
        )
}

/// Taking breakpoint `j` as the next junction keeps the builder state.
#[verifier::rlimit(50)]
proof fn lemma_partition_step_push(
    parts_old: Seq<(u64, u64)>,
    pa: Seq<(u64, u64)>,
    prev0: u64,
    sorted: Seq<u64>,
    j: int,
    a: u64,
    b: u64,
)
    requires
        sorted_wf(sorted),
        0 <= j < sorted.len(),
        pa == parts_old.push((prev0, sorted[j])),
        pinv(parts_old, prev0, sorted, j, a, b),
        ieee_lt(a, sorted[j]),
        ieee_lt(sorted[j], b),
        parts_old.len() >= 1 ==> ieee_lt(prev0, sorted[j]),
    ensures
        pinv(pa, sorted[j], sorted, j + 1, a, b),
{
    let p = sorted[j];
    let last = pa.len() - 1;
    assert((pa[last]).1 == p);
    assert forall|i: int|
        0 <= i < pa.len() implies exists|j1: int|
        0 <= j1 < j + 1 && (#[trigger] pa[i]).1 == sorted[j1] by {
        if i == last {
            assert(pa[i].1 == sorted[j]);
        } else {
            assert(pa[i] == parts_old[i]);
            let j1 = choose|j1: int| 0 <= j1 < j && (parts_old[i]).1 == sorted[j1];
            assert(pa[i].1 == sorted[j1]);
        }
    }
    assert forall|i1: int, i2: int|
        0 <= i1 < i2 < pa.len() implies ieee_lt((#[trigger] pa[i1]).1, (#[trigger] pa[i2]).1) by {
        if i2 == last && parts_old.len() >= 1 {
            assert(pa[i1] == parts_old[i1]);
            if i1 < parts_old.len() - 1 {
                assert(ieee_lt((parts_old[i1]).1, (parts_old[parts_old.len() - 1]).1));
            }
            assert(ieee_lt(prev0, p));
        }
    }
    assert forall|j1: int|
        0 <= j1 < j + 1 && ieee_lt(a, sorted[j1]) && ieee_lt(sorted[j1], b) implies end_matches(
        pa,
        #[trigger] sorted[j1],
    ) by {
        if j1 == j {
            assert(ieee_eq((pa[last]).1, sorted[j1]));
        } else {
            assert(end_matches(parts_old, sorted[j1]));
            let w = choose|w: int|
                0 <= w < parts_old.len() && ieee_eq((#[trigger] parts_old[w]).1, sorted[j1]);
            assert(ieee_eq((pa[w]).1, sorted[j1]));
        }
    }
}

/// Skipping breakpoint `j` (outside the interval, or equal to the last
/// junction) keeps the builder state.
#[verifier::rlimit(50)]
proof fn lemma_partition_step_skip(
    parts: Seq<(u64, u64)>,
    prev: u64,
    sorted: Seq<u64>,
    j: int,
    a: u64,
    b: u64,
)
    requires
        sorted_wf(sorted),
        0 <= j < sorted.len(),
        pinv(parts, prev, sorted, j, a, b),
        !(ieee_lt(a, sorted[j]) && ieee_lt(sorted[j], b) && (parts.len() == 0 || ieee_lt(
            prev,
            sorted[j],
        ))),
    ensures
        pinv(parts, prev, sorted, j + 1, a, b),
{
    if ieee_lt(a, sorted[j]) && ieee_lt(sorted[j], b) {
        // skipped as a duplicate: the last end equals it
        assert(parts.len() >= 1);
        assert(!ieee_lt(prev, sorted[j]));
        let last = parts.len() - 1;
        let j1 = choose|j1: int| 0 <= j1 < j && (#[trigger] parts[last]).1 == sorted[j1];
        assert(val_key(sorted[j1]) <= val_key(sorted[j]));
        assert(ieee_eq((parts[last]).1, sorted[j]));
        assert(end_matches(parts, sorted[j]));
    }
    assert forall|j1: int|
        0 <= j1 < j + 1 && ieee_lt(a, sorted[j1]) && ieee_lt(sorted[j1], b) implies end_matches(
        parts,
        #[trigger] sorted[j1],
    ) by {}
}

/// Builds the initial partition of `(a, b)`: the breakpoints are sorted,
/// those strictly inside the interval become junctions (each value once,
/// duplicates and out-of-range values ignored), and the pieces chain from
/// `a` to `b`. Without admissible breakpoints the partition is `[(a, b)]`.
#[verifier::rlimit(50)]
pub fn initial_partition(a: u64, b: u64, points: &Vec<u64>) -> (parts: Vec<(u64, u64)>)
    requires
        forall|i: int| 0 <= i < points@.len() ==> !is_nan_bits(#[trigger] points@[i]),
    ensures
        chain_over(parts@, a, b),
        interior_strict(parts@, a, b),
        junctions_from(parts@, points@),
        junctions_cover(parts@, points@, a, b),
{
    let sorted = sort_doubles(points);
    let n = sorted.len();
    let mut parts: Vec<(u64, u64)> = Vec::new();
    let mut prev: u64 = a;
    let mut j: usize = 0;
    while j < n
        invariant
            n == sorted@.len(),
            0 <= j <= n,
            sorted_wf(sorted@),
            pinv(parts@, prev, sorted@, j as int, a, b),
        decreases n - j,
    {
        let p = sorted[j];
        let ghost parts_old = parts@;
        let ghost prev0 = prev;
        if dlt(a, p) && dlt(p, b) && (parts.len() == 0 || dlt(prev, p)) {
            parts.push((prev, p));
            prev = p;
            proof {
                assert(parts@ =~= parts_old.push((prev0, p)));
                lemma_partition_step_push(parts_old, parts@, prev0, sorted@, j as int, a, b);
            }
        } else {
            proof {
                lemma_partition_step_skip(parts@, prev, sorted@, j as int, a, b);
            }
        }
        j += 1;
    }
    let ghost parts_mid = parts@;
    let ghost prev_mid = prev;
    parts.push((prev, b));
    proof {
        assert(parts@ =~= parts_mid.push((prev_mid, b)));
        lemma_partition_assemble(parts@, parts_mid, prev_mid, sorted@, points@, a, b);
    }
    parts
}

/// Appending the closing piece `(prev, b)` to the built chain yields a
/// partition with the promised shape.
proof fn lemma_partition_assemble(
    pa: Seq<(u64, u64)>,
    parts_mid: Seq<(u64, u64)>,
    prev_mid: u64,
    sorted: Seq<u64>,
    points: Seq<u64>,
    a: u64,
    b: u64,
)
    requires
        pa == parts_mid.push((prev_mid, b)),
        sorted_wf(sorted),
        forall|i: int| 0 <= i < sorted.len() ==> seq_has_bits(points, #[trigger] sorted[i]),
        forall|j: int| 0 <= j < points.len() ==> seq_has_bits(sorted, #[trigger] points[j]),
        pinv(parts_mid, prev_mid, sorted, sorted.len() as int, a, b),
    ensures
        chain_over(pa, a, b),
        interior_strict(pa, a, b),
        junctions_from(pa, points),
        junctions_cover(pa, points, a, b),
{
    lemma_assemble_shape(pa, parts_mid, prev_mid, sorted, a, b);
    lemma_assemble_sources(pa, parts_mid, prev_mid, sorted, points, a, b);
    lemma_assemble_cover(pa, parts_mid, prev_mid, sorted, points, a, b);
}

/// The closed chain runs from `a` to `b` with strictly rising interior
/// junctions.
#[verifier::rlimit(100)]
proof fn lemma_assemble_shape(
    pa: Seq<(u64, u64)>,
    parts_mid: Seq<(u64, u64)>,
    prev_mid: u64,
    sorted: Seq<u64>,
    a: u64,
    b: u64,
)
    requires
        pa == parts_mid.push((prev_mid, b)),
        parts_mid.len() == 0 ==> prev_mid == a,
        parts_mid.len() >= 1 ==> parts_mid[0].0 == a && parts_mid[parts_mid.len() - 1].1
            == prev_mid,
        forall|i: int|
            0 <= i < parts_mid.len() - 1 ==> (#[trigger] parts_mid[i]).1 == parts_mid[i + 1].0,
        forall|i: int|
            0 <= i < parts_mid.len() ==> ieee_lt(a, (#[trigger] parts_mid[i]).1) && ieee_lt(
                parts_mid[i].1,
                b,
            ),
        forall|i1: int, i2: int|
            0 <= i1 < i2 < parts_mid.len() ==> ieee_lt(
                (#[trigger] parts_mid[i1]).1,
                (#[trigger] parts_mid[i2]).1,
            ),
    ensures
        chain_over(pa, a, b),
        interior_strict(pa, a, b),
{
    // the ends of the built pieces are the starts of their successors
    assert forall|i: int|
        1 <= i < pa.len() implies ieee_lt(a, (#[trigger] pa[i]).0) && ieee_lt(pa[i].0, b) by {
        assert(pa[i].0 == parts_mid[i - 1].1);
    }
    assert forall|i1: int, i2: int|
        1 <= i1 < i2 < pa.len() implies ieee_lt((#[trigger] pa[i1]).0, (#[trigger] pa[i2]).0) by {
        assert(pa[i1].0 == parts_mid[i1 - 1].1);
        assert(pa[i2].0 == parts_mid[i2 - 1].1);
    }
}

/// Every junction of the closed chain carries a breakpoint's bit pattern.
#[verifier::rlimit(100)]
proof fn lemma_assemble_sources(
    pa: Seq<(u64, u64)>,
    parts_mid: Seq<(u64, u64)>,
    prev_mid: u64,
    sorted: Seq<u64>,
    points: Seq<u64>,
    a: u64,
    b: u64,
)
    requires
        pa == parts_mid.push((prev_mid, b)),
        sorted_wf(sorted),
        forall|i: int| 0 <= i < sorted.len() ==> seq_has_bits(points, #[trigger] sorted[i]),
        parts_mid.len() >= 1 ==> parts_mid[parts_mid.len() - 1].1 == prev_mid,
        forall|i: int|
            0 <= i < parts_mid.len() - 1 ==> (#[trigger] parts_mid[i]).1 == parts_mid[i + 1].0,
        forall|i: int|
            0 <= i < parts_mid.len() ==> exists|j1: int|
                0 <= j1 < sorted.len() && (#[trigger] parts_mid[i]).1 == sorted[j1],
    ensures
        junctions_from(pa, points),
{
    let n = sorted.len() as int;
    assert forall|i: int|
        1 <= i < pa.len() implies exists|jq: int|
        0 <= jq < points.len() && ieee_eq((#[trigger] pa[i]).0, points[jq]) by {
        assert(pa[i].0 == parts_mid[i - 1].1);
        let j1 = choose|j1: int| 0 <= j1 < n && (#[trigger] parts_mid[i - 1]).1 == sorted[j1];
        assert(seq_has_bits(points, sorted[j1]));
        let jq = choose|jq: int| 0 <= jq < points.len() && points[jq] == sorted[j1];
        assert(ieee_eq(pa[i].0, points[jq]));
    }
}

/// Every strictly-inside breakpoint has an equal junction in the closed
/// chain.
#[verifier::rlimit(100)]
proof fn lemma_assemble_cover(
    pa: Seq<(u64, u64)>,
    parts_mid: Seq<(u64, u64)>,
    prev_mid: u64,
    sorted: Seq<u64>,
    points: Seq<u64>,
    a: u64,
    b: u64,
)
    requires
        pa == parts_mid.push((prev_mid, b)),
        sorted_wf(sorted),
        forall|j: int| 0 <= j < points.len() ==> seq_has_bits(sorted, #[trigger] points[j]),
        parts_mid.len() >= 1 ==> parts_mid[parts_mid.len() - 1].1 == prev_mid,
        forall|i: int|
            0 <= i < parts_mid.len() - 1 ==> (#[trigger] parts_mid[i]).1 == parts_mid[i + 1].0,
        forall|j1: int|
            0 <= j1 < sorted.len() && ieee_lt(a, sorted[j1]) && ieee_lt(sorted[j1], b)
                ==> end_matches(parts_mid, #[trigger] sorted[j1]),
    ensures
        junctions_cover(pa, points, a, b),
{
    assert forall|jq: int|
        0 <= jq < points.len() && ieee_lt(a, points[jq]) && ieee_lt(points[jq], b) implies exists|
        i: int,
    | 1 <= i < pa.len() && ieee_eq(#[trigger] points[jq], pa[i].0) by {
        assert(seq_has_bits(sorted, points[jq]));
        let js = choose|js: int| 0 <= js < sorted.len() && sorted[js] == points[jq];
        assert(ieee_lt(a, sorted[js]) && ieee_lt(sorted[js], b));
        assert(end_matches(parts_mid, sorted[js]));
        let i0 = choose|i0: int|
            0 <= i0 < parts_mid.len() && ieee_eq((#[trigger] parts_mid[i0]).1, sorted[js]);
        assert(pa[i0 + 1].0 == parts_mid[i0].1);
        assert(ieee_eq(points[jq], pa[i0 + 1].0));
    }
}

/// One rule evaluation of one piece, as the driver reports it: the
/// interval, the per-component result patterns, the absolute-error
/// estimate, and the roundoff estimate.
pub struct Eval {
    pub x: u64,
    pub y: u64,
    pub result: Vec<u64>,
    pub abserr: u64,
    pub rounderr: u64,
}

/// The seed evaluations can enter the store: no NaN error estimate and no
/// repeated interval key.
pub open spec fn evals_clean(evals: Seq<Eval>) -> bool {
    &&& forall|i: int| 0 <= i < evals.len() ==> !is_nan_bits((#[trigger] evals[i]).abserr)
    &&& forall|i: int, j: int|
        0 <= i < j < evals.len() ==> ((#[trigger] evals[i]).x, evals[i].y) != ((
        #[trigger] evals[j]).x,
        evals[j].y,
        )
}

/// One refined piece of a round: the popped interval `(x, y)`, its
/// midpoint `mid` (the driver's `0.5 * (x + y)`), and the rule evaluations
/// of the two halves `(x, mid)` and `(mid, y)`.
pub struct Refined {
    pub x: u64,
    pub y: u64,
    pub mid: u64,
    pub res1: Vec<u64>,
    pub err1: u64,
    pub round1: u64,
    pub res2: Vec<u64>,
    pub err2: u64,
    pub round2: u64,
}

/// The accumulator bits a round hands back, each the driver's
/// floating-point computation over the popped and the new evaluations.
pub struct BatchTotals {
    /// `S - old_sum + new_sum`: the running integral after the exchange.
    pub s: Vec<u64>,
    /// `E - err_sum + new_err_sum`: the running error total.
    pub abserr: u64,
    /// `R + new_round_sum`: the running roundoff total.
    pub rounderr: u64,
    /// `max(epsabs, epsrel * norm(s)) / 8`: an eighth of the fresh target.
    pub errbnd_eighth: u64,
    /// `err_sum`: the error total of the popped intervals.
    pub err_sum: u64,
    /// `new_err_sum`: the error total of the new halves.
    pub new_err_sum: u64,
}

/// The engine's verdict after a step.
#[derive(Clone, Copy, Debug, PartialEq, Eq, Structural)]
pub enum Step {
    /// Refine further.
    Proceed,
    /// The error target is met: assemble the success payload.
    Converged,
    /// Terminal failure.
    Fail(ResultState),
}

/// Key of one half of a refined piece: the lower half for `false`, the
/// upper for `true`.
pub open spec fn half_key(r: Refined, second: bool) -> (u64, u64) {
    if second {
        (r.mid, r.y)
    } else {
        (r.x, r.mid)
    }
}

/// A batch can enter the store: no half has a NaN error, the `2 * len`
/// half keys are pairwise distinct, and none is live already.
pub open spec fn batch_clean(st: IntervalStore, batch: Seq<Refined>) -> bool {
    &&& forall|i: int|
        0 <= i < batch.len() ==> !is_nan_bits((#[trigger] batch[i]).err1) && !is_nan_bits(
            batch[i].err2,
        )
    &&& forall|i: int|
        0 <= i < batch.len() ==> half_key(#[trigger] batch[i], false) != half_key(batch[i], true)
    &&& forall|i: int, j: int, s1: bool, s2: bool|
        0 <= i < j < batch.len() ==> #[trigger] half_key(batch[i], s1) != #[trigger] half_key(
            batch[j],
            s2,
        )
    &&& forall|i: int, s1: bool|
        0 <= i < batch.len() ==> !st.has_key(#[trigger] half_key(batch[i], s1))
}

/// A live integration session: the clamped rule key, the bounds and
/// tolerances, the interval store, the accumulator bits last reported by
/// the driver, and the progress counters. `guard` marks the parallel
/// policy: the singularity guard and the stagnation counters are active.
pub struct EngineState {
    pub keyf: i32,
    pub limit: usize,
    pub guard: bool,
    pub epsabs: u64,
    pub epsrel: u64,
    pub store: IntervalStore,
    pub s: Vec<u64>,
    pub abserr: u64,
    pub rounderr: u64,
    pub last: usize,
    pub iroff1: u32,
    pub iroff2: u32,
}

impl EngineState {
    /// Well-formedness: clamped key, bounded limit and counters, and the
    /// store invariant.
    pub open spec fn wf(self) -> bool {
        &&& 1 <= self.keyf <= 6
        &&& 1 <= self.limit <= LIMIT_MAX
        &&& self.last >= 1
        &&& self.last <= self.limit + BATCH_LIMIT
        &&& self.iroff1 <= 6
        &&& self.iroff2 <= 20
        &&& self.store.wf()
    }

    /// A fresh session before seeding.
    pub fn new(key: i32, limit: usize, guard: bool, epsabs: u64, epsrel: u64) -> (st: EngineState)
        requires
            1 <= limit <= LIMIT_MAX,
        ensures
            st.wf(),
            st.keyf == clamped_key(key),
            st.limit == limit,
            st.guard == guard,
            st.epsabs == epsabs,
            st.epsrel == epsrel,
            st.store@.len() == 0,
            st.s@.len() == 0,
            st.abserr == PLUS_ZERO,
            st.rounderr == PLUS_ZERO,
            st.last == 1,
            st.iroff1 == 0,
            st.iroff2 == 0,
    {
        EngineState {
            keyf: clamp_key(key),
            limit,
            guard,
            epsabs,
            epsrel,
            store: IntervalStore::new(),
            s: Vec::new(),
            abserr: PLUS_ZERO,
            rounderr: PLUS_ZERO,
            last: 1,
            iroff1: 0,
            iroff2: 0,
        }
    }

    /// Loads the initial evaluations into the store and takes over the
    /// driver's accumulator sums: `s` the component-wise sum of the
    /// results, `abserr` the sum of the error estimates, `rounderr` the
    /// sum of the roundoff estimates. Fails with `Failure` - the fatal
    /// internal state - exactly when an evaluation carries a NaN error or
    /// a repeated interval key.
    #[verifier::rlimit(50)]
    #[verifier::spinoff_prover]
    pub fn seed(&mut self, evals: Vec<Eval>, s: Vec<u64>, abserr: u64, rounderr: u64) -> (r:
        Result<(), ResultState>)
        requires
            old(self).wf(),
            old(self).store@.len() == 0,
        ensures
            final(self).wf(),
            r matches Err(st) ==> st == ResultState::Failure,
            r is Ok <==> evals_clean(evals@),
            r is Ok ==> {
                &&& final(self).store@.len() == evals@.len()
                &&& forall|i: int|
                    0 <= i < evals@.len() ==> final(self).store.has_key(
                        ((#[trigger] evals@[i]).x, evals@[i].y),
                    ) && final(self).store.entry_of((evals@[i].x, evals@[i].y)) == (SEntry {
                        x: evals@[i].x,
                        y: evals@[i].y,
                        err: evals@[i].abserr,
                        res: evals@[i].result@,
                    })
                &&& final(self).s == s
                &&& final(self).abserr == abserr
                &&& final(self).rounderr == rounderr
            },
            final(self).keyf == old(self).keyf,
            final(self).limit == old(self).limit,
            final(self).guard == old(self).guard,
            final(self).epsabs == old(self).epsabs,
            final(self).epsrel == old(self).epsrel,
            final(self).last == old(self).last,
    {
        let n = evals.len();
        let mut i: usize = 0;
        let mut pending = evals;
        // consume from the back to move each entry out by `pop`
        let ghost all = pending@;
        proof {
            assert(all == evals@);
        }
        while i < n
            invariant
                n == all.len(),
                all == evals@,
                0 <= i <= n,
                pending@ == all.take(n - i),
                self.wf(),
                self.store@.len() == i,
                forall|j: int| n - i <= j < n ==> !is_nan_bits((#[trigger] all[j]).abserr),
                forall|j1: int, j2: int|
                    n - i <= j1 < j2 < n ==> ((#[trigger] all[j1]).x, all[j1].y) != ((
                    #[trigger] all[j2]).x,
                    all[j2].y,
                    ),
                forall|j: int|
                    n - i <= j < n ==> self.store.has_key(((#[trigger] all[j]).x, all[j].y))
                        && self.store.entry_of((all[j].x, all[j].y)) == (SEntry {
                        x: all[j].x,
                        y: all[j].y,
                        err: all[j].abserr,
                        res: all[j].result@,
                    }),
                forall|k: (u64, u64)|
                    #[trigger] self.store.has_key(k) ==> exists|j: int|
                        n - i <= j < n && ((#[trigger] all[j]).x, all[j].y) == k,
                self.keyf == old(self).keyf,
                self.limit == old(self).limit,
                self.guard == old(self).guard,
                self.epsabs == old(self).epsabs,
                self.epsrel == old(self).epsrel,
                self.last == old(self).last,
                self.s == old(self).s,
                self.abserr == old(self).abserr,
                self.rounderr == old(self).rounderr,
            decreases n - i,
        {
            let e = match pending.pop() {
                Some(e) => e,
                None => {
                    proof {
                        assert(false);
                    }
                    Eval { x: 0, y: 0, result: Vec::new(), abserr: 0, rounderr: 0 }
                },
            };
            let ghost j = n - i - 1;
            proof {
                assert(all.take(n - i).last() == all[j]);
                assert(pending@ =~= all.take(n - i - 1));
            }
            if dis_nan(e.abserr) {
                proof {
                    assert(is_nan_bits(all[j].abserr));
                    assert(!evals_clean(all));
                }
                return Err(ResultState::Failure);
            }
            if self.store.contains_key(e.x, e.y) {
                proof {
                    let j2 = choose|j2: int|
                        n - i <= j2 < n && ((#[trigger] all[j2]).x, all[j2].y) == (e.x, e.y);
                    assert(((all[j]).x, all[j].y) == ((all[j2]).x, all[j2].y));
                    assert(j < j2);
                    assert(!evals_clean(all));
                }
                return Err(ResultState::Failure);
            }
            proof {
                assert forall|j2: int|
                    n - i <= j2 < n implies ((all[j]).x, all[j].y) != ((#[trigger] all[j2]).x,
                all[j2].y,
                ) by {
                    assert(self.store.has_key((all[j2].x, all[j2].y)));
                }
            }
            self.store.push(e.x, e.y, e.abserr, e.result);
            i += 1;
        }
        self.s = s;
        self.abserr = abserr;
        self.rounderr = rounderr;
        Ok(())
    }

    /// The decision after seeding. The driver supplies `scaled_norm`, its
    /// `epsrel * norm(s)`, and `er_sum`, its `abserr + rounderr`; the
    /// error target is `errbnd = max(epsabs, scaled_norm)`. Success is owed
    /// exactly when the total error meets the target; otherwise a limit of
    /// one subinterval fails at once, and roundoff above the error fails as
    /// hopeless.
    pub fn assess_seed(&self, scaled_norm: u64, er_sum: u64) -> (d: Step)
        requires
            self.wf(),
        ensures
            d == ({
                let errbnd = ieee_max(self.epsabs, scaled_norm);
                if ieee_le(er_sum, errbnd) {
                    Step::Converged
                } else if self.limit == 1 {
                    Step::Fail(ResultState::MaxIteration)
                } else if ieee_lt(self.abserr, self.rounderr) {
                    Step::Fail(ResultState::BadTolerance)
                } else {
                    Step::Proceed
                }
            }),
    {
        let errbnd = dmax(self.epsabs, scaled_norm);
        if dle(er_sum, errbnd) {
            Step::Converged
        } else if self.limit == 1 {
            Step::Fail(ResultState::MaxIteration)
        } else if dlt(self.abserr, self.rounderr) {
            Step::Fail(ResultState::BadTolerance)
        } else {
            Step::Proceed
        }
    }

    /// Pops the worst interval for refinement: heap and cache lose exactly
    /// that entry, every remaining error is at most the popped one (so pop
    /// order is non-increasing), and the cached result comes along.
    pub fn pop_next(&mut self) -> (r: Popped)
        requires
            old(self).wf(),
            old(self).store@.len() > 0,
        ensures
            final(self).wf(),
            final(self).store@ == old(self).store@.drop_last(),
            (SEntry { x: r.x, y: r.y, err: r.err, res: r.res@ }) == old(self).store@.last(),
            old(self).store.has_key((r.x, r.y)),
            !final(self).store.has_key((r.x, r.y)),
            forall|k: (u64, u64)|
                k != (r.x, r.y) ==> #[trigger] final(self).store.has_key(k) == old(
                    self,
                ).store.has_key(k),
            !is_nan_bits(r.err),
            forall|i: int|
                0 <= i < final(self).store@.len() ==> val_key(#[trigger] final(self).store@[i].err)
                    <= val_key(r.err),
            final(self).keyf == old(self).keyf,
            final(self).limit == old(self).limit,
            final(self).guard == old(self).guard,
            final(self).epsabs == old(self).epsabs,
            final(self).epsrel == old(self).epsrel,
            final(self).s == old(self).s,
            final(self).abserr == old(self).abserr,
            final(self).rounderr == old(self).rounderr,
            final(self).last == old(self).last,
            final(self).iroff1 == old(self).iroff1,
            final(self).iroff2 == old(self).iroff2,
    {
        self.store.pop_max()
    }

    /// Whether the popping phase of a round must stop: the batch is full,
    /// or the popped error total `err_sum` exceeds the driver's threshold
    /// `abserr - errbnd / 8`.
    pub fn batch_should_stop(&self, count: usize, err_sum: u64, threshold: u64) -> (r: bool)
        ensures
            r == (count >= BATCH_LIMIT || ieee_lt(threshold, err_sum)),
    {
        count >= BATCH_LIMIT || dlt(threshold, err_sum)
    }

    /// The singularity guard of the parallel policy: a popped interval
    /// `(x, y)` is too close to the floating-point resolution limit when
    /// `max(|x|, |y|) <= rhs`, the driver's
    /// `(1 + 100 * epsilon) * (|mid| + 1000 * uflow)`. A violation is the
    /// `BadFunction` failure.
    pub fn guard_violation(&self, x: u64, y: u64, rhs: u64) -> (v: bool)
        ensures
            v == ieee_le(ieee_max(mag_of(x), mag_of(y)), rhs),
    {
        dle(dmax(dabs(x), dabs(y)), rhs)
    }

    /// Stages the two halves of one refined piece: when both error
    /// estimates are numbers and both half keys are distinct and fresh,
    /// pushes both entries atomically; on any violation it leaves the
    /// store untouched and reports failure.
    fn stage_halves(&mut self, e: Refined) -> (ok: bool)
        requires
            old(self).wf(),
        ensures
            final(self).wf(),
            ok <==> (!is_nan_bits(e.err1) && !is_nan_bits(e.err2) && half_key(e, false)
                != half_key(e, true) && !old(self).store.has_key(half_key(e, false)) && !old(
                self,
            ).store.has_key(half_key(e, true))),
            !ok ==> *final(self) == *old(self),
            ok ==> {
                &&& final(self).store@.len() == old(self).store@.len() + 2
                &&& final(self).store.has_key(half_key(e, false))
                &&& final(self).store.has_key(half_key(e, true))
                &&& final(self).store.entry_of(half_key(e, false)) == (SEntry {
                    x: e.x,
                    y: e.mid,
                    err: e.err1,
                    res: e.res1@,
                })
                &&& final(self).store.entry_of(half_key(e, true)) == (SEntry {
                    x: e.mid,
                    y: e.y,
                    err: e.err2,
                    res: e.res2@,
                })
                &&& forall|k: (u64, u64)|
                    k != half_key(e, false) && k != half_key(e, true)
                        ==> #[trigger] final(self).store.has_key(k) == old(self).store.has_key(k)
                &&& forall|k: (u64, u64)|
                    k != half_key(e, false) && k != half_key(e, true) && old(self).store.has_key(k)
                        ==> #[trigger] final(self).store.entry_of(k) == old(self).store.entry_of(k)
            },
            final(self).keyf == old(self).keyf,
            final(self).limit == old(self).limit,
            final(self).guard == old(self).guard,
            final(self).epsabs == old(self).epsabs,
            final(self).epsrel == old(self).epsrel,
            final(self).s == old(self).s,
            final(self).abserr == old(self).abserr,
            final(self).rounderr == old(self).rounderr,
            final(self).last == old(self).last,
            final(self).iroff1 == old(self).iroff1,
            final(self).iroff2 == old(self).iroff2,
    {
        if dis_nan(e.err1) || dis_nan(e.err2) {
            return false;
        }
        if e.x == e.mid && e.mid == e.y {
            return false;
        }
        if self.store.contains_key(e.x, e.mid) {
            return false;
        }
        if self.store.contains_key(e.mid, e.y) {
            return false;
        }
        self.store.push(e.x, e.mid, e.err1, e.res1);
        self.store.push(e.mid, e.y, e.err2, e.res2);
        true
    }

    /// Applies one refinement round: pushes both halves of every popped
    /// interval, advances the subinterval count by the batch size, updates
    /// the stagnation counters under the parallel policy, and decides.
    ///
    /// The driver supplies, beside the totals: `diffs`, the component-wise
    /// `old_sum - new_sum` over the batch; `tols`, the component-wise
    /// `1e-5 * |new_sum|`; and `err_floor`, its `0.99 * err_sum`. The
    /// stagnation tests are exactly those of the engine: `iroff1` steps
    /// when every component satisfies `|diff| <= tol` and
    /// `new_err_sum >= err_floor`; `iroff2` steps when the count exceeds
    /// ten and the error grew.
    ///
    /// The verdict, over the updated state: convergence
    /// (`abserr <= errbnd_eighth`) is success, then `BadTolerance` on
    /// dominating roundoff or, under the parallel policy, tripped
    /// counters, then `MaxIteration` on a reached limit - so that state
    /// comes only when the budget is exhausted without meeting the
    /// success test. `Failure` comes exactly when the batch cannot enter
    /// the store.
    #[verifier::rlimit(100)]
    #[verifier::spinoff_prover]
    pub fn apply_batch(
        &mut self,
        batch: Vec<Refined>,
        totals: BatchTotals,
        diffs: Vec<u64>,
        tols: Vec<u64>,
        err_floor: u64,
    ) -> (d: Step)
        requires
            old(self).wf(),
            old(self).last < old(self).limit,
            1 <= batch@.len() <= BATCH_LIMIT,
            diffs@.len() == tols@.len(),
        ensures
            final(self).wf(),
            d == Step::Fail(ResultState::Failure) <==> !batch_clean(old(self).store, batch@),
            batch_clean(old(self).store, batch@) ==> ({
                let hit1 = (forall|k: int|
                    0 <= k < diffs@.len() ==> ieee_le(mag_of(#[trigger] diffs@[k]), tols@[k]))
                    && ieee_le(err_floor, totals.new_err_sum);
                let last2 = old(self).last + batch@.len();
                let hit2 = last2 > 10 && ieee_lt(totals.err_sum, totals.new_err_sum);
                &&& final(self).s == totals.s
                &&& final(self).abserr == totals.abserr
                &&& final(self).rounderr == totals.rounderr
                &&& final(self).last == last2
                &&& final(self).iroff1 as int == (if old(self).guard && hit1 && old(self).iroff1
                    < 6 {
                    old(self).iroff1 + 1
                } else {
                    old(self).iroff1 as int
                })
                &&& final(self).iroff2 as int == (if old(self).guard && hit2 && old(self).iroff2
                    < 20 {
                    old(self).iroff2 + 1
                } else {
                    old(self).iroff2 as int
                })
                &&& final(self).store@.len() == old(self).store@.len() + 2 * batch@.len()
                &&& forall|i: int, s1: bool|
                    0 <= i < batch@.len() ==> final(self).store.has_key(
                        #[trigger] half_key(batch@[i], s1),
                    )
                &&& forall|i: int|
                    0 <= i < batch@.len() ==> final(self).store.entry_of(
                        half_key(#[trigger] batch@[i], false),
                    ) == (SEntry {
                        x: batch@[i].x,
                        y: batch@[i].mid,
                        err: batch@[i].err1,
                        res: batch@[i].res1@,
                    }) && final(self).store.entry_of(half_key(batch@[i], true)) == (SEntry {
                        x: batch@[i].mid,
                        y: batch@[i].y,
                        err: batch@[i].err2,
                        res: batch@[i].res2@,
                    })
                &&& forall|k: (u64, u64)|
                    old(self).store.has_key(k) ==> #[trigger] final(self).store.has_key(k)
                &&& d == ({
                    let conv = ieee_le(totals.abserr, totals.errbnd_eighth);
                    let bad = ieee_lt(totals.abserr, totals.rounderr);
                    let at_limit = last2 >= old(self).limit;
                    if conv {
                        Step::Converged
                    } else if bad || (old(self).guard && (final(self).iroff1 >= 6
                        || final(self).iroff2 >= 20)) {
                        Step::Fail(ResultState::BadTolerance)
                    } else if at_limit {
                        Step::Fail(ResultState::MaxIteration)
                    } else {
                        Step::Proceed
                    }
                })
            }),
            final(self).keyf == old(self).keyf,
            final(self).limit == old(self).limit,
            final(self).guard == old(self).guard,
            final(self).epsabs == old(self).epsabs,
            final(self).epsrel == old(self).epsrel,
    {
        let m = batch.len();
        let mut i: usize = 0;
        let mut pending = batch;
        let ghost all = pending@;
        proof {
            assert(all == batch@);
        }
        let ghost store0 = old(self).store;
        // consume from the back; a clean batch enters whole, a bad one is
        // found at its first bad half
        while i < m
            invariant
                m == all.len(),
                all == batch@,
                store0 == old(self).store,
                0 <= i <= m,
                pending@ == all.take(m - i),
                self.wf(),
                self.store@.len() == store0@.len() + 2 * i,
                store0.wf(),
                forall|j: int|
                    m - i <= j < m ==> !is_nan_bits((#[trigger] all[j]).err1) && !is_nan_bits(
                        all[j].err2,
                    ),
                forall|j: int, s1: bool|
                    m - i <= j < m ==> self.store.has_key(#[trigger] half_key(all[j], s1)),
                forall|j: int|
                    m - i <= j < m ==> self.store.entry_of(half_key(#[trigger] all[j], false))
                        == (SEntry {
                        x: all[j].x,
                        y: all[j].mid,
                        err: all[j].err1,
                        res: all[j].res1@,
                    }) && self.store.entry_of(half_key(all[j], true)) == (SEntry {
                        x: all[j].mid,
                        y: all[j].y,
                        err: all[j].err2,
                        res: all[j].res2@,
                    }),
                forall|k: (u64, u64)|
                    #[trigger] self.store.has_key(k) ==> store0.has_key(k) || exists|
                        j: int,
                        s1: bool,
                    | m - i <= j < m && #[trigger] half_key(all[j], s1) == k,
                forall|k: (u64, u64)| store0.has_key(k) ==> #[trigger] self.store.has_key(k),
                forall|j: int, s1: bool|
                    m - i <= j < m ==> !store0.has_key(#[trigger] half_key(all[j], s1)),
                forall|j1: int, j2: int, s1: bool, s2: bool|
                    m - i <= j1 < j2 < m ==> #[trigger] half_key(all[j1], s1) != #[trigger] half_key(
                        all[j2],
                        s2,
                    ),
                forall|j: int|
                    m - i <= j < m ==> half_key(#[trigger] all[j], false) != half_key(
                        all[j],
                        true,
                    ),
                self.keyf == old(self).keyf,
                self.limit == old(self).limit,
                self.guard == old(self).guard,
                self.epsabs == old(self).epsabs,
                self.epsrel == old(self).epsrel,
                self.s == old(self).s,
                self.abserr == old(self).abserr,
                self.rounderr == old(self).rounderr,
                self.last == old(self).last,
                self.iroff1 == old(self).iroff1,
                self.iroff2 == old(self).iroff2,
            decreases m - i,
        {
            let e = match pending.pop() {
                Some(e) => e,
                None => {
                    proof {
                        assert(false);
                    }
                    Refined {
                        x: 0,
                        y: 0,
                        mid: 0,
                        res1: Vec::new(),
                        err1: 0,
                        round1: 0,
                        res2: Vec::new(),
                        err2: 0,
                        round2: 0,
                    }
                },
            };
            let ghost j = m - i - 1;
            proof {
                assert(all.take(m - i).last() == all[j]);
                assert(pending@ =~= all.take(m - i - 1));
            }
            let ghost st_pre = self.store;
            let ok = self.stage_halves(e);
            if !ok {
                proof {
                    let k1 = half_key(all[j], false);
                    let k2 = half_key(all[j], true);
                    if is_nan_bits(all[j].err1) || is_nan_bits(all[j].err2) {
                        assert(!batch_clean(store0, all));
                    } else if k1 == k2 {
                        assert(!batch_clean(store0, all));
                    } else {
                        // one of the half keys is live already
                        let hk = if st_pre.has_key(k1) {
                            k1
                        } else {
                            k2
                        };
                        assert(st_pre.has_key(hk));
                        if store0.has_key(hk) {
                            assert(!batch_clean(store0, all));
                        } else {
                            let (j2, s2) = choose|j2: int, s2: bool|
                                m - i <= j2 < m && #[trigger] half_key(all[j2], s2) == hk;
                            assert(j < j2);
                            assert(!batch_clean(store0, all));
                        }
                    }
                }
                return Step::Fail(ResultState::Failure);
            }
            proof {
                lemma_batch_step(store0, st_pre, self.store, all, m as int, i as int);
            }
            i += 1;
        }
        proof {
            assert(batch_clean(store0, all));
        }
        self.s = totals.s;
        self.abserr = totals.abserr;
        self.rounderr = totals.rounderr;
        self.last = self.last + m;
        let last2 = self.last;
        if self.guard {
            let mut close = dle(err_floor, totals.new_err_sum);
            let nd = diffs.len();
            let mut k: usize = 0;
            while k < nd
                invariant
                    nd == diffs@.len(),
                    diffs@.len() == tols@.len(),
                    0 <= k <= nd,
                    close == ((forall|k2: int|
                        0 <= k2 < k ==> ieee_le(mag_of(#[trigger] diffs@[k2]), tols@[k2]))
                        && ieee_le(err_floor, totals.new_err_sum)),
                decreases nd - k,
            {
                if !dle(dabs(diffs[k]), tols[k]) {
                    close = false;
                }
                k += 1;
            }
            if close && self.iroff1 < 6 {
                self.iroff1 = self.iroff1 + 1;
            }
            if last2 > 10 && dlt(totals.err_sum, totals.new_err_sum) && self.iroff2 < 20 {
                self.iroff2 = self.iroff2 + 1;
            }
        }
        let conv = dle(totals.abserr, totals.errbnd_eighth);
        let bad = dlt(totals.abserr, totals.rounderr);
        let at_limit = last2 >= self.limit;
        if conv {
            Step::Converged
        } else if bad || (self.guard && (self.iroff1 >= 6 || self.iroff2 >= 20)) {
            Step::Fail(ResultState::BadTolerance)
        } else if at_limit {
            Step::Fail(ResultState::MaxIteration)
        } else {
            Step::Proceed
        }
    }

    /// Assembles the success payload: the running integral, the total
    /// error `er_sum` (the driver's `abserr + rounderr`), and, when asked,
    /// the diagnostics with the exact evaluation count.
    pub fn finish(self, er_sum: u64, more_info: bool) -> (r: QagVecIntegrationResult)
        requires
            self.wf(),
        ensures
            r.result == self.s,
            r.abserr == er_sum,
            more_info ==> (r.more_info matches Some(m) && m.neval == neval_of(
                self.keyf,
                self.last as int,
            ) && m.last == self.last && m.store == self.store),
            !more_info ==> r.more_info is None,
    {
        let neval = neval_for(self.keyf, self.last);
        if more_info {
            QagVecIntegrationResult::new_more_info(self.s, er_sum, neval, self.last, self.store)
        } else {
            QagVecIntegrationResult::new(self.s, er_sum)
        }
    }
}

/// The sequential adaptive integrator: rule key, subinterval bound, user
/// breakpoints (as bit patterns) and the diagnostics flag.
#[derive(Clone, Debug)]
pub struct Qag {
    pub key: i32,
    pub limit: usize,
    pub points: Vec<u64>,
    pub more_info: bool,
}

impl Qag {
    /// Admissible configuration: a positive bounded limit and no NaN
    /// breakpoint.
    pub open spec fn wf(self) -> bool {
        &&& 1 <= self.limit <= LIMIT_MAX
        &&& forall|i: int| 0 <= i < self.points@.len() ==> !is_nan_bits(#[trigger] self.points@[i])
    }

    /// Opens a session: rejects inadmissible tolerances with `Invalid`,
    /// otherwise hands back the fresh state (sequential policy) and the
    /// initial partition for the driver to evaluate.
    pub fn begin(&self, a: u64, b: u64, epsabs: u64, epsrel: u64) -> (r: Result<
        (EngineState, Vec<(u64, u64)>),
        ResultState,
    >)
        requires
            self.wf(),
        ensures
            r matches Err(st) ==> st == ResultState::Invalid,
            r is Err <==> !valid_tolerances(epsabs, epsrel),
            r matches Ok(p) ==> {
                &&& p.0.wf()
                &&& p.0.keyf == clamped_key(self.key)
                &&& p.0.limit == self.limit
                &&& p.0.guard == false
                &&& p.0.epsabs == epsabs
                &&& p.0.epsrel == epsrel
                &&& p.0.store@.len() == 0
                &&& p.0.last == 1
                &&& p.0.abserr == PLUS_ZERO
                &&& p.0.rounderr == PLUS_ZERO
                &&& p.0.iroff1 == 0
                &&& p.0.iroff2 == 0
                &&& chain_over(p.1@, a, b)
                &&& interior_strict(p.1@, a, b)
                &&& junctions_from(p.1@, self.points@)
                &&& junctions_cover(p.1@, self.points@, a, b)
            },
    {
        if !validate_tolerances(epsabs, epsrel) {
            return Err(ResultState::Invalid);
        }
        let st = EngineState::new(self.key, self.limit, false, epsabs, epsrel);
        let parts = initial_partition(a, b, &self.points);
        Ok((st, parts))
    }
}

/// The parallel adaptive integrator: as [`Qag`], plus the worker count;
/// its sessions run the guarded policy (singularity guard and stagnation
/// counters).
#[derive(Clone, Debug)]
pub struct QagPar {
    pub key: i32,
    pub limit: usize,
    pub points: Vec<u64>,
    pub number_of_thread: usize,
    pub more_info: bool,
}

impl QagPar {
    /// Admissible configuration: a positive bounded limit and no NaN
    /// breakpoint.
    pub open spec fn wf(self) -> bool {
        &&& 1 <= self.limit <= LIMIT_MAX
        &&& forall|i: int| 0 <= i < self.points@.len() ==> !is_nan_bits(#[trigger] self.points@[i])
    }

    /// Opens a session under the guarded policy; otherwise as
    /// [`Qag::begin`].
    pub fn begin(&self, a: u64, b: u64, epsabs: u64, epsrel: u64) -> (r: Result<
        (EngineState, Vec<(u64, u64)>),
        ResultState,
    >)
        requires
            self.wf(),
        ensures
            r matches Err(st) ==> st == ResultState::Invalid,
            r is Err <==> !valid_tolerances(epsabs, epsrel),
            r matches Ok(p) ==> {
                &&& p.0.wf()
                &&& p.0.keyf == clamped_key(self.key)
                &&& p.0.limit == self.limit
                &&& p.0.guard == true
                &&& p.0.epsabs == epsabs
                &&& p.0.epsrel == epsrel
                &&& p.0.store@.len() == 0
                &&& p.0.last == 1
                &&& p.0.abserr == PLUS_ZERO
                &&& p.0.rounderr == PLUS_ZERO
                &&& p.0.iroff1 == 0
                &&& p.0.iroff2 == 0
                &&& chain_over(p.1@, a, b)
                &&& interior_strict(p.1@, a, b)
                &&& junctions_from(p.1@, self.points@)
                &&& junctions_cover(p.1@, self.points@, a, b)
            },
    {
        if !validate_tolerances(epsabs, epsrel) {
            return Err(ResultState::Invalid);
        }
        let st = EngineState::new(self.key, self.limit, true, epsabs, epsrel);
        let parts = initial_partition(a, b, &self.points);
        Ok((st, parts))
    }
}

/// The norm-based parallel integrator of the binding layer: rule key and
/// subinterval bound, no breakpoints, guarded policy.
#[derive(Clone, Debug)]
pub struct QagVecNormPar {
    pub key: i32,
    pub limit: usize,
}

impl QagVecNormPar {
    /// Admissible configuration.
    pub open spec fn wf(self) -> bool {
        1 <= self.limit <= LIMIT_MAX
    }

    /// Opens a session under the guarded policy with no breakpoints: the
    /// initial partition is the whole interval.
    pub fn begin(&self, a: u64, b: u64, epsabs: u64, epsrel: u64) -> (r: Result<
        (EngineState, Vec<(u64, u64)>),
        ResultState,
    >)
        requires
            self.wf(),
        ensures
            r matches Err(st) ==> st == ResultState::Invalid,
            r is Err <==> !valid_tolerances(epsabs, epsrel),
            r matches Ok(p) ==> {
                &&& p.0.wf()
                &&& p.0.keyf == clamped_key(self.key)
                &&& p.0.limit == self.limit
                &&& p.0.guard == true
                &&& p.0.epsabs == epsabs
                &&& p.0.epsrel == epsrel
                &&& p.0.store@.len() == 0
                &&& p.0.last == 1
                &&& p.0.abserr == PLUS_ZERO
                &&& p.0.rounderr == PLUS_ZERO
                &&& p.0.iroff1 == 0
                &&& p.0.iroff2 == 0
                &&& p.1@ =~= seq![(a, b)]
            },
    {
        if !validate_tolerances(epsabs, epsrel) {
            return Err(ResultState::Invalid);
        }
        let st = EngineState::new(self.key, self.limit, true, epsabs, epsrel);
        let mut parts: Vec<(u64, u64)> = Vec::new();
        parts.push((a, b));
        Ok((st, parts))
    }
}

/// One clean staging step keeps the refinement-round invariants: the two
/// fresh halves join the live suffix, everything else is untouched.
#[verifier::rlimit(100)]
proof fn lemma_batch_step(
    store0: IntervalStore,
    pre: IntervalStore,
    post: IntervalStore,
    all: Seq<Refined>,
    m: int,
    i: int,
)
    requires
        m == all.len(),
        0 <= i < m,
        ({
            let j = m - i - 1;
            let k1 = half_key(all[j], false);
            let k2 = half_key(all[j], true);
            &&& forall|jj: int, s1: bool|
                m - i <= jj < m ==> pre.has_key(#[trigger] half_key(all[jj], s1))
            &&& forall|jj: int|
                m - i <= jj < m ==> pre.entry_of(half_key(#[trigger] all[jj], false)) == (SEntry {
                    x: all[jj].x,
                    y: all[jj].mid,
                    err: all[jj].err1,
                    res: all[jj].res1@,
                }) && pre.entry_of(half_key(all[jj], true)) == (SEntry {
                    x: all[jj].mid,
                    y: all[jj].y,
                    err: all[jj].err2,
                    res: all[jj].res2@,
                })
            &&& forall|k: (u64, u64)|
                #[trigger] pre.has_key(k) ==> store0.has_key(k) || exists|j2: int, s1: bool|
                    m - i <= j2 < m && #[trigger] half_key(all[j2], s1) == k
            &&& forall|k: (u64, u64)| store0.has_key(k) ==> #[trigger] pre.has_key(k)
            &&& k1 != k2
            &&& !pre.has_key(k1)
            &&& !pre.has_key(k2)
            &&& post.has_key(k1)
            &&& post.has_key(k2)
            &&& post.entry_of(k1) == (SEntry {
                x: all[j].x,
                y: all[j].mid,
                err: all[j].err1,
                res: all[j].res1@,
            })
            &&& post.entry_of(k2) == (SEntry {
                x: all[j].mid,
                y: all[j].y,
                err: all[j].err2,
                res: all[j].res2@,
            })
            &&& forall|k: (u64, u64)|
                k != k1 && k != k2 ==> #[trigger] post.has_key(k) == pre.has_key(k)
            &&& forall|k: (u64, u64)|
                k != k1 && k != k2 && pre.has_key(k) ==> #[trigger] post.entry_of(k)
                    == pre.entry_of(k)
            &&& forall|jj: int, s1: bool|
                m - i <= jj < m ==> !store0.has_key(#[trigger] half_key(all[jj], s1))
            &&& forall|j1: int, j2: int, s1: bool, s2: bool|
                m - i <= j1 < j2 < m ==> #[trigger] half_key(all[j1], s1) != #[trigger] half_key(
                    all[j2],
                    s2,
                )
            &&& forall|jj: int|
                m - i <= jj < m ==> half_key(#[trigger] all[jj], false) != half_key(all[jj], true)
        }),
    ensures
        forall|jj: int, s1: bool|
            m - i - 1 <= jj < m ==> post.has_key(#[trigger] half_key(all[jj], s1)),
        forall|jj: int|
            m - i - 1 <= jj < m ==> post.entry_of(half_key(#[trigger] all[jj], false)) == (SEntry {
                x: all[jj].x,
                y: all[jj].mid,
                err: all[jj].err1,
                res: all[jj].res1@,
            }) && post.entry_of(half_key(all[jj], true)) == (SEntry {
                x: all[jj].mid,
                y: all[jj].y,
                err: all[jj].err2,
                res: all[jj].res2@,
            }),
        forall|k: (u64, u64)|
            #[trigger] post.has_key(k) ==> store0.has_key(k) || exists|j2: int, s1: bool|
                m - i - 1 <= j2 < m && #[trigger] half_key(all[j2], s1) == k,
        forall|k: (u64, u64)| store0.has_key(k) ==> #[trigger] post.has_key(k),
        forall|jj: int, s1: bool|
            m - i - 1 <= jj < m ==> !store0.has_key(#[trigger] half_key(all[jj], s1)),
        forall|j1: int, j2: int, s1: bool, s2: bool|
            m - i - 1 <= j1 < j2 < m ==> #[trigger] half_key(all[j1], s1) != #[trigger] half_key(
                all[j2],
                s2,
            ),
        forall|jj: int|
            m - i - 1 <= jj < m ==> half_key(#[trigger] all[jj], false) != half_key(all[jj], true),
{
    let j = m - i - 1;
    let k1 = half_key(all[j], false);
    let k2 = half_key(all[j], true);
    assert forall|k: (u64, u64)|
        #[trigger] post.has_key(k) implies store0.has_key(k) || exists|j2: int, s1: bool|
        m - i - 1 <= j2 < m && #[trigger] half_key(all[j2], s1) == k by {
        if k == k1 {
            assert(half_key(all[j], false) == k);
        } else if k == k2 {
            assert(half_key(all[j], true) == k);
        } else {
            assert(pre.has_key(k));
        }
    }
    assert forall|k: (u64, u64)| store0.has_key(k) implies #[trigger] post.has_key(k) by {
        assert(pre.has_key(k));
        assert(k != k1 && k != k2);
    }
    assert forall|jj: int, s1: bool|
        m - i - 1 <= jj < m implies post.has_key(#[trigger] half_key(all[jj], s1)) by {
        if jj != j {
            assert(pre.has_key(half_key(all[jj], s1)));
            assert(half_key(all[jj], s1) != k1 && half_key(all[jj], s1) != k2);
        }
    }
    assert forall|jj: int|
        m - i - 1 <= jj < m implies post.entry_of(half_key(#[trigger] all[jj], false)) == (SEntry {
        x: all[jj].x,
        y: all[jj].mid,
        err: all[jj].err1,
        res: all[jj].res1@,
    }) && post.entry_of(half_key(all[jj], true)) == (SEntry {
        x: all[jj].mid,
        y: all[jj].y,
        err: all[jj].err2,
        res: all[jj].res2@,
    }) by {
        if jj != j {
            assert(pre.has_key(half_key(all[jj], false)));
            assert(pre.has_key(half_key(all[jj], true)));
            assert(half_key(all[jj], false) != k1 && half_key(all[jj], false) != k2);
            assert(half_key(all[jj], true) != k1 && half_key(all[jj], true) != k2);
        }
    }
    assert forall|jj: int, s1: bool|
        m - i - 1 <= jj < m implies !store0.has_key(#[trigger] half_key(all[jj], s1)) by {
        if jj == j {
            if store0.has_key(half_key(all[jj], s1)) {
                assert(pre.has_key(half_key(all[jj], s1)));
            }
        }
    }
    assert forall|j1: int, j2: int, s1: bool, s2: bool|
        m - i - 1 <= j1 < j2 < m implies #[trigger] half_key(all[j1], s1) != #[trigger] half_key(
        all[j2],
        s2,
    ) by {
        if j1 == j {
            assert(pre.has_key(half_key(all[j2], s2)));
        }
    }
}

} // verus!
