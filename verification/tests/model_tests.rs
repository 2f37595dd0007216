//! Holds the bit-pattern model against real IEEE-754 doubles, and the
//! store, rule and result types against their contracts.

use quad::dbits;
use quad::engine;
use quad::result::{Qag1DVecIntegratorResult, QagVecIntegrationResult, ResultState};
use quad::rules::{Qk41, Qk61VecNorm2};
use quad::store::IntervalStore;

fn samples() -> Vec<f64> {
    vec![
        0.0,
        -0.0,
        1.0,
        -1.0,
        1.5,
        -2.25,
        f64::MIN_POSITIVE,
        -f64::MIN_POSITIVE,
        5e-324,
        -5e-324,
        f64::MAX,
        f64::MIN,
        f64::INFINITY,
        f64::NEG_INFINITY,
        f64::EPSILON,
        1e300,
        -1e300,
        3.141592653589793,
    ]
}

#[test]
fn bit_comparisons_match_ieee() {
    let vals = samples();
    for &x in &vals {
        for &y in &vals {
            let xb = x.to_bits();
            let yb = y.to_bits();
            assert_eq!(dbits::dlt(xb, yb), x < y, "lt {} {}", x, y);
            assert_eq!(dbits::dle(xb, yb), x <= y, "le {} {}", x, y);
            assert_eq!(dbits::deq(xb, yb), x == y, "eq {} {}", x, y);
            assert_eq!(f64::from_bits(dbits::dmax(xb, yb)), x.max(y), "max {} {}", x, y);
        }
        assert_eq!(f64::from_bits(dbits::dabs(x.to_bits())), x.abs());
        assert_eq!(dbits::dis_finite(x.to_bits()), x.is_finite());
        assert!(!dbits::dis_nan(x.to_bits()));
    }
    let nb = f64::NAN.to_bits();
    assert!(dbits::dis_nan(nb));
    for &x in &vals {
        assert!(!dbits::dlt(nb, x.to_bits()));
        assert!(!dbits::dlt(x.to_bits(), nb));
        assert!(!dbits::dle(x.to_bits(), nb));
        assert!(!dbits::deq(nb, nb));
        // f64::max ignores the NaN operand
        assert_eq!(f64::from_bits(dbits::dmax(nb, x.to_bits())), x);
        assert_eq!(f64::from_bits(dbits::dmax(x.to_bits(), nb)), x);
    }
}

#[test]
fn machine_constants_match() {
    assert_eq!(dbits::EPMACH, f64::EPSILON.to_bits());
    assert_eq!(dbits::UFLOW, f64::MIN_POSITIVE.to_bits());
    assert_eq!(dbits::EPSREL_FLOOR, (0.5e-28f64.max(50.0 * f64::EPSILON)).to_bits());
    assert_eq!(dbits::POS_INF, f64::INFINITY.to_bits());
    assert_eq!(dbits::NEG_INF, f64::NEG_INFINITY.to_bits());
    assert_eq!(engine::ONE_BITS, 1.0f64.to_bits());
    assert_eq!(engine::NEG_ONE_BITS, (-1.0f64).to_bits());
}

// Pop order is non-increasing in the error estimate, and each pop removes
// the cache entry under the popped key exactly once.
#[test]
fn store_pop_order_and_cache_removal() {
    let mut st = IntervalStore::new();
    let entries: [(f64, f64, f64); 6] = [
        (0.0, 1.0, 0.25),
        (1.0, 2.0, 0.75),
        (2.0, 3.0, 0.5),
        (3.0, 4.0, 0.75),
        (4.0, 5.0, 0.0),
        (5.0, 6.0, 1e-300),
    ];
    for (i, (x, y, err)) in entries.iter().enumerate() {
        st.push(x.to_bits(), y.to_bits(), err.to_bits(), vec![(i as f64).to_bits()]);
    }
    assert_eq!(st.len(), entries.len());
    for (x, y, _) in &entries {
        assert!(st.contains_key(x.to_bits(), y.to_bits()));
    }
    let mut popped = Vec::new();
    while !st.is_empty() {
        let before = st.len();
        let p = st.pop_max();
        // the cache entry under the popped key is removed with the pop
        assert!(!st.contains_key(p.x, p.y));
        assert_eq!(st.len(), before - 1);
        popped.push(f64::from_bits(p.err));
    }
    for w in popped.windows(2) {
        assert!(w[1] <= w[0]);
    }
    assert_eq!(popped.len(), entries.len());
    assert_eq!(popped[0], 0.75);
    assert_eq!(popped[5], 0.0);
}

#[test]
fn store_drain_lists_decreasing() {
    let mut st = IntervalStore::new();
    for i in 0..10u32 {
        let x = i as f64;
        let err = ((i * 7 % 10) as f64) / 10.0;
        st.push(x.to_bits(), (x + 1.0).to_bits(), err.to_bits(), vec![0]);
    }
    let items = st.drain();
    assert_eq!(items.len(), 10);
    assert!(st.is_empty());
    for w in items.windows(2) {
        assert!(f64::from_bits(w[1].err) <= f64::from_bits(w[0].err));
    }
}

// Interval keys are the raw bit patterns: the two zeros are distinct keys.
#[test]
fn store_keys_are_bit_exact() {
    let mut st = IntervalStore::new();
    st.push(0.0f64.to_bits(), 1.0f64.to_bits(), 0.5f64.to_bits(), vec![1]);
    assert!(st.contains_key(0.0f64.to_bits(), 1.0f64.to_bits()));
    assert!(!st.contains_key((-0.0f64).to_bits(), 1.0f64.to_bits()));
    st.push((-0.0f64).to_bits(), 1.0f64.to_bits(), 0.25f64.to_bits(), vec![2]);
    assert_eq!(st.len(), 2);
}

#[test]
fn rule_key_clamping() {
    assert_eq!(quad::rules::clamp_key(-3), 1);
    assert_eq!(quad::rules::clamp_key(0), 1);
    assert_eq!(quad::rules::clamp_key(1), 1);
    assert_eq!(quad::rules::clamp_key(4), 4);
    assert_eq!(quad::rules::clamp_key(6), 6);
    assert_eq!(quad::rules::clamp_key(7), 6);
    assert_eq!(quad::rules::clamp_key(100), 6);
}

#[test]
fn evaluation_count_formulas() {
    assert_eq!(quad::rules::neval_for(1, 1), 45);
    assert_eq!(quad::rules::neval_for(1, 10), 315);
    assert_eq!(quad::rules::neval_for(2, 1), 21);
    assert_eq!(quad::rules::neval_for(6, 1), 61);
    assert_eq!(quad::rules::neval_for(6, 5), 61 * 9);
}

fn check_table(xgk: &[u64], wgk: &[u64], wg: &[u64], points: usize) {
    let m = points / 2;
    assert_eq!(xgk.len(), m + 1);
    assert_eq!(wgk.len(), m + 1);
    let x: Vec<f64> = xgk.iter().map(|b| f64::from_bits(*b)).collect();
    let wk: Vec<f64> = wgk.iter().map(|b| f64::from_bits(*b)).collect();
    let wgs: Vec<f64> = wg.iter().map(|b| f64::from_bits(*b)).collect();
    assert_eq!(*x.last().unwrap(), 0.0);
    for w in x.windows(2) {
        assert!(w[1] < w[0]);
    }
    for v in &x[..m] {
        assert!(0.0 < *v && *v < 1.0);
    }
    for w in wk.iter().chain(wgs.iter()) {
        assert!(*w > 0.0);
    }
    // the Kronrod weights integrate the constant one exactly over [-1, 1]
    let ksum: f64 = 2.0 * wk[..m].iter().sum::<f64>() + wk[m];
    assert!((ksum - 2.0).abs() < 1e-13);
    // so do the embedded Gauss weights
    let gauss_center = wgs.len() > m / 2;
    let gsum: f64 = if gauss_center {
        2.0 * wgs[..wgs.len() - 1].iter().sum::<f64>() + wgs[wgs.len() - 1]
    } else {
        2.0 * wgs.iter().sum::<f64>()
    };
    assert!((gsum - 2.0).abs() < 1e-13);
}

#[test]
fn rule_tables_are_consistent() {
    check_table(&quad::rules::xgk15(), &quad::rules::wgk15(), &quad::rules::wg15(), 15);
    check_table(&quad::rules::xgk21(), &quad::rules::wgk21(), &quad::rules::wg21(), 21);
    check_table(&quad::rules::xgk31(), &quad::rules::wgk31(), &quad::rules::wg31(), 31);
    check_table(&Qk41::xgk(), &Qk41::wgk(), &Qk41::wg(), 41);
    check_table(&quad::rules::xgk51(), &quad::rules::wgk51(), &quad::rules::wg51(), 51);
    check_table(&Qk61VecNorm2::xgk(), &Qk61VecNorm2::wgk(), &Qk61VecNorm2::wg(), 61);
}

#[test]
fn rule_tables_match_published_coefficients() {
    // spot checks, bit for bit
    let x61 = Qk61VecNorm2::xgk();
    assert_eq!(x61[0], 0.999484410050490637571325895705811f64.to_bits());
    assert_eq!(x61[29], 0.051471842555317695833025213166723f64.to_bits());
    let w61 = Qk61VecNorm2::wgk();
    assert_eq!(w61[30], 0.051494729429451567558340433647099f64.to_bits());
    let g61 = Qk61VecNorm2::wg();
    assert_eq!(g61[14], 0.102852652893558840341285636705415f64.to_bits());
    let x15 = quad::rules::xgk15();
    assert_eq!(x15[0], 0.991455371120812639206854697526329f64.to_bits());
    let w15 = quad::rules::wgk15();
    assert_eq!(w15[7], 0.209482141084727828012999174891714f64.to_bits());
    let x41 = Qk41::xgk();
    assert_eq!(x41[0], 0.998859031588277663838315576545863f64.to_bits());
    let x31 = quad::rules::xgk31();
    assert_eq!(x31[0], 0.998002298693397060285172840152271f64.to_bits());
    // the 21-point rule interleaves the 10-point Gauss nodes with the
    // added Kronrod nodes
    let x21 = quad::rules::xgk21();
    assert_eq!(x21[0], 0.995657163025808080735527280689003f64.to_bits());
    assert_eq!(x21[1], 0.973906528517171720077964012084452f64.to_bits());
    assert_eq!(x21[9], 0.148874338981631210884826001129720f64.to_bits());
    let w21 = quad::rules::wgk21();
    assert_eq!(w21[0], 0.011694638867371874278064396062192f64.to_bits());
    assert_eq!(w21[10], 0.149445554002916905664936468389821f64.to_bits());
    let g21 = quad::rules::wg21();
    assert_eq!(g21[0], 0.066671344308688137593568809893332f64.to_bits());
    assert_eq!(g21[4], 0.295524224714752870173892994651338f64.to_bits());
}

#[test]
fn tolerance_validation() {
    let floor = 0.5e-28f64.max(50.0 * f64::EPSILON);
    assert!(!engine::validate_tolerances(0.0f64.to_bits(), 0.0f64.to_bits()));
    assert!(!engine::validate_tolerances((-1.0f64).to_bits(), (floor / 2.0).to_bits()));
    assert!(engine::validate_tolerances(1e-10f64.to_bits(), 0.0f64.to_bits()));
    assert!(engine::validate_tolerances(0.0f64.to_bits(), floor.to_bits()));
    assert!(engine::validate_tolerances(0.0f64.to_bits(), 1e-8f64.to_bits()));
}

#[test]
fn domain_classification() {
    let inf = f64::INFINITY.to_bits();
    let ninf = f64::NEG_INFINITY.to_bits();
    let one = 1.0f64.to_bits();
    let zero = 0.0f64.to_bits();
    assert_eq!(engine::classify_domain(zero, one), engine::DomainKind::Finite);
    assert_eq!(engine::classify_domain(zero, inf), engine::DomainKind::UpperInfinite);
    assert_eq!(engine::classify_domain(ninf, one), engine::DomainKind::LowerInfinite);
    assert_eq!(engine::classify_domain(ninf, inf), engine::DomainKind::DoubleInfinite);
    assert_eq!(engine::classify_domain(one, zero), engine::DomainKind::Finite);
}

#[test]
fn integrator_result_wrapping() {
    let ok = Qag1DVecIntegratorResult::new(1.5f64.to_bits(), 1e-10f64.to_bits(), 61, 1);
    assert!(matches!(ok.result_state, ResultState::Success));
    let payload = ok.unwrap();
    assert_eq!(f64::from_bits(payload.result), 1.5);
    assert_eq!(payload.neval, 61);
    assert_eq!(payload.last, 1);

    let bad = Qag1DVecIntegratorResult::new_error(ResultState::MaxIteration);
    assert!(matches!(bad.result_state, ResultState::MaxIteration));
    assert_eq!(bad.integration_result.result, 0);
    assert_eq!(bad.integration_result.neval, 0);
}

#[test]
fn vec_result_wrapping() {
    let r = QagVecIntegrationResult::new(vec![1.0f64.to_bits()], 1e-9f64.to_bits());
    assert!(r.more_info.is_none());
    let e = QagVecIntegrationResult::new_error();
    assert_eq!(e.result.len(), 1);
    assert_eq!(f64::from_bits(e.result[0]), 0.0);
    assert_eq!(f64::from_bits(e.abserr), 0.0);
}

#[test]
fn bad_tolerance_when_roundoff_dominates() {
    let mut st = quad::engine::EngineState::new(
        6,
        50,
        false,
        1e-12f64.to_bits(),
        0.0f64.to_bits(),
    );
    st.abserr = 1e-20f64.to_bits();
    st.rounderr = 1e-10f64.to_bits();
    // total error above the target, more than one subinterval allowed,
    // roundoff above the error estimate: the tolerance cannot be met
    let d = st.assess_seed(0.0f64.to_bits(), 1e-10f64.to_bits());
    assert!(matches!(
        d,
        quad::engine::Step::Fail(ResultState::BadTolerance)
    ));
}

#[test]
fn singularity_guard_detects_resolution_limit() {
    let st = quad::engine::EngineState::new(6, 50, true, 1e-12f64.to_bits(), 0.0f64.to_bits());
    let x = 0.7071067811865476f64;
    let y = x + f64::EPSILON;
    let mid = 0.5 * (x + y);
    let rhs = (1.0 + 100.0 * f64::EPSILON) * (mid.abs() + 1000.0 * f64::MIN_POSITIVE);
    assert!(st.guard_violation(x.to_bits(), y.to_bits(), rhs.to_bits()));
    // a wide interval passes the guard
    let rhs2 = (1.0 + 100.0 * f64::EPSILON) * (0.5 + 1000.0 * f64::MIN_POSITIVE);
    assert!(!st.guard_violation(0.0f64.to_bits(), 1.0f64.to_bits(), rhs2.to_bits()));
}

#[test]
fn converged_final_round_is_success() {
    let mut st = quad::engine::EngineState::new(6, 2, false, 1e-6f64.to_bits(), 0.0f64.to_bits());
    let seed = vec![quad::engine::Eval {
        x: 0.0f64.to_bits(),
        y: 1.0f64.to_bits(),
        result: vec![1.0f64.to_bits()],
        abserr: 0.5f64.to_bits(),
        rounderr: 0.0f64.to_bits(),
    }];
    st.seed(seed, vec![1.0f64.to_bits()], 0.5f64.to_bits(), 0.0f64.to_bits()).unwrap();
    assert!(matches!(
        st.assess_seed(0.0f64.to_bits(), 0.5f64.to_bits()),
        quad::engine::Step::Proceed
    ));
    let p = st.pop_next();
    assert_eq!(f64::from_bits(p.err), 0.5);
    let batch = vec![quad::engine::Refined {
        x: 0.0f64.to_bits(),
        y: 1.0f64.to_bits(),
        mid: 0.5f64.to_bits(),
        res1: vec![0.5f64.to_bits()],
        err1: 1e-8f64.to_bits(),
        round1: 0.0f64.to_bits(),
        res2: vec![0.5f64.to_bits()],
        err2: 1e-8f64.to_bits(),
        round2: 0.0f64.to_bits(),
    }];
    let totals = quad::engine::BatchTotals {
        s: vec![1.0f64.to_bits()],
        abserr: 2e-8f64.to_bits(),
        rounderr: 0.0f64.to_bits(),
        errbnd_eighth: (1e-6f64 / 8.0).to_bits(),
        err_sum: 0.5f64.to_bits(),
        new_err_sum: 2e-8f64.to_bits(),
    };
    // the round both converges and exhausts the two-subinterval budget:
    // convergence wins
    let d = st.apply_batch(batch, totals, vec![], vec![], 0.0f64.to_bits());
    assert!(matches!(d, quad::engine::Step::Converged));
    assert_eq!(st.last, 2);
}
