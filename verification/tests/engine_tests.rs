//! Drives the engine with real floating-point arithmetic: Gauss-Kronrod
//! rule evaluation, accumulator sums and norms happen here, while every
//! decision is taken by the verified engine.

use quad::engine::{BatchTotals, DomainKind, Eval, EngineState, Qag, QagPar, Refined, Step};
use quad::result::ResultState;
use quad::rules::{Qk41, Qk61VecNorm2};

fn to_f64(v: &[u64]) -> Vec<f64> {
    v.iter().map(|b| f64::from_bits(*b)).collect()
}

fn to_bits_vec(v: &[f64]) -> Vec<u64> {
    v.iter().map(|x| x.to_bits()).collect()
}

fn norm_vec(v: &[f64]) -> f64 {
    let mut norm = 0.0;
    for comp in v {
        norm += comp * comp;
    }
    norm.sqrt()
}

fn tables(keyf: i32) -> (Vec<f64>, Vec<f64>, Vec<f64>) {
    let (x, wk, wg) = match keyf {
        1 => (quad::rules::xgk15(), quad::rules::wgk15(), quad::rules::wg15()),
        2 => (quad::rules::xgk21(), quad::rules::wgk21(), quad::rules::wg21()),
        3 => (quad::rules::xgk31(), quad::rules::wgk31(), quad::rules::wg31()),
        4 => (Qk41::xgk(), Qk41::wgk(), Qk41::wg()),
        5 => (quad::rules::xgk51(), quad::rules::wgk51(), quad::rules::wg51()),
        6 => (Qk61VecNorm2::xgk(), Qk61VecNorm2::wgk(), Qk61VecNorm2::wg()),
        _ => panic!("rule keys are clamped into 1..=6"),
    };
    (to_f64(&x), to_f64(&wk), to_f64(&wg))
}

/// One Gauss-Kronrod evaluation of a vector integrand over `[a, b]`:
/// returns the per-component estimates, the smoothed error estimate and
/// the roundoff estimate (Euclidean norms over components).
fn qk_eval(
    xgk: &[f64],
    wgk: &[f64],
    wg: &[f64],
    f: &dyn Fn(f64) -> Vec<f64>,
    a: f64,
    b: f64,
) -> (Vec<f64>, f64, f64) {
    let m = xgk.len() - 1;
    let centr = 0.5 * (a + b);
    let hlgth = 0.5 * (b - a);
    let dhlgth = hlgth.abs();
    let fc = f(centr);
    let n = fc.len();
    // the embedded Gauss rule owns the centre exactly when it has an odd
    // point count, in which case its weight list has one extra entry
    let gauss_center = wg.len() > m / 2;
    let mut fv1 = vec![vec![0.0; n]; m];
    let mut fv2 = vec![vec![0.0; n]; m];
    let mut resk: Vec<f64> = fc.iter().map(|v| wgk[m] * v).collect();
    let mut resabs: Vec<f64> = fc.iter().map(|v| wgk[m] * v.abs()).collect();
    let mut resg = vec![0.0; n];
    if gauss_center {
        for k in 0..n {
            resg[k] = wg[wg.len() - 1] * fc[k];
        }
    }
    for j in 0..m {
        let absc = hlgth * xgk[j];
        let f1 = f(centr - absc);
        let f2 = f(centr + absc);
        for k in 0..n {
            let fsum = f1[k] + f2[k];
            resk[k] += wgk[j] * fsum;
            resabs[k] += wgk[j] * (f1[k].abs() + f2[k].abs());
            if j % 2 == 1 {
                resg[k] += wg[j / 2] * fsum;
            }
        }
        fv1[j] = f1;
        fv2[j] = f2;
    }
    let reskh: Vec<f64> = resk.iter().map(|v| 0.5 * v).collect();
    let mut resasc = vec![0.0; n];
    for k in 0..n {
        resasc[k] = wgk[m] * (fc[k] - reskh[k]).abs();
        for j in 0..m {
            resasc[k] += wgk[j] * ((fv1[j][k] - reskh[k]).abs() + (fv2[j][k] - reskh[k]).abs());
        }
    }
    let result: Vec<f64> = resk.iter().map(|v| v * hlgth).collect();
    let epmach = f64::EPSILON;
    let uflow = f64::MIN_POSITIVE;
    let mut errs = vec![0.0; n];
    let mut rounds = vec![0.0; n];
    for k in 0..n {
        let ra = resabs[k] * dhlgth;
        let rs = resasc[k] * dhlgth;
        let mut err = ((resk[k] - resg[k]) * hlgth).abs();
        if rs != 0.0 && err != 0.0 {
            err = rs * 1.0f64.min((200.0 * err / rs).powf(1.5));
        }
        let round = 50.0 * epmach * ra;
        if ra > uflow / (50.0 * epmach) {
            err = err.max(round);
        }
        errs[k] = err;
        rounds[k] = round;
    }
    (result, norm_vec(&errs), norm_vec(&rounds))
}

type Diagnostics = Option<(i32, usize, Vec<(f64, f64, f64, Vec<f64>)>)>;

fn finishup(st: EngineState, er: f64, more_info: bool) -> Result<(Vec<f64>, f64, Diagnostics), ResultState> {
    let res = st.finish(er.to_bits(), more_info);
    let result = to_f64(&res.result);
    let ab = f64::from_bits(res.abserr);
    let mi = match res.more_info {
        None => None,
        Some(mut m) => {
            let list = m.store.drain();
            let items: Vec<(f64, f64, f64, Vec<f64>)> = list
                .into_iter()
                .map(|p| {
                    (
                        f64::from_bits(p.x),
                        f64::from_bits(p.y),
                        f64::from_bits(p.err),
                        to_f64(&p.res),
                    )
                })
                .collect();
            Some((m.neval, m.last, items))
        }
    };
    Ok((result, ab, mi))
}

/// The refinement loop over a finite interval: the engine decides, this
/// driver computes.
#[allow(clippy::too_many_arguments)]
fn core_integrate(
    f: &dyn Fn(f64) -> Vec<f64>,
    a: f64,
    b: f64,
    epsabs: f64,
    epsrel: f64,
    key: i32,
    limit: usize,
    points: &[f64],
    more_info: bool,
    guard: bool,
) -> Result<(Vec<f64>, f64, Diagnostics), ResultState> {
    let pb = to_bits_vec(points);
    let begun = if guard {
        let q = QagPar { key, limit, points: pb, number_of_thread: 1, more_info };
        q.begin(a.to_bits(), b.to_bits(), epsabs.to_bits(), epsrel.to_bits())
    } else {
        let q = Qag { key, limit, points: pb, more_info };
        q.begin(a.to_bits(), b.to_bits(), epsabs.to_bits(), epsrel.to_bits())
    };
    let (mut st, parts) = match begun {
        Ok(p) => p,
        Err(state) => return Err(state),
    };
    let (xg, wk, wg) = tables(quad::rules::clamp_key(key));

    let mut s: Vec<f64> = Vec::new();
    let mut e = 0.0;
    let mut r = 0.0;
    let mut n = 0usize;
    let mut evals = Vec::new();
    for (i, (xb, yb)) in parts.iter().enumerate() {
        let (res, ab, ro) = qk_eval(&xg, &wk, &wg, f, f64::from_bits(*xb), f64::from_bits(*yb));
        if ab.is_nan() {
            panic!("NaN error estimate");
        }
        if i == 0 {
            n = res.len();
            s = vec![0.0; n];
        }
        for k in 0..n {
            s[k] += res[k];
        }
        e += ab;
        r += ro;
        evals.push(Eval {
            x: *xb,
            y: *yb,
            result: to_bits_vec(&res),
            abserr: ab.to_bits(),
            rounderr: ro.to_bits(),
        });
    }
    if st.seed(evals, to_bits_vec(&s), e.to_bits(), r.to_bits()).is_err() {
        panic!("interval store invariant violated");
    }
    let mut errbnd = epsabs.max(epsrel * norm_vec(&s));
    match st.assess_seed((epsrel * norm_vec(&s)).to_bits(), (e + r).to_bits()) {
        Step::Converged => return finishup(st, e + r, more_info),
        Step::Fail(state) => return Err(state),
        Step::Proceed => {}
    }
    loop {
        let mut batch_meta: Vec<(f64, f64)> = Vec::new();
        let mut err_sum = 0.0;
        let mut old_sum = vec![0.0; n];
        loop {
            if st.store.len() == 0 {
                break;
            }
            let p = st.pop_next();
            let x = f64::from_bits(p.x);
            let y = f64::from_bits(p.y);
            if guard {
                let mid = 0.5 * (x + y);
                let rhs =
                    (1.0 + 100.0 * f64::EPSILON) * (mid.abs() + 1000.0 * f64::MIN_POSITIVE);
                if st.guard_violation(p.x, p.y, rhs.to_bits()) {
                    return Err(ResultState::BadFunction);
                }
            }
            err_sum += f64::from_bits(p.err);
            for k in 0..n {
                old_sum[k] += f64::from_bits(p.res[k]);
            }
            batch_meta.push((x, y));
            let threshold = e - errbnd / 8.0;
            if st.batch_should_stop(batch_meta.len(), err_sum.to_bits(), threshold.to_bits()) {
                break;
            }
        }
        let mut batch: Vec<Refined> = Vec::new();
        let mut new_sum = vec![0.0; n];
        let mut new_err_sum = 0.0;
        let mut new_round_sum = 0.0;
        for (x, y) in &batch_meta {
            let mid = 0.5 * (x + y);
            let (r1, e1, o1) = qk_eval(&xg, &wk, &wg, f, *x, mid);
            let (r2, e2, o2) = qk_eval(&xg, &wk, &wg, f, mid, *y);
            if e1.is_nan() || e2.is_nan() {
                panic!("NaN error estimate");
            }
            for k in 0..n {
                new_sum[k] += r1[k] + r2[k];
            }
            new_err_sum += e1 + e2;
            new_round_sum += o1 + o2;
            batch.push(Refined {
                x: x.to_bits(),
                y: y.to_bits(),
                mid: mid.to_bits(),
                res1: to_bits_vec(&r1),
                err1: e1.to_bits(),
                round1: o1.to_bits(),
                res2: to_bits_vec(&r2),
                err2: e2.to_bits(),
                round2: o2.to_bits(),
            });
        }
        let mut diffs = Vec::new();
        let mut tols = Vec::new();
        for k in 0..n {
            diffs.push((old_sum[k] - new_sum[k]).to_bits());
            tols.push((0.00001 * new_sum[k].abs()).to_bits());
        }
        let err_floor = 0.99 * err_sum;
        for k in 0..n {
            s[k] = s[k] - old_sum[k] + new_sum[k];
        }
        e = e - err_sum + new_err_sum;
        r += new_round_sum;
        errbnd = epsabs.max(epsrel * norm_vec(&s));
        let totals = BatchTotals {
            s: to_bits_vec(&s),
            abserr: e.to_bits(),
            rounderr: r.to_bits(),
            errbnd_eighth: (errbnd / 8.0).to_bits(),
            err_sum: err_sum.to_bits(),
            new_err_sum: new_err_sum.to_bits(),
        };
        match st.apply_batch(batch, totals, diffs, tols, err_floor.to_bits()) {
            Step::Converged => return finishup(st, e + r, more_info),
            Step::Proceed => {}
            Step::Fail(state) => {
                if matches!(state, ResultState::Failure) {
                    panic!("interval store invariant violated");
                }
                return Err(state);
            }
        }
    }
}

/// Entry point with the domain transforms: infinite intervals are mapped
/// onto a finite image before the engine runs. The rule abscissae are
/// interior, so the removed endpoint of the substitution is never
/// evaluated.
#[allow(clippy::too_many_arguments)]
fn integrate(
    f: &dyn Fn(f64) -> Vec<f64>,
    a: f64,
    b: f64,
    epsabs: f64,
    epsrel: f64,
    key: i32,
    limit: usize,
    points: &[f64],
    more_info: bool,
    guard: bool,
) -> Result<(Vec<f64>, f64, Diagnostics), ResultState> {
    match quad::engine::classify_domain(a.to_bits(), b.to_bits()) {
        DomainKind::Finite => {
            core_integrate(f, a, b, epsabs, epsrel, key, limit, points, more_info, guard)
        }
        DomainKind::UpperInfinite => {
            let tp: Vec<f64> = points.iter().map(|p| 1.0 / (p - a + 1.0)).collect();
            let g = |t: f64| -> Vec<f64> {
                let x = a + (1.0 - t) / t;
                f(x).iter().map(|v| v / (t * t)).collect()
            };
            core_integrate(&g, 0.0, 1.0, epsabs, epsrel, key, limit, &tp, more_info, guard)
        }
        DomainKind::LowerInfinite => {
            let tp: Vec<f64> = points.iter().map(|p| 1.0 / (b - p + 1.0)).collect();
            let g = |t: f64| -> Vec<f64> {
                let x = b - (1.0 - t) / t;
                f(x).iter().map(|v| v / (t * t)).collect()
            };
            core_integrate(&g, 0.0, 1.0, epsabs, epsrel, key, limit, &tp, more_info, guard)
        }
        DomainKind::DoubleInfinite => {
            let tp: Vec<f64> = points.iter().map(|p| p / (1.0 + p.abs())).collect();
            let g = |t: f64| -> Vec<f64> {
                let u = 1.0 - t.abs();
                let x = t / u;
                f(x).iter().map(|v| v / (u * u)).collect()
            };
            core_integrate(&g, -1.0, 1.0, epsabs, epsrel, key, limit, &tp, more_info, guard)
        }
    }
}

#[test]
fn qk61_vec_norm2_test() {}

#[test]
fn scenario_cos() {
    let f = |x: f64| vec![x.cos()];
    let (res, abserr, _) =
        integrate(&f, 0.0, 1.0, 1e-10, 1e-10, 6, 1000000, &[], false, false).unwrap();
    assert!((res[0] - 1.0f64.sin()).abs() < 1e-12);
    assert!(abserr >= 0.0);
}

#[test]
fn scenario_runge() {
    let f = |x: f64| vec![1.0 / (1.0 + x * x)];
    let (res, _, _) =
        integrate(&f, -1.0, 1.0, 1e-10, 1e-10, 6, 1000000, &[], false, false).unwrap();
    assert!((res[0] - std::f64::consts::FRAC_PI_2).abs() < 1e-12);
}

#[test]
fn scenario_exp_semi_infinite() {
    let f = |x: f64| vec![(-x).exp()];
    let (res, _, _) =
        integrate(&f, 0.0, f64::INFINITY, 1e-10, 1e-10, 6, 1000000, &[], false, false).unwrap();
    assert!((res[0] - 1.0).abs() < 1e-10);
}

#[test]
fn scenario_gauss_double_infinite() {
    let f = |x: f64| vec![(-(x * x)).exp()];
    let (res, _, _) = integrate(
        &f,
        f64::NEG_INFINITY,
        f64::INFINITY,
        1e-10,
        1e-10,
        6,
        1000000,
        &[],
        false,
        false,
    )
    .unwrap();
    assert!((res[0] - std::f64::consts::PI.sqrt()).abs() < 1e-10);
}

#[test]
fn scenario_sinc_with_breakpoints() {
    let f = |x: f64| vec![if x == 0.0 { 1.0 } else { x.sin() / x }];
    let (res, _, _) = integrate(
        &f,
        0.0,
        10000.0,
        1e-10,
        1e-10,
        6,
        1000000,
        &[2000.0, 5000.0, 7000.0],
        false,
        false,
    )
    .unwrap();
    assert!((res[0] - 1.5707585).abs() < 1e-3);
}

#[test]
fn scenario_vector_components() {
    let f = |x: f64| vec![x.cos(), x.sin()];
    let (res, _, _) = integrate(
        &f,
        0.0,
        std::f64::consts::PI,
        1e-10,
        1e-10,
        6,
        1000000,
        &[],
        false,
        false,
    )
    .unwrap();
    assert!(res[0].abs() < 1e-12);
    assert!((res[1] - 2.0).abs() < 1e-12);
}

#[test]
fn guarded_engine_matches_plain_engine() {
    let f = |x: f64| vec![(3.0 * x).sin() + x];
    let r1 = integrate(&f, 0.0, 4.0, 1e-10, 1e-10, 3, 1000000, &[], false, false).unwrap();
    let r2 = integrate(&f, 0.0, 4.0, 1e-10, 1e-10, 3, 1000000, &[], false, true).unwrap();
    assert!((r1.0[0] - r2.0[0]).abs() < 1e-9);
    let exact = (1.0 - (12.0f64).cos()) / 3.0 + 8.0;
    assert!((r1.0[0] - exact).abs() < 1e-9);
}

// The running integral equals the sum over the live partition, up to
// roundoff drift that grows with the subinterval count.
#[test]
fn sum_matches_partition() {
    let f = |x: f64| vec![(50.0 * x).sin()];
    let (res, _, mi) =
        integrate(&f, 0.0, 2.0, 1e-12, 1e-12, 1, 1000000, &[], true, false).unwrap();
    let (_neval, last, items) = mi.unwrap();
    assert!(!items.is_empty());
    let mut total = 0.0;
    for (_x, _y, _err, r) in &items {
        total += r[0];
    }
    let drift = f64::EPSILON * (last as f64) * (1.0 + res[0].abs());
    assert!((res[0] - total).abs() <= drift);
}

// The reported partition comes out in non-increasing error order, and its
// pieces chain across the domain.
#[test]
fn diagnostics_order_non_increasing() {
    let f = |x: f64| vec![(50.0 * x).sin()];
    let (_, _, mi) = integrate(&f, 0.0, 2.0, 1e-12, 1e-12, 1, 1000000, &[], true, false).unwrap();
    let (_, _, items) = mi.unwrap();
    for w in items.windows(2) {
        assert!(w[1].2 <= w[0].2);
    }
}

// Success is only reported when the error total meets the target with its
// safety margin.
#[test]
fn success_meets_error_target() {
    let f = |x: f64| vec![(20.0 * x).cos() * x];
    let epsabs = 1e-9;
    let epsrel = 1e-9;
    let (res, abserr, _) =
        integrate(&f, 0.0, 3.0, epsabs, epsrel, 6, 1000000, &[], false, false).unwrap();
    let errbnd = epsabs.max(epsrel * norm_vec(&res));
    assert!(abserr <= 8.0 * errbnd);
}

#[test]
fn linearity_of_the_integral() {
    let f = |x: f64| vec![x.cos()];
    let g = |x: f64| vec![x.sin()];
    let h = |x: f64| vec![2.0 * x.cos() + 3.0 * x.sin()];
    let (rf, ef, _) = integrate(&f, 0.0, 1.0, 1e-11, 1e-11, 6, 1000000, &[], false, false).unwrap();
    let (rg, eg, _) = integrate(&g, 0.0, 1.0, 1e-11, 1e-11, 6, 1000000, &[], false, false).unwrap();
    let (rh, eh, _) = integrate(&h, 0.0, 1.0, 1e-11, 1e-11, 6, 1000000, &[], false, false).unwrap();
    let combined = 2.0 * ef + 3.0 * eg + eh + 1e-12;
    assert!((rh[0] - (2.0 * rf[0] + 3.0 * rg[0])).abs() <= combined);
}

#[test]
fn additivity_over_a_split_point() {
    let f = |x: f64| vec![(7.0 * x).sin() + 1.0];
    let (rab, eab, _) =
        integrate(&f, 0.0, 2.0, 1e-11, 1e-11, 6, 1000000, &[], false, false).unwrap();
    let (rac, eac, _) =
        integrate(&f, 0.0, 0.7, 1e-11, 1e-11, 6, 1000000, &[], false, false).unwrap();
    let (rcb, ecb, _) =
        integrate(&f, 0.7, 2.0, 1e-11, 1e-11, 6, 1000000, &[], false, false).unwrap();
    let combined = eab + eac + ecb + 1e-12;
    assert!((rab[0] - (rac[0] + rcb[0])).abs() <= combined);
}

#[test]
fn breakpoint_on_visited_subdivision_is_neutral() {
    // the first bisection of [0, 2] visits 1.0, so handing 1.0 as a
    // breakpoint must not move the result beyond the absolute target
    let f = |x: f64| vec![(50.0 * x).sin()];
    let epsabs = 1e-8;
    let (r1, _, _) = integrate(&f, 0.0, 2.0, epsabs, 0.0, 1, 1000000, &[], false, false).unwrap();
    let (r2, _, _) =
        integrate(&f, 0.0, 2.0, epsabs, 0.0, 1, 1000000, &[1.0], false, false).unwrap();
    assert!((r1[0] - r2[0]).abs() <= epsabs);
}

#[test]
fn zero_tolerances_are_invalid() {
    let f = |x: f64| vec![x.cos()];
    let r = integrate(&f, 0.0, 1.0, 0.0, 0.0, 6, 50, &[], false, false);
    assert!(matches!(r, Err(ResultState::Invalid)));
}

#[test]
fn equal_endpoints_succeed_trivially() {
    let f = |x: f64| vec![x.cos()];
    let (res, abserr, mi) =
        integrate(&f, 2.5, 2.5, 1e-10, 1e-10, 6, 50, &[], true, false).unwrap();
    assert_eq!(res[0], 0.0);
    assert_eq!(abserr, 0.0);
    let (_, last, _) = mi.unwrap();
    assert_eq!(last, 1);
}

#[test]
fn limit_one_fails_on_nontrivial_integrand() {
    let f = |x: f64| vec![(50.0 * x).sin()];
    let r = integrate(&f, 0.0, 2.0, 1e-12, 1e-12, 1, 1, &[], false, false);
    assert!(matches!(r, Err(ResultState::MaxIteration)));
}

#[test]
fn duplicate_and_outside_breakpoints_are_ignored() {
    let f = |x: f64| vec![x * x];
    let (r1, _, _) = integrate(&f, 0.0, 3.0, 1e-12, 1e-12, 4, 1000000, &[], false, false).unwrap();
    let (r2, _, _) = integrate(
        &f,
        0.0,
        3.0,
        1e-12,
        1e-12,
        4,
        1000000,
        &[1.0, 1.0, -5.0, 7.5, 2.0, 2.0],
        false,
        false,
    )
    .unwrap();
    assert!((r1[0] - 9.0).abs() < 1e-10);
    assert!((r2[0] - 9.0).abs() < 1e-10);
}

#[test]
fn bad_function_on_pathological_integrand() {
    // an integrable singularity at an irrational point drives bisection
    // to the floating-point resolution limit; the guarded engine detects
    // it before the partition degenerates
    let c = std::f64::consts::FRAC_1_SQRT_2;
    let f = |x: f64| vec![1.0 / (x - c).abs().sqrt()];
    let r = integrate(&f, 0.0, 1.0, 1e-300, 0.0, 1, 1000000, &[], false, true);
    assert!(matches!(r, Err(ResultState::BadFunction)));
}

#[test]
fn every_rule_key_integrates() {
    for key in 1..=6 {
        let f = |x: f64| vec![x.cos()];
        let (res, _, _) =
            integrate(&f, 0.0, 1.0, 1e-10, 1e-10, key, 1000000, &[], false, false).unwrap();
        assert!((res[0] - 1.0f64.sin()).abs() < 1e-12, "key {}", key);
    }
}
