use npcore::cache::PredCache;
use npcore::condensation;
use npcore::expansion;
use npcore::fp;
use npcore::ipm::{self, IpmError};
use npcore::matrix::Matrix;
use npcore::npag::{Verdict, NPAG};
use npcore::scenario::{Event, EventKind, Scenario};
use npcore::settings::{Config, Error, Paths, Random, Settings, SettingsError};

fn bits(values: &[f64]) -> Vec<u64> {
    values.iter().map(|v| v.to_bits()).collect()
}

fn matrix_of(rows: &[&[f64]], ncols: usize) -> Matrix {
    let rows: Vec<Vec<u64>> = rows.iter().map(|r| bits(r)).collect();
    Matrix::from_rows(rows, ncols).expect("rectangular rows")
}

fn scenario_one_obs(id: &str) -> Scenario {
    let events = vec![
        Event {
            time: 0.0f64.to_bits(),
            kind: EventKind::Bolus,
            amount: Some(100.0f64.to_bits()),
            duration: None,
            input: Some(1),
            outeq: None,
            observed: None,
        },
        Event {
            time: 2.0f64.to_bits(),
            kind: EventKind::Observation,
            amount: None,
            duration: None,
            input: None,
            outeq: Some(1),
            observed: Some(1.5f64.to_bits()),
        },
    ];
    Scenario::new(id.to_string(), events).expect("well-formed record")
}

fn test_settings(cycles: usize) -> Settings {
    Settings {
        paths: Paths { data: "data.csv".to_string(), log: None, prior: None },
        config: Config {
            cycles,
            engine: "NPAG".to_string(),
            seed: 347,
            init_points: 4,
            tui: false,
            output: false,
            cache: true,
            idelta: 0.12f64.to_bits(),
            log_level: "info".to_string(),
            exclude: None,
            tad: 0.0f64.to_bits(),
        },
        random: Random {
            parameters: vec![("ke".to_string(), (0.0f64.to_bits(), 1.0f64.to_bits()))],
        },
        fixed: None,
        constant: None,
        error: Error {
            value: 0.1f64.to_bits(),
            class: "proportional".to_string(),
            poly: (
                0.02f64.to_bits(),
                0.05f64.to_bits(),
                0.0f64.to_bits(),
                0.0f64.to_bits(),
            ),
        },
    }
}

fn fresh_engine(cycles: usize) -> NPAG {
    let ranges = vec![(0.0f64.to_bits(), 1.0f64.to_bits())];
    let theta = matrix_of(&[&[0.25], &[0.75]], 1);
    let scenarios = vec![scenario_one_obs("a"), scenario_one_obs("b")];
    let c = (
        0.02f64.to_bits(),
        0.05f64.to_bits(),
        0.0f64.to_bits(),
        0.0f64.to_bits(),
    );
    NPAG::new(ranges, theta, scenarios, c, test_settings(cycles)).expect("valid settings")
}

#[test]
fn scenario_collects_observations() {
    let s = scenario_one_obs("subject");
    assert_eq!(s.obs, vec![1.5f64.to_bits()]);
    assert_eq!(s.obs_times, vec![2.0f64.to_bits()]);
    assert_eq!(s.nobs(), 1);
}

#[test]
fn scenario_rejects_observation_without_value() {
    let events = vec![Event {
        time: 1.0f64.to_bits(),
        kind: EventKind::Observation,
        amount: None,
        duration: None,
        input: None,
        outeq: Some(1),
        observed: None,
    }];
    assert!(Scenario::new("bad".to_string(), events).is_none());
}

#[test]
fn ipm_rejects_zero_row() {
    let psi = matrix_of(&[&[0.0, -0.0], &[0.3, 0.4]], 2);
    match ipm::validate_psi(&psi) {
        Err(IpmError::ZeroRow { row }) => assert_eq!(row, 0),
        _ => panic!("a zero row must be refused"),
    }
}

#[test]
fn ipm_accepts_positive_rows() {
    let psi = matrix_of(&[&[1.0, 0.0, 0.0], &[0.0, 1.0, 0.0], &[0.0, 0.0, 1.0]], 3);
    assert!(ipm::validate_psi(&psi).is_ok());
}

#[test]
fn weight_pruning_keeps_and_is_idempotent() {
    let lambda = bits(&[0.7, 0.0000005, 0.3]);
    let max = f64::from_bits(fp::max_bits(&lambda));
    let threshold = (max / 1000.0).to_bits();
    let keep = condensation::keep_indices(&lambda, threshold);
    assert_eq!(keep, vec![0usize, 2usize]);
    // A second pass over the survivors keeps everything: the maximum
    // survived, so the recomputed threshold is unchanged.
    let survivors: Vec<u64> = keep.iter().map(|&i| lambda[i]).collect();
    let max_again = f64::from_bits(fp::max_bits(&survivors));
    assert_eq!(max_again, max);
    let keep_again = condensation::keep_indices(&survivors, (max_again / 1000.0).to_bits());
    assert_eq!(keep_again, vec![0usize, 1usize]);
}

#[test]
fn qr_selection_drops_dependent_pivot() {
    // A duplicated column shows up as a vanishing diagonal ratio at its
    // pivot position: exactly one of the duplicates is retained.
    let perm: Vec<usize> = vec![1, 0, 2];
    let ratios = bits(&[1.0, 0.5, 1.0e-12]);
    let keep = condensation::qr_keep(&perm, &ratios, 3, npcore::npag::QR_TOLERANCE_BITS);
    assert_eq!(keep, vec![1usize, 0usize]);
}

#[test]
fn expansion_around_center_of_unit_box() {
    let ranges = vec![(0.0f64.to_bits(), 1.0f64.to_bits()), (0.0f64.to_bits(), 1.0f64.to_bits())];
    let mut theta = matrix_of(&[&[0.5, 0.5]], 2);
    let point = bits(&[0.5, 0.5]);
    let eps = 0.2f64;
    let min_dist = npcore::npag::THETA_D_BITS;
    for axis in 0..2usize {
        let span = 1.0f64;
        let base = 0.5f64;
        for value in [base + eps * span, base - eps * span] {
            // Scaled L1 distances of the candidate to every current row.
            let mut dists: Vec<u64> = Vec::new();
            for i in 0..theta.nrows() {
                let mut d = 0.0f64;
                for k in 0..2usize {
                    let cand = if k == axis { value } else { f64::from_bits(point[k]) };
                    d += (f64::from_bits(theta.get(i, k)) - cand).abs() / span;
                }
                dists.push(d.to_bits());
            }
            let ok = expansion::try_extend(
                &mut theta,
                &ranges,
                &point,
                axis,
                value.to_bits(),
                &dists,
                min_dist,
            );
            assert!(ok, "candidate on axis {} at {} must be accepted", axis, value);
        }
    }
    assert_eq!(theta.nrows(), 5);
    let expected = [
        bits(&[0.7, 0.5]),
        bits(&[0.3, 0.5]),
        bits(&[0.5, 0.7]),
        bits(&[0.5, 0.3]),
    ];
    for (t, row) in expected.iter().enumerate() {
        assert_eq!(&theta.row(t + 1), row);
    }
}

#[test]
fn expansion_rejects_out_of_box_and_close_candidates() {
    let ranges = vec![(0.0f64.to_bits(), 1.0f64.to_bits())];
    let mut theta = matrix_of(&[&[0.9]], 1);
    let point = bits(&[0.9]);
    // Out of the box above: 0.9 + 0.2.
    let dists = bits(&[0.2]);
    let out = expansion::try_extend(
        &mut theta,
        &ranges,
        &point,
        0,
        (0.9f64 + 0.2).to_bits(),
        &dists,
        npcore::npag::THETA_D_BITS,
    );
    assert!(!out);
    // Too close: within the minimum-distance guard.
    let tiny = bits(&[0.00005]);
    let close = expansion::try_extend(
        &mut theta,
        &ranges,
        &point,
        0,
        (0.9f64 - 0.00005).to_bits(),
        &tiny,
        npcore::npag::THETA_D_BITS,
    );
    assert!(!close);
    assert_eq!(theta.nrows(), 1);
}

#[test]
fn cache_hits_are_bitwise_and_distinct_bits_miss() {
    let mut cache = PredCache::new();
    let point = bits(&[0.1, 0.2]);
    let pred = bits(&[3.25, 0.5]);
    cache.insert(0, point.clone(), pred.clone());
    assert_eq!(cache.get(0, &point), Some(&pred));
    // The bits of a recomputed coordinate differ: the cache must miss.
    let near = vec![(0.1f64 + 1e-17).to_bits(), 0.2f64.to_bits()];
    assert_ne!(near[0], point[0]);
    assert_eq!(cache.get(0, &near), None);
    assert_eq!(cache.get(1, &point), None);
    // The first stored prediction wins for an occupied key.
    cache.insert(0, point.clone(), bits(&[9.0, 9.0]));
    assert_eq!(cache.get(0, &point), Some(&pred));
}

#[test]
fn engine_refuses_unknown_error_class() {
    let ranges = vec![(0.0f64.to_bits(), 1.0f64.to_bits())];
    let theta = matrix_of(&[&[0.5]], 1);
    let mut settings = test_settings(10);
    settings.error.class = "poisson".to_string();
    match NPAG::new(ranges, theta, vec![], (0, 0, 0, 0), settings) {
        Err(SettingsError::UnknownErrorClass) => {},
        _ => panic!("an unknown error class is a fatal configuration error"),
    }
}

#[test]
fn one_cycle_keeps_support_weights_aligned() {
    let mut engine = fresh_engine(10);
    assert_eq!(engine.cycle, 1);
    assert_eq!(engine.eps, 0.2f64.to_bits());
    assert_eq!(engine.objf, f64::INFINITY.to_bits());
    let psi = matrix_of(&[&[0.8, 0.1], &[0.2, 0.9]], 2);
    engine.set_psi(psi);
    engine.set_lambda(bits(&[0.6, 0.4]));
    let threshold = (0.6f64 / 1000.0).to_bits();
    let kept = engine.prune_by_weight(threshold);
    assert_eq!(kept, vec![0usize, 1usize]);
    let perm: Vec<usize> = vec![0, 1];
    let ratios = bits(&[1.0, 0.4]);
    let kept = engine.prune_by_qr(&perm, &ratios);
    assert_eq!(kept, vec![0usize, 1usize]);
    engine.set_solution(bits(&[0.55, 0.45]), (-10.0f64).to_bits());
    engine.commit_weights();
    assert_eq!(engine.w, bits(&[0.55, 0.45]));
    assert_eq!(engine.theta.nrows(), engine.psi.ncols());
    assert_eq!(engine.w.len(), engine.psi.ncols());
    let snapshot = engine.cycle_snapshot(0.5f64.to_bits());
    assert_eq!(snapshot.objf, 20.0f64.to_bits());
    assert_eq!(snapshot.nspp, 2);
    engine.log_cycle(snapshot);
    assert_eq!(engine.cycle_log.cycles.len(), 1);
}

#[test]
fn weight_pruning_drops_light_support_points() {
    let mut engine = fresh_engine(10);
    engine.set_psi(matrix_of(&[&[0.8, 0.0001], &[0.2, 0.0001]], 2));
    engine.set_lambda(bits(&[0.9999, 0.0001]));
    let threshold = (0.9999f64 / 1000.0).to_bits();
    let kept = engine.prune_by_weight(threshold);
    assert_eq!(kept, vec![0usize]);
    assert_eq!(engine.theta.nrows(), 1);
    assert_eq!(engine.psi.ncols(), 1);
    assert_eq!(engine.theta.get(0, 0), 0.25f64.to_bits());
}

#[test]
fn gamma_search_prefers_down_move_when_both_improve() {
    let mut engine = fresh_engine(10);
    engine.set_psi(matrix_of(&[&[0.8], &[0.2]], 1));
    engine.set_lambda(bits(&[1.0]));
    engine.set_solution(bits(&[1.0]), 1.0f64.to_bits());
    let up_psi = matrix_of(&[&[0.81], &[0.21]], 1);
    let down_psi = matrix_of(&[&[0.79], &[0.19]], 1);
    engine.gamma_step(
        0.11f64.to_bits(),
        bits(&[1.0]),
        2.0f64.to_bits(),
        up_psi,
        0.09f64.to_bits(),
        bits(&[1.0]),
        3.0f64.to_bits(),
        down_psi,
    );
    assert_eq!(engine.gamma, 0.09f64.to_bits());
    assert_eq!(engine.objf, 3.0f64.to_bits());
    // Two adoptions quadruple delta twice; the step then halves it.
    assert_eq!(engine.gamma_delta, (0.1f64 * 4.0 * 4.0 * 0.5).to_bits());
}

#[test]
fn gamma_search_adopts_up_move_alone() {
    let mut engine = fresh_engine(10);
    engine.set_psi(matrix_of(&[&[0.8], &[0.2]], 1));
    engine.set_lambda(bits(&[1.0]));
    engine.set_solution(bits(&[1.0]), 1.0f64.to_bits());
    let up_psi = matrix_of(&[&[0.81], &[0.21]], 1);
    let down_psi = matrix_of(&[&[0.79], &[0.19]], 1);
    engine.gamma_step(
        0.11f64.to_bits(),
        bits(&[1.0]),
        2.0f64.to_bits(),
        up_psi,
        0.09f64.to_bits(),
        bits(&[1.0]),
        1.5f64.to_bits(),
        down_psi,
    );
    assert_eq!(engine.gamma, 0.11f64.to_bits());
    assert_eq!(engine.objf, 2.0f64.to_bits());
    // One adoption quadruples delta; the step then halves it.
    assert_eq!(engine.gamma_delta, (0.1f64 * 4.0 * 0.5).to_bits());
}

#[test]
fn gamma_search_keeps_state_when_neither_improves() {
    let mut engine = fresh_engine(10);
    engine.set_psi(matrix_of(&[&[0.8], &[0.2]], 1));
    engine.set_lambda(bits(&[1.0]));
    engine.set_solution(bits(&[1.0]), 5.0f64.to_bits());
    let up_psi = matrix_of(&[&[0.81], &[0.21]], 1);
    let down_psi = matrix_of(&[&[0.79], &[0.19]], 1);
    engine.gamma_step(
        0.11f64.to_bits(),
        bits(&[1.0]),
        4.0f64.to_bits(),
        up_psi,
        0.09f64.to_bits(),
        bits(&[1.0]),
        4.5f64.to_bits(),
        down_psi,
    );
    assert_eq!(engine.gamma, 0.1f64.to_bits());
    assert_eq!(engine.objf, 5.0f64.to_bits());
    assert_eq!(engine.gamma_delta, (0.1f64 * 0.5).to_bits());
}

#[test]
fn delta_resets_at_its_floor() {
    let mut engine = fresh_engine(10);
    engine.set_psi(matrix_of(&[&[0.8], &[0.2]], 1));
    engine.set_lambda(bits(&[1.0]));
    engine.set_solution(bits(&[1.0]), 5.0f64.to_bits());
    // Four searches without improvement halve delta each time:
    // one tenth, then a twentieth, a fortieth, an eightieth; the fourth
    // halving lands at or below one hundredth and resets to one tenth.
    let mut expected = 0.1f64;
    for _ in 0..4 {
        let up_psi = matrix_of(&[&[0.81], &[0.21]], 1);
        let down_psi = matrix_of(&[&[0.79], &[0.19]], 1);
        engine.gamma_step(
            0.11f64.to_bits(),
            bits(&[1.0]),
            4.0f64.to_bits(),
            up_psi,
            0.09f64.to_bits(),
            bits(&[1.0]),
            4.0f64.to_bits(),
            down_psi,
        );
        expected *= 0.5;
        if expected <= 0.01 {
            expected = 0.1;
        }
        assert_eq!(engine.gamma_delta, expected.to_bits());
    }
    assert_eq!(engine.gamma_delta, 0.1f64.to_bits());
}

#[test]
fn stop_request_ends_run_unconverged() {
    // A stop requested during the fourth cycle ends the run at that cycle
    // boundary with the converged flag down.
    let mut engine = fresh_engine(100);
    let big_change = 1.0f64.to_bits();
    let f1 = (-3.0f64).to_bits();
    let big_f_delta = 1.0f64.to_bits();
    for _ in 0..3 {
        let verdict = engine.advance(big_change, f1, big_f_delta, false);
        assert_eq!(verdict, Verdict::Continue);
    }
    assert_eq!(engine.cycle, 4);
    let verdict = engine.advance(big_change, f1, big_f_delta, true);
    assert_eq!(verdict, Verdict::Stopped);
    assert_eq!(engine.cycle, 4);
    assert!(!engine.converged);
    let result = engine.to_npresult();
    assert_eq!(result.cycles, 4);
    assert!(!result.converged);
}

#[test]
fn cycle_cap_ends_run_unconverged() {
    let mut engine = fresh_engine(3);
    let big_change = 1.0f64.to_bits();
    let f1 = (-3.0f64).to_bits();
    let big_f_delta = 1.0f64.to_bits();
    assert_eq!(engine.advance(big_change, f1, big_f_delta, false), Verdict::Continue);
    assert_eq!(engine.advance(big_change, f1, big_f_delta, false), Verdict::Continue);
    assert_eq!(engine.advance(big_change, f1, big_f_delta, false), Verdict::MaxCycles);
    assert_eq!(engine.cycle, 3);
    assert!(!engine.converged);
}

#[test]
fn eps_floor_without_f_criterion_resets_eps() {
    // Small objective changes halve eps each cycle; reaching the floor with
    // a large log-marginal change moves the anchor and resets eps.
    let mut engine = fresh_engine(1000);
    let tiny_change = 1.0e-6f64.to_bits();
    let f1 = (-3.0f64).to_bits();
    let big_f_delta = 1.0f64.to_bits();
    let mut eps = 0.2f64;
    for _ in 0..10 {
        assert_eq!(engine.advance(tiny_change, f1, big_f_delta, false), Verdict::Continue);
        eps /= 2.0;
        assert_eq!(engine.eps, eps.to_bits());
    }
    // The eleventh shrink crosses the floor: not converged, so eps resets.
    assert_eq!(engine.advance(tiny_change, f1, big_f_delta, false), Verdict::Continue);
    assert_eq!(engine.eps, 0.2f64.to_bits());
    assert_eq!(engine.f0, f1);
    assert_eq!(engine.f1, f1);
    assert!(!engine.converged);
}

#[test]
fn eps_floor_with_f_criterion_converges() {
    let mut engine = fresh_engine(1000);
    let tiny_change = 1.0e-6f64.to_bits();
    let f1 = (-3.0f64).to_bits();
    let tiny_f_delta = 1.0e-3f64.to_bits();
    for _ in 0..10 {
        assert_eq!(engine.advance(tiny_change, f1, tiny_f_delta, false), Verdict::Continue);
    }
    let verdict = engine.advance(tiny_change, f1, tiny_f_delta, false);
    assert_eq!(verdict, Verdict::Converged);
    assert!(engine.converged);
    assert!(!engine.keep_running());
    assert_eq!(engine.f1, f1);
    // The radius stays at the floor value it was halved to; it is not reset.
    let mut floor_eps = 0.2f64;
    for _ in 0..11 {
        floor_eps /= 2.0;
    }
    assert_eq!(engine.eps, floor_eps.to_bits());
}

#[test]
fn objective_decrease_is_visible() {
    let mut engine = fresh_engine(10);
    engine.set_psi(matrix_of(&[&[0.8], &[0.2]], 1));
    engine.set_lambda(bits(&[1.0]));
    engine.set_solution(bits(&[1.0]), (-10.0f64).to_bits());
    assert!(!engine.objf_decreased());
    let big_change = 1.0f64.to_bits();
    assert_eq!(
        engine.advance(big_change, (-3.0f64).to_bits(), 1.0f64.to_bits(), false),
        Verdict::Continue
    );
    engine.set_solution(bits(&[1.0]), (-11.0f64).to_bits());
    assert!(engine.objf_decreased());
}
