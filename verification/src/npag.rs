//! The nonparametric adaptive grid driver: the engine's per-cycle state
//! machine.
//!
//! Each cycle the numeric host predicts, builds Ψ, solves the weight
//! subproblem, factorizes for the rank-revealing stage and evaluates the
//! γ line-search candidates; this module owns the state and makes every
//! decision — which support points survive, whether a γ move is adopted, how
//! ε and δ evolve, and when the run converges, hits its cycle cap or stops.
//! All scalar comparisons and the exact power-of-two scalings of ε and δ are
//! verified against the bit-level value model.

use crate::condensation;
use crate::expansion::all_in_box;
use crate::fp;
use crate::matrix::{copy_vec, Matrix};
use crate::scenario::Scenario;
use crate::settings::{Settings, SettingsError};
use crate::sigma::ErrorType;
use vstd::prelude::*;

verus! {

/// Bits of θ_E, the ε floor (one ten-thousandth).
pub const THETA_E_BITS: u64 = 0x3f1a_36e2_eb1c_432d;

/// Bits of θ_G, the objective-convergence tolerance (one ten-thousandth).
pub const THETA_G_BITS: u64 = 0x3f1a_36e2_eb1c_432d;

/// Bits of θ_F, the log-marginal convergence tolerance (one hundredth).
pub const THETA_F_BITS: u64 = 0x3f84_7ae1_47ae_147b;

/// Bits of θ_D, the minimum-distance guard (one ten-thousandth).
pub const THETA_D_BITS: u64 = 0x3f1a_36e2_eb1c_432d;

/// Bits of the rank-revealing ratio tolerance (ten to the minus eight).
pub const QR_TOLERANCE_BITS: u64 = 0x3e45_798e_e230_8c3a;

/// Bits of the initial expansion radius ε (one fifth).
pub const EPS_INIT_BITS: u64 = 0x3fc9_9999_9999_999a;

/// Bits of the initial γ search step δ (one tenth).
pub const DELTA_INIT_BITS: u64 = 0x3fb9_9999_9999_999a;

/// Bits of the δ reset floor (one hundredth).
pub const DELTA_FLOOR_BITS: u64 = 0x3f84_7ae1_47ae_147b;

/// Bits of the objective sentinel the run starts from (a large negative
/// value, minus ten to the thirtieth).
pub const NEG_HUGE_BITS: u64 = 0xc629_3e59_39a0_8cea;

/// δ stays usable as a search step: not NaN, and with an exponent large
/// enough that halving it stays exact (it never leaves this region: it is
/// reset once it compares at or below its floor).
pub open spec fn delta_wf(d: u64) -> bool {
    !fp::is_nan(d) && fp::exp_of(d) >= 1015
}

/// Field facts about the engine's scalar constants.
proof fn lemma_constants()
    ensures
        fp::sign_of(THETA_E_BITS) == 0,
        fp::exp_of(THETA_E_BITS) == 1009,
        !fp::is_nan(THETA_E_BITS),
        fp::sign_of(EPS_INIT_BITS) == 0,
        fp::exp_of(EPS_INIT_BITS) == 1020,
        fp::is_finite(EPS_INIT_BITS),
        !fp::is_nan(EPS_INIT_BITS),
        fp::f_lt(THETA_E_BITS, EPS_INIT_BITS),
        fp::exp_of(DELTA_INIT_BITS) == 1019,
        !fp::is_nan(DELTA_INIT_BITS),
        fp::sign_of(DELTA_FLOOR_BITS) == 0,
        fp::exp_of(DELTA_FLOOR_BITS) == 1016,
        !fp::is_nan(DELTA_FLOOR_BITS),
        !fp::is_nan(NEG_HUGE_BITS),
        fp::is_finite(NEG_HUGE_BITS),
{
    assert((0x3f1a_36e2_eb1c_432du64 >> 63) == 0) by (bit_vector);
    assert(((0x3f1a_36e2_eb1c_432du64 >> 52) & 0x7ff) == 1009) by (bit_vector);
    assert((0x3fc9_9999_9999_999au64 >> 63) == 0) by (bit_vector);
    assert(((0x3fc9_9999_9999_999au64 >> 52) & 0x7ff) == 1020) by (bit_vector);
    assert(((0x3fb9_9999_9999_999au64 >> 52) & 0x7ff) == 1019) by (bit_vector);
    assert((0x3f84_7ae1_47ae_147bu64 >> 63) == 0) by (bit_vector);
    assert(((0x3f84_7ae1_47ae_147bu64 >> 52) & 0x7ff) == 1016) by (bit_vector);
    assert(((0xc629_3e59_39a0_8ceau64 >> 52) & 0x7ff) == 1122) by (bit_vector);
    assert((0x3f1a_36e2_eb1c_432du64 & 0x7fff_ffff_ffff_ffff) < (0x3fc9_9999_9999_999au64
        & 0x7fff_ffff_ffff_ffff)) by (bit_vector);
    fp::lemma_mag_mono(THETA_E_BITS, EPS_INIT_BITS);
}

/// One cycle's progress snapshot.
pub struct NPCycle {
    pub cycle: usize,
    /// Minus two times the objective value, as a double's bits.
    pub objf: u64,
    /// The magnitude of the objective change, as a double's bits.
    pub delta_objf: u64,
    /// Number of support points.
    pub nspp: usize,
    pub theta: Matrix,
    /// The current γ (or λ) scale, as a double's bits.
    pub gamlam: u64,
}

/// The cycle history: parameter names and one snapshot per cycle.
pub struct CycleLog {
    pub names: Vec<String>,
    pub cycles: Vec<NPCycle>,
}

impl CycleLog {
    pub fn new(names: Vec<String>) -> (r: CycleLog)
        ensures
            r.names@ == names@,
            r.cycles@.len() == 0,
    {
        CycleLog { names, cycles: Vec::new() }
    }

    pub fn push(&mut self, entry: NPCycle)
        ensures
            final(self).names@ == old(self).names@,
            final(self).cycles@ == old(self).cycles@.push(entry),
    {
        self.cycles.push(entry);
    }
}

/// How a cycle ended.
#[derive(Clone, Copy, Debug, PartialEq, Eq, Structural)]
pub enum Verdict {
    /// Expand the grid and run another cycle.
    Continue,
    /// The run converged.
    Converged,
    /// The cycle cap was reached without convergence.
    MaxCycles,
    /// A stop was requested; the run ends at this cycle boundary.
    Stopped,
}

/// The outcome of a run.
pub struct NPResult {
    /// Final support points.
    pub theta: Matrix,
    /// Final likelihood matrix.
    pub psi: Matrix,
    /// Final weights.
    pub w: Vec<u64>,
    /// Minus two times the final objective value, as a double's bits.
    pub objf: u64,
    /// The cycle the run ended in.
    pub cycles: usize,
    pub converged: bool,
}

/// The NPAG engine state.
pub struct NPAG {
    /// Per-parameter (lower, upper) bounds, as doubles' bits.
    pub ranges: Vec<(u64, u64)>,
    /// Likelihoods: one row per subject, one column per support point.
    pub psi: Matrix,
    /// Support points: one row per point, one column per parameter.
    pub theta: Matrix,
    /// The weight solver's latest output.
    pub lambda: Vec<u64>,
    /// The reported weights.
    pub w: Vec<u64>,
    /// Expansion radius ε, as a double's bits.
    pub eps: u64,
    /// Objective value of the previous cycle, as a double's bits.
    pub last_objf: u64,
    /// Objective value of this cycle, as a double's bits.
    pub objf: u64,
    /// Log-marginal sum at the last ε floor, as a double's bits.
    pub f0: u64,
    /// Log-marginal sum at this ε floor, as a double's bits.
    pub f1: u64,
    pub cycle: usize,
    /// γ search step δ, as a double's bits.
    pub gamma_delta: u64,
    /// Error-model scale γ, as a double's bits.
    pub gamma: u64,
    pub error_type: ErrorType,
    pub converged: bool,
    pub cycle_log: CycleLog,
    pub cache: bool,
    pub scenarios: Vec<Scenario>,
    /// Error polynomial coefficients, as doubles' bits.
    pub c: (u64, u64, u64, u64),
    pub settings: Settings,
}

impl NPAG {
    /// The state invariant: the support matrix is rectangular, matches the
    /// parameter count, stays in the box, and ε and δ stay usable.
    pub open spec fn wf(&self) -> bool {
        &&& self.theta.wf()
        &&& self.theta.ncols == self.ranges@.len()
        &&& all_in_box(&self.theta, self.ranges@)
        &&& self.psi.wf()
        &&& fp::is_finite(self.eps) && !fp::is_nan(self.eps)
        &&& delta_wf(self.gamma_delta)
    }

    /// Support and likelihoods are aligned: one Ψ column per support point,
    /// one Ψ row per subject, one weight per column.
    pub open spec fn aligned(&self) -> bool {
        &&& self.psi.ncols == self.theta.rows@.len()
        &&& self.psi.rows@.len() == self.scenarios@.len()
        &&& self.lambda@.len() == self.psi.ncols
    }

    /// The support count, the likelihood column count and the weight count
    /// coincide whenever the state is aligned and the weights have been
    /// committed from the solver's output.
    pub proof fn lemma_support_alignment(&self)
        requires
            self.aligned(),
            self.w@.len() == self.lambda@.len(),
        ensures
            self.theta.rows@.len() == self.psi.ncols,
            self.psi.ncols == self.w@.len(),
    {
    }

    /// Every support point lies within the configured box bounds: box
    /// membership is part of the state invariant, established at construction
    /// and preserved by condensation and expansion.
    pub proof fn lemma_support_in_box(&self)
        requires
            self.wf(),
        ensures
            all_in_box(&self.theta, self.ranges@),
    {
    }

    /// Builds the initial engine state. The error class must name one of the
    /// two supported models (in any ASCII case); anything else is a fatal
    /// configuration error.
    pub fn new(
        ranges: Vec<(u64, u64)>,
        theta: Matrix,
        scenarios: Vec<Scenario>,
        c: (u64, u64, u64, u64),
        settings: Settings,
    ) -> (r: Result<NPAG, SettingsError>)
        requires
            theta.wf(),
            theta.ncols == ranges@.len(),
            all_in_box(&theta, ranges@),
        ensures
            match r {
                Ok(n) => {
                    &&& n.wf()
                    &&& n.ranges@ == ranges@
                    &&& n.theta == theta
                    &&& n.scenarios@ == scenarios@
                    &&& n.c == c
                    &&& n.psi.rows@.len() == 0
                    &&& n.lambda@.len() == 0
                    &&& n.w@.len() == 0
                    &&& n.eps == EPS_INIT_BITS
                    &&& n.last_objf == NEG_HUGE_BITS
                    &&& n.objf == fp::INF_BITS
                    &&& n.f0 == NEG_HUGE_BITS
                    &&& n.f1 == fp::ZERO_BITS
                    &&& n.cycle == 1
                    &&& n.gamma_delta == DELTA_INIT_BITS
                    &&& n.gamma == settings.error.value
                    &&& (n.error_type == ErrorType::Add <==> crate::sigma::ascii_eq_nocase(
                        settings.error.class@,
                        "additive"@,
                    ))
                    &&& n.converged == false
                    &&& n.cache == settings.config.cache
                    &&& n.cycle_log.cycles@.len() == 0
                    &&& n.settings == settings
                },
                Err(e) => {
                    &&& e == SettingsError::UnknownErrorClass
                    &&& !crate::sigma::ascii_eq_nocase(settings.error.class@, "additive"@)
                    &&& !crate::sigma::ascii_eq_nocase(settings.error.class@, "proportional"@)
                },
            },
    {
        let error_type = match ErrorType::from_class(settings.error.class.as_str()) {
            Some(t) => t,
            None => {
                return Err(SettingsError::UnknownErrorClass);
            },
        };
        proof {
            lemma_constants();
        }
        let names = settings.random.names();
        let gamma = settings.error.value;
        let cache = settings.config.cache;
        Ok(
            NPAG {
                ranges,
                psi: Matrix::empty(0),
                theta,
                lambda: Vec::new(),
                w: Vec::new(),
                eps: EPS_INIT_BITS,
                last_objf: NEG_HUGE_BITS,
                objf: fp::INF_BITS,
                f0: NEG_HUGE_BITS,
                f1: fp::ZERO_BITS,
                cycle: 1,
                gamma_delta: DELTA_INIT_BITS,
                gamma,
                error_type,
                converged: false,
                cycle_log: CycleLog::new(names),
                cache,
                scenarios,
                c,
                settings,
            },
        )
    }

    /// Installs the likelihood matrix the host built for the current support.
    pub fn set_psi(&mut self, psi: Matrix)
        requires
            old(self).wf(),
            psi.wf(),
            psi.ncols == old(self).theta.rows@.len(),
            psi.rows@.len() == old(self).scenarios@.len(),
        ensures
            final(self).wf(),
            *final(self) == (NPAG { psi, ..*old(self) }),
            final(self).psi.ncols == final(self).theta.rows@.len(),
    {
        self.psi = psi;
    }

    /// Installs the weight solver's output for the current Ψ.
    pub fn set_lambda(&mut self, lambda: Vec<u64>)
        requires
            old(self).wf(),
            lambda@.len() == old(self).psi.ncols,
        ensures
            final(self).wf(),
            *final(self) == (NPAG { lambda, ..*old(self) }),
            final(self).lambda@.len() == final(self).psi.ncols,
    {
        self.lambda = lambda;
    }

    /// Installs the weight solver's output and objective value after the
    /// rank-revealing stage.
    pub fn set_solution(&mut self, lambda: Vec<u64>, objf: u64)
        requires
            old(self).wf(),
            lambda@.len() == old(self).psi.ncols,
        ensures
            final(self).wf(),
            *final(self) == (NPAG { lambda, objf, ..*old(self) }),
            final(self).lambda@.len() == final(self).psi.ncols,
    {
        self.lambda = lambda;
        self.objf = objf;
    }

    /// Drops every support point whose weight does not strictly exceed the
    /// threshold (the host computes the threshold as a fraction of the
    /// largest weight). Θ rows and Ψ columns are selected together, so they
    /// stay co-indexed; the kept indices are returned, ascending.
    pub fn prune_by_weight(&mut self, threshold: u64) -> (keep: Vec<usize>)
        requires
            old(self).wf(),
            old(self).aligned(),
        ensures
            final(self).wf(),
            keep@.map_values(|t: usize| old(self).lambda@[t as int]) == condensation::survivors(
                old(self).lambda@,
                threshold,
            ),
            forall|t: int|
                0 <= t < keep@.len() ==> (#[trigger] keep@[t]) < old(self).lambda@.len()
                    && fp::f_lt(threshold, old(self).lambda@[keep@[t] as int]),
            forall|i: int|
                0 <= i < old(self).lambda@.len() && fp::f_lt(threshold, #[trigger] old(self).lambda@[i]) ==> exists|t: int| 0 <= t < keep@.len() && keep@[t] == i,
            final(self).theta.rows@.len() == keep@.len(),
            forall|t: int|
                0 <= t < keep@.len() ==> (#[trigger] final(self).theta.rows@[t])@ == (old(self).theta.rows@[keep@[t] as int])@,
            final(self).psi.ncols == keep@.len(),
            final(self).psi.rows@.len() == old(self).psi.rows@.len(),
            forall|i: int, t: int|
                0 <= i < old(self).psi.rows@.len() && 0 <= t < keep@.len() ==> #[trigger] final(self).psi.at(i, t) == old(self).psi.at(i, keep@[t] as int),
            final(self).psi.ncols == final(self).theta.rows@.len(),
            final(self).lambda == old(self).lambda,
            final(self).eps == old(self).eps,
            final(self).objf == old(self).objf,
            final(self).last_objf == old(self).last_objf,
            final(self).cycle == old(self).cycle,
            final(self).gamma == old(self).gamma,
            final(self).gamma_delta == old(self).gamma_delta,
            final(self).converged == old(self).converged,
            final(self).f0 == old(self).f0,
            final(self).f1 == old(self).f1,
            final(self).w == old(self).w,
            final(self).ranges == old(self).ranges,
            final(self).scenarios == old(self).scenarios,
            final(self).settings == old(self).settings,
            final(self).c == old(self).c,
            final(self).cache == old(self).cache,
            final(self).error_type == old(self).error_type,
            final(self).cycle_log == old(self).cycle_log,
    {
        let keep = condensation::keep_indices(&self.lambda, threshold);
        let new_theta = self.theta.select_rows(&keep);
        let new_psi = self.psi.select_cols(&keep);
        proof {
            assert forall|i2: int| 0 <= i2 < new_theta.rows@.len() implies crate::expansion::in_box(
                (#[trigger] new_theta.rows@[i2])@,
                self.ranges@,
            ) by {
                assert(new_theta.rows@[i2]@ == self.theta.rows@[keep@[i2] as int]@);
            }
        }
        self.theta = new_theta;
        self.psi = new_psi;
        keep
    }

    /// Applies the rank-revealing stage: the host's column-pivoted QR of the
    /// row-normalized Ψ yields a pivot order and diagonal ratios; the pivots
    /// whose ratio magnitude reaches the tolerance are kept, over the leading
    /// positions of the factor (at most one per subject and per column).
    pub fn prune_by_qr(&mut self, perm: &Vec<usize>, ratios: &Vec<u64>) -> (keep: Vec<usize>)
        requires
            old(self).wf(),
            old(self).psi.ncols == old(self).theta.rows@.len(),
            perm@.len() >= vstd::math::min(
                old(self).psi.rows@.len() as int,
                old(self).psi.ncols as int,
            ),
            ratios@.len() >= vstd::math::min(
                old(self).psi.rows@.len() as int,
                old(self).psi.ncols as int,
            ),
            forall|i: int|
                0 <= i < vstd::math::min(
                    old(self).psi.rows@.len() as int,
                    old(self).psi.ncols as int,
                ) ==> (#[trigger] perm@[i]) < old(self).psi.ncols,
        ensures
            final(self).wf(),
            keep@ == condensation::qr_kept(
                perm@,
                ratios@,
                vstd::math::min(old(self).psi.rows@.len() as int, old(self).psi.ncols as int),
                QR_TOLERANCE_BITS,
            ),
            final(self).theta.rows@.len() == keep@.len(),
            forall|t: int|
                0 <= t < keep@.len() ==> (#[trigger] final(self).theta.rows@[t])@ == (old(self).theta.rows@[keep@[t] as int])@,
            final(self).psi.ncols == keep@.len(),
            final(self).psi.rows@.len() == old(self).psi.rows@.len(),
            forall|i: int, t: int|
                0 <= i < old(self).psi.rows@.len() && 0 <= t < keep@.len() ==> #[trigger] final(self).psi.at(i, t) == old(self).psi.at(i, keep@[t] as int),
            final(self).psi.ncols == final(self).theta.rows@.len(),
            final(self).lambda == old(self).lambda,
            final(self).eps == old(self).eps,
            final(self).objf == old(self).objf,
            final(self).last_objf == old(self).last_objf,
            final(self).cycle == old(self).cycle,
            final(self).gamma == old(self).gamma,
            final(self).gamma_delta == old(self).gamma_delta,
            final(self).converged == old(self).converged,
            final(self).f0 == old(self).f0,
            final(self).f1 == old(self).f1,
            final(self).w == old(self).w,
            final(self).ranges == old(self).ranges,
            final(self).scenarios == old(self).scenarios,
            final(self).settings == old(self).settings,
            final(self).c == old(self).c,
            final(self).cache == old(self).cache,
            final(self).error_type == old(self).error_type,
            final(self).cycle_log == old(self).cycle_log,
    {
        let nrows = self.psi.nrows();
        let ncols = self.psi.ncols();
        let lim: usize = if nrows < ncols {
            nrows
        } else {
            ncols
        };
        let keep = condensation::qr_keep(perm, ratios, lim, QR_TOLERANCE_BITS);
        proof {
            condensation::lemma_qr_kept_range(
                perm@,
                ratios@,
                lim as int,
                QR_TOLERANCE_BITS,
                self.psi.ncols,
            );
        }
        let new_theta = self.theta.select_rows(&keep);
        let new_psi = self.psi.select_cols(&keep);
        proof {
            assert forall|i2: int| 0 <= i2 < new_theta.rows@.len() implies crate::expansion::in_box(
                (#[trigger] new_theta.rows@[i2])@,
                self.ranges@,
            ) by {
                assert(new_theta.rows@[i2]@ == self.theta.rows@[keep@[i2] as int]@);
            }
        }
        self.theta = new_theta;
        self.psi = new_psi;
        keep
    }

    /// The reported weights become the solver's latest output.
    pub fn commit_weights(&mut self)
        requires
            old(self).wf(),
        ensures
            final(self).wf(),
            final(self).w@ == old(self).lambda@,
            final(self).w@.len() == final(self).lambda@.len(),
            *final(self) == (NPAG { w: final(self).w, ..*old(self) }),
    {
        let w = copy_vec(&self.lambda);
        self.w = w;
    }

    /// True when the objective just fell below the previous cycle's value —
    /// on an unchanged Ψ the re-solve never worsens the objective, so a drop
    /// signals instability or misspecification and is reported.
    pub fn objf_decreased(&self) -> (r: bool)
        ensures
            r == fp::f_lt(self.objf, self.last_objf),
    {
        fp::lt(self.objf, self.last_objf)
    }

    /// The outer loop runs while ε stays strictly above its floor.
    pub fn keep_running(&self) -> (r: bool)
        ensures
            r == fp::f_lt(THETA_E_BITS, self.eps),
    {
        fp::lt(THETA_E_BITS, self.eps)
    }

    /// Adopts the γ line-search outcome. The host evaluated both candidates:
    /// γ(1+δ) with its weights, objective and Ψ, and γ/(1+δ) with its own.
    /// An upward move is adopted when it strictly improves the objective; the
    /// downward move is then tested against the possibly-updated objective
    /// and adopted on strict improvement, so when both improve the downward
    /// value wins (the two tests are deliberately sequential). Each
    /// adoption quadruples δ; δ is then halved, and reset to its initial
    /// value once it compares at or below its floor.
    pub fn gamma_step(
        &mut self,
        gamma_up: u64,
        up_lambda: Vec<u64>,
        up_objf: u64,
        up_psi: Matrix,
        gamma_down: u64,
        down_lambda: Vec<u64>,
        down_objf: u64,
        down_psi: Matrix,
    )
        requires
            old(self).wf(),
            up_psi.wf(),
            down_psi.wf(),
            up_psi.ncols == old(self).psi.ncols,
            down_psi.ncols == old(self).psi.ncols,
            up_psi.rows@.len() == old(self).psi.rows@.len(),
            down_psi.rows@.len() == old(self).psi.rows@.len(),
            up_lambda@.len() == up_psi.ncols,
            down_lambda@.len() == down_psi.ncols,
            old(self).lambda@.len() == old(self).psi.ncols,
        ensures
            final(self).wf(),
            ({
                let up = fp::f_lt(old(self).objf, up_objf);
                let mid_objf = if up {
                    up_objf
                } else {
                    old(self).objf
                };
                let down = fp::f_lt(mid_objf, down_objf);
                let mid_delta = if up {
                    fp::quadrupled_bits(old(self).gamma_delta)
                } else {
                    old(self).gamma_delta
                };
                let searched_delta = if down {
                    fp::quadrupled_bits(mid_delta)
                } else {
                    mid_delta
                };
                let halved = if fp::exp_of(searched_delta) == 0x7ff {
                    searched_delta
                } else {
                    fp::halved_bits(searched_delta)
                };
                &&& final(self).objf == (if down {
                    down_objf
                } else {
                    mid_objf
                })
                &&& final(self).gamma == (if down {
                    gamma_down
                } else if up {
                    gamma_up
                } else {
                    old(self).gamma
                })
                &&& final(self).lambda@ == (if down {
                    down_lambda@
                } else if up {
                    up_lambda@
                } else {
                    old(self).lambda@
                })
                &&& (if down {
                    final(self).psi == down_psi
                } else if up {
                    final(self).psi == up_psi
                } else {
                    final(self).psi == old(self).psi
                })
                &&& final(self).gamma_delta == (if fp::f_le(halved, DELTA_FLOOR_BITS) {
                    DELTA_INIT_BITS
                } else {
                    halved
                })
            }),
            final(self).psi.ncols == old(self).psi.ncols,
            final(self).psi.rows@.len() == old(self).psi.rows@.len(),
            final(self).lambda@.len() == old(self).psi.ncols,
            final(self).theta == old(self).theta,
            final(self).eps == old(self).eps,
            final(self).last_objf == old(self).last_objf,
            final(self).cycle == old(self).cycle,
            final(self).converged == old(self).converged,
            final(self).f0 == old(self).f0,
            final(self).f1 == old(self).f1,
            final(self).w == old(self).w,
            final(self).ranges == old(self).ranges,
            final(self).scenarios == old(self).scenarios,
            final(self).settings == old(self).settings,
            final(self).c == old(self).c,
            final(self).cache == old(self).cache,
            final(self).error_type == old(self).error_type,
            final(self).cycle_log == old(self).cycle_log,
    {
        if fp::lt(self.objf, up_objf) {
            self.gamma = gamma_up;
            self.objf = up_objf;
            self.gamma_delta = Self::quadruple_delta(self.gamma_delta);
            self.lambda = up_lambda;
            self.psi = up_psi;
        }
        if fp::lt(self.objf, down_objf) {
            self.gamma = gamma_down;
            self.objf = down_objf;
            self.gamma_delta = Self::quadruple_delta(self.gamma_delta);
            self.lambda = down_lambda;
            self.psi = down_psi;
        }
        let searched = self.gamma_delta;
        let halved = if (searched >> 52) & 0x7ff == 0x7ff {
            searched
        } else {
            fp::halve(searched)
        };
        if fp::le(halved, DELTA_FLOOR_BITS) {
            self.gamma_delta = DELTA_INIT_BITS;
            proof {
                lemma_constants();
            }
        } else {
            self.gamma_delta = halved;
            proof {
                lemma_constants();
                fp::lemma_order(halved, DELTA_FLOOR_BITS);
                fp::lemma_pos_lt_exp(DELTA_FLOOR_BITS, halved);
            }
        }
    }

    /// One cycle's progress snapshot: the cycle number, minus two times the
    /// objective, the magnitude of the objective change (computed by the
    /// host from the previous and current objective bits), the support size,
    /// a copy of Θ and the current γ.
    pub fn cycle_snapshot(&self, delta_objf: u64) -> (r: NPCycle)
        requires
            self.wf(),
        ensures
            r.cycle == self.cycle,
            r.objf == fp::neg_doubled_bits(self.objf),
            r.delta_objf == delta_objf,
            r.nspp == self.theta.rows@.len(),
            r.theta.same_cells(&self.theta),
            r.gamlam == self.gamma,
    {
        NPCycle {
            cycle: self.cycle,
            objf: fp::neg_double(self.objf),
            delta_objf,
            nspp: self.theta.nrows(),
            theta: self.theta.copy_of(),
            gamlam: self.gamma,
        }
    }

    /// Appends a snapshot to the cycle history (the host writes it out when
    /// output is enabled).
    pub fn log_cycle(&mut self, entry: NPCycle)
        requires
            old(self).wf(),
        ensures
            final(self).wf(),
            final(self).cycle_log.cycles@ == old(self).cycle_log.cycles@.push(entry),
            final(self).cycle_log.names@ == old(self).cycle_log.names@,
            *final(self) == (NPAG { cycle_log: final(self).cycle_log, ..*old(self) }),
    {
        self.cycle_log.push(entry);
    }

    /// Ends a cycle: the convergence test, the cycle cap, the stop request,
    /// and the bookkeeping for the next cycle.
    ///
    /// `delta_objf` is the magnitude of the objective change and `f1_delta`
    /// the magnitude of the change of the log-marginal sum `f1_candidate`
    /// against the stored anchor, both computed by the host from this
    /// state's own scalars. When the objective change is within tolerance,
    /// ε is halved (exactly); if ε then reaches its floor, the run converges
    /// only when the log-marginal change is within its tolerance — otherwise
    /// the anchor moves and ε resets, and the search continues. A finished
    /// run keeps its cycle count; a continuing one moves to the next cycle.
    pub fn advance(
        &mut self,
        delta_objf: u64,
        f1_candidate: u64,
        f1_delta: u64,
        stop_requested: bool,
    ) -> (verdict: Verdict)
        requires
            old(self).wf(),
            fp::f_lt(THETA_E_BITS, old(self).eps),
        ensures
            final(self).wf(),
            ({
                let shrink = fp::f_le(delta_objf, THETA_G_BITS);
                let new_eps = if shrink {
                    fp::halved_bits(old(self).eps)
                } else {
                    old(self).eps
                };
                let floored = shrink && !fp::f_lt(THETA_E_BITS, new_eps);
                let converged_now = floored && fp::f_le(f1_delta, THETA_F_BITS);
                &&& verdict == Verdict::Converged <==> converged_now
                &&& final(self).converged == (old(self).converged || converged_now)
                &&& final(self).f1 == (if floored {
                    f1_candidate
                } else {
                    old(self).f1
                })
                &&& final(self).f0 == (if floored && !converged_now {
                    f1_candidate
                } else {
                    old(self).f0
                })
                &&& final(self).eps == (if converged_now {
                    new_eps
                } else if floored {
                    EPS_INIT_BITS
                } else {
                    new_eps
                })
                &&& (!converged_now ==> verdict == (if old(self).cycle
                    >= old(self).settings.config.cycles {
                    Verdict::MaxCycles
                } else if stop_requested {
                    Verdict::Stopped
                } else {
                    Verdict::Continue
                }))
                &&& final(self).cycle == (if verdict == Verdict::Continue {
                    old(self).cycle + 1
                } else {
                    old(self).cycle as int
                })
                &&& final(self).last_objf == (if verdict == Verdict::Continue {
                    old(self).objf
                } else {
                    old(self).last_objf
                })
                &&& (verdict == Verdict::Continue ==> fp::f_lt(THETA_E_BITS, final(self).eps))
            }),
            final(self).theta == old(self).theta,
            final(self).psi == old(self).psi,
            final(self).lambda == old(self).lambda,
            final(self).w == old(self).w,
            final(self).objf == old(self).objf,
            final(self).gamma == old(self).gamma,
            final(self).gamma_delta == old(self).gamma_delta,
            final(self).ranges == old(self).ranges,
            final(self).scenarios == old(self).scenarios,
            final(self).settings == old(self).settings,
            final(self).c == old(self).c,
            final(self).cache == old(self).cache,
            final(self).error_type == old(self).error_type,
            final(self).cycle_log == old(self).cycle_log,
    {
        proof {
            lemma_constants();
            fp::lemma_pos_lt_exp(THETA_E_BITS, self.eps);
        }
        if fp::le(delta_objf, THETA_G_BITS) {
            self.eps = fp::halve(self.eps);
            if !fp::lt(THETA_E_BITS, self.eps) {
                self.f1 = f1_candidate;
                if fp::le(f1_delta, THETA_F_BITS) {
                    self.converged = true;
                    return Verdict::Converged;
                } else {
                    self.f0 = self.f1;
                    self.eps = EPS_INIT_BITS;
                }
            }
        }
        if self.cycle >= self.settings.config.cycles {
            return Verdict::MaxCycles;
        }
        if stop_requested {
            return Verdict::Stopped;
        }
        self.cycle = self.cycle + 1;
        self.last_objf = self.objf;
        Verdict::Continue
    }

    /// The run's result: the final support, likelihoods and weights, minus
    /// two times the objective, the cycle count and the convergence flag.
    pub fn to_npresult(&self) -> (r: NPResult)
        requires
            self.wf(),
        ensures
            r.theta.same_cells(&self.theta),
            r.psi.same_cells(&self.psi),
            r.w@ == self.w@,
            r.objf == fp::neg_doubled_bits(self.objf),
            r.cycles == self.cycle,
            r.converged == self.converged,
    {
        NPResult {
            theta: self.theta.copy_of(),
            psi: self.psi.copy_of(),
            w: copy_vec(&self.w),
            objf: fp::neg_double(self.objf),
            cycles: self.cycle,
            converged: self.converged,
        }
    }

    /// Quadruples δ by two exact doublings (overflowing to infinity exactly
    /// where IEEE-754 multiplication by four does).
    fn quadruple_delta(d: u64) -> (r: u64)
        requires
            delta_wf(d),
        ensures
            r == fp::quadrupled_bits(d),
            delta_wf(r),
    {
        let once = fp::double(d);
        proof {
            if fp::exp_of(d) >= 2046 {
                assert(fp::exp_of(once) == 0x7ff);
            } else {
                fp::lemma_exp_mono(d, once);
            }
        }
        let twice = fp::double(once);
        proof {
            if fp::exp_of(once) >= 2046 {
                assert(fp::exp_of(twice) == 0x7ff);
            } else {
                fp::lemma_exp_mono(once, twice);
            }
        }
        twice
    }
}

} // verus!
