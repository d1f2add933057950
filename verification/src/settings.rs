//! Run settings: paths, general configuration, the random-parameter space and
//! the observation-error model, with their validation rules.
//!
//! Scalar options (parameter bounds, the error value, the polynomial
//! coefficients) are held as IEEE-754 bit patterns; the host that parses the
//! configuration file converts once at the boundary. Validation is exact: a
//! parameter range is accepted only when its lower bound compares strictly
//! below its upper bound under IEEE-754 ordering, and the error value is
//! rejected exactly when it compares below zero.

use crate::fp;
use vstd::prelude::*;

verus! {

/// Paths to the data file and the optional log and prior files.
pub struct Paths {
    /// Path to the data file.
    pub data: String,
    /// If provided, the log file will be written to this path.
    pub log: Option<String>,
    /// If provided, this prior is used as the initial support instead of
    /// quasi-random seeding.
    pub prior: Option<String>,
}

/// General configuration settings.
pub struct Config {
    pub cycles: usize,
    pub engine: String,
    pub seed: usize,
    pub init_points: usize,
    pub tui: bool,
    pub output: bool,
    pub cache: bool,
    /// Prediction-densification interval (simulation only), as a double's bits.
    pub idelta: u64,
    pub log_level: String,
    pub exclude: Option<Vec<String>>,
    /// Time after dose (simulation only), as a double's bits.
    pub tad: u64,
}

/// The random parameters to be estimated: name and (lower, upper) bounds,
/// each bound a double's bit pattern.
pub struct Random {
    pub parameters: Vec<(String, (u64, u64))>,
}

/// Parameters fixed to a single estimated value.
pub struct Fixed {
    pub parameters: Vec<(String, u64)>,
}

/// Parameters held constant.
pub struct Constant {
    pub parameters: Vec<(String, u64)>,
}

/// The observation-error model: scale value, class name and the four
/// polynomial coefficients, scalars as bit patterns.
pub struct Error {
    pub value: u64,
    pub class: String,
    pub poly: (u64, u64, u64, u64),
}

/// Why a settings record was rejected.
#[derive(Debug, PartialEq, Eq)]
pub enum SettingsError {
    /// A random parameter whose lower bound does not compare strictly below
    /// its upper bound.
    BoundsNotIncreasing { key: String },
    /// An error-model value below zero.
    NegativeErrorValue,
    /// An error-model class that is neither additive nor proportional.
    UnknownErrorClass,
}

/// All settings of a run.
pub struct Settings {
    pub paths: Paths,
    pub config: Config,
    pub random: Random,
    pub fixed: Option<Fixed>,
    pub constant: Option<Constant>,
    pub error: Error,
}

impl Random {
    /// The bounds of the parameter named `key`, if present (first match).
    pub fn get(&self, key: &str) -> (r: Option<(u64, u64)>)
        ensures
            match r {
                Some(v) => exists|i: int|
                    0 <= i < self.parameters@.len() && (#[trigger] self.parameters@[i]).0@
                        == key@ && self.parameters@[i].1 == v,
                None => forall|i: int|
                    0 <= i < self.parameters@.len() ==> (#[trigger] self.parameters@[i]).0@
                        != key@,
            },
    {
        let owned: String = key.to_owned();
        let mut i: usize = 0;
        while i < self.parameters.len()
            invariant
                0 <= i <= self.parameters@.len(),
                owned@ == key@,
                forall|j: int|
                    0 <= j < i ==> (#[trigger] self.parameters@[j]).0@ != key@,
            decreases self.parameters@.len() - i,
        {
            if self.parameters[i].0 == owned {
                return Some(self.parameters[i].1);
            }
            i += 1;
        }
        None
    }

    /// The bounds of all random parameters, in order.
    pub fn ranges(&self) -> (r: Vec<(u64, u64)>)
        ensures
            r@.len() == self.parameters@.len(),
            forall|i: int|
                0 <= i < r@.len() ==> #[trigger] r@[i] == self.parameters@[i].1,
    {
        let mut out: Vec<(u64, u64)> = Vec::new();
        let mut i: usize = 0;
        while i < self.parameters.len()
            invariant
                0 <= i <= self.parameters@.len(),
                out@.len() == i,
                forall|j: int| 0 <= j < i ==> #[trigger] out@[j] == self.parameters@[j].1,
            decreases self.parameters@.len() - i,
        {
            out.push(self.parameters[i].1);
            i += 1;
        }
        out
    }

    /// The names of all random parameters, in order.
    pub fn names(&self) -> (r: Vec<String>)
        ensures
            r@.len() == self.parameters@.len(),
            forall|i: int|
                0 <= i < r@.len() ==> (#[trigger] r@[i])@ == self.parameters@[i].0@,
    {
        let mut out: Vec<String> = Vec::new();
        let mut i: usize = 0;
        while i < self.parameters.len()
            invariant
                0 <= i <= self.parameters@.len(),
                out@.len() == i,
                forall|j: int| 0 <= j < i ==> (#[trigger] out@[j])@ == self.parameters@[j].0@,
            decreases self.parameters@.len() - i,
        {
            out.push(self.parameters[i].0.clone());
            i += 1;
        }
        out
    }

    /// A range is valid when its lower bound compares strictly below its
    /// upper bound; equivalently, the pair is rejected exactly when
    /// `lower >= upper` holds under IEEE-754 ordering.
    pub open spec fn pair_ok(p: (u64, u64)) -> bool {
        !fp::f_le(p.1, p.0)
    }

    /// Checks every parameter range, reporting the first offender by name.
    pub fn validate(&self) -> (r: Result<(), SettingsError>)
        ensures
            r is Ok <==> forall|i: int|
                0 <= i < self.parameters@.len() ==> Self::pair_ok(
                    (#[trigger] self.parameters@[i]).1,
                ),
            match r {
                Ok(()) => true,
                Err(e) => match e {
                    SettingsError::BoundsNotIncreasing { key } => exists|i: int|
                        0 <= i < self.parameters@.len() && (#[trigger] self.parameters@[i]).0@
                            == key@ && !Self::pair_ok(self.parameters@[i].1),
                    _ => false,
                },
            },
    {
        let mut i: usize = 0;
        while i < self.parameters.len()
            invariant
                0 <= i <= self.parameters@.len(),
                forall|j: int|
                    0 <= j < i ==> Self::pair_ok((#[trigger] self.parameters@[j]).1),
            decreases self.parameters@.len() - i,
        {
            let (lower, upper) = self.parameters[i].1;
            if fp::le(upper, lower) {
                return Err(
                    SettingsError::BoundsNotIncreasing { key: self.parameters[i].0.clone() },
                );
            }
            i += 1;
        }
        Ok(())
    }
}

impl Error {
    /// Rejects an error value that compares below zero (a NaN value is not
    /// below zero and passes, as it does through IEEE-754 comparison).
    pub fn validate(&self) -> (r: Result<(), SettingsError>)
        ensures
            r is Ok <==> !fp::f_lt(self.value, fp::ZERO_BITS),
            r is Err ==> r == Result::<(), SettingsError>::Err(SettingsError::NegativeErrorValue),
    {
        if fp::lt(self.value, fp::ZERO_BITS) {
            Err(SettingsError::NegativeErrorValue)
        } else {
            Ok(())
        }
    }
}

impl Settings {
    /// Validates the random-parameter ranges, then the error model.
    pub fn validate(&self) -> (r: Result<(), SettingsError>)
        ensures
            r is Ok <==> ((forall|i: int|
                0 <= i < self.random.parameters@.len() ==> Random::pair_ok(
                    (#[trigger] self.random.parameters@[i]).1,
                )) && !fp::f_lt(self.error.value, fp::ZERO_BITS)),
    {
        let checked_random = self.random.validate();
        match checked_random {
            Ok(()) => self.error.validate(),
            Err(e) => Err(e),
        }
    }
}

/// Default for boolean options that start enabled.
pub fn default_true() -> (r: bool)
    ensures
        r == true,
{
    true
}

/// Default for boolean options that start disabled.
pub fn default_false() -> (r: bool)
    ensures
        r == false,
{
    false
}

/// Default log level.
pub fn default_log_level() -> (r: String)
    ensures
        r@ == "info"@,
{
    "info".to_owned()
}

/// Default quasi-random seed.
pub fn default_seed() -> (r: usize)
    ensures
        r == 347,
{
    347
}

/// Default number of initial support points.
pub fn default_10k() -> (r: usize)
    ensures
        r == 10000,
{
    10_000
}

} // verus!
