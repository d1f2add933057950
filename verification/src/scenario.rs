//! Subject records: an ordered event sequence (doses, infusions,
//! observations) with the observation values and times collected out of it.
//!
//! Records are immutable after construction; every component reads them
//! through shared references. Times and values are IEEE-754 bit patterns.

use vstd::prelude::*;

verus! {

/// What an event is.
#[derive(Clone, Copy, Debug, PartialEq, Eq, Structural)]
pub enum EventKind {
    Bolus,
    Infusion,
    Observation,
}

/// One event of a subject's record.
#[derive(Clone, Copy, Debug)]
pub struct Event {
    /// Event time, as a double's bits.
    pub time: u64,
    pub kind: EventKind,
    /// Dose amount, for boluses and infusions, as a double's bits.
    pub amount: Option<u64>,
    /// Infusion duration, as a double's bits.
    pub duration: Option<u64>,
    /// Input compartment index (one-based).
    pub input: Option<usize>,
    /// Observation-equation index (one-based).
    pub outeq: Option<usize>,
    /// Observed value, for observations, as a double's bits.
    pub observed: Option<u64>,
}

/// The observation events of a record, in order.
pub open spec fn observations_of(events: Seq<Event>) -> Seq<Event> {
    events.filter(|e: Event| e.kind == EventKind::Observation)
}

/// A subject record.
pub struct Scenario {
    pub id: String,
    pub events: Vec<Event>,
    /// Observed values, one per observation event, in event order.
    pub obs: Vec<u64>,
    /// Observation times, aligned with `obs`.
    pub obs_times: Vec<u64>,
}

impl Scenario {
    /// The record's derived vectors agree with its events.
    pub open spec fn wf(&self) -> bool {
        &&& self.obs@.len() == observations_of(self.events@).len()
        &&& self.obs_times@.len() == self.obs@.len()
        &&& forall|i: int|
            0 <= i < self.obs@.len() ==> (#[trigger] self.obs@[i]) == observations_of(
                self.events@,
            )[i].observed.unwrap() && self.obs_times@[i] == observations_of(
                self.events@,
            )[i].time
    }

    /// Builds a record from its events, collecting the observed values and
    /// times of the observation events in order. An observation event
    /// without an observed value is a malformed record and is refused.
    pub fn new(id: String, events: Vec<Event>) -> (r: Option<Scenario>)
        ensures
            match r {
                Some(s) => s.wf() && s.id@ == id@ && s.events@ == events@ && (forall|i: int|
                    0 <= i < events@.len() && (#[trigger] events@[i]).kind
                        == EventKind::Observation ==> events@[i].observed is Some),
                None => exists|i: int|
                    0 <= i < events@.len() && (#[trigger] events@[i]).kind
                        == EventKind::Observation && events@[i].observed is None,
            },
    {
        let ghost pred = |e: Event| e.kind == EventKind::Observation;
        let mut obs: Vec<u64> = Vec::new();
        let mut obs_times: Vec<u64> = Vec::new();
        let mut i: usize = 0;
        proof {
            reveal(Seq::filter);
            assert(events@.subrange(0, 0).filter(pred) =~= Seq::<Event>::empty());
        }
        while i < events.len()
            invariant
                0 <= i <= events@.len(),
                pred == (|e: Event| e.kind == EventKind::Observation),
                forall|j: int|
                    0 <= j < i && (#[trigger] events@[j]).kind == EventKind::Observation
                        ==> events@[j].observed is Some,
                obs@.len() == events@.subrange(0, i as int).filter(pred).len(),
                obs_times@.len() == obs@.len(),
                forall|j: int|
                    0 <= j < obs@.len() ==> (#[trigger] obs@[j]) == events@.subrange(
                        0,
                        i as int,
                    ).filter(pred)[j].observed.unwrap(),
                forall|j: int|
                    0 <= j < obs@.len() ==> (#[trigger] obs_times@[j]) == events@.subrange(
                        0,
                        i as int,
                    ).filter(pred)[j].time,
            decreases events@.len() - i,
        {
            let ghost prefix = events@.subrange(0, i as int);
            let event = events[i];
            match event.kind {
                EventKind::Observation => {
                    match event.observed {
                        Some(value) => {
                            obs.push(value);
                            obs_times.push(event.time);
                        },
                        None => {
                            return None;
                        },
                    }
                },
                _ => {},
            }
            proof {
                reveal(Seq::filter);
                assert(events@.subrange(0, i + 1).drop_last() =~= prefix);
                assert(events@.subrange(0, i + 1).last() == events@[i as int]);
                let full = events@.subrange(0, i + 1).filter(pred);
                if pred(events@[i as int]) {
                    assert(full == prefix.filter(pred).push(events@[i as int]));
                    assert forall|j: int| 0 <= j < obs@.len() implies (#[trigger] obs@[j])
                        == full[j].observed.unwrap() && obs_times@[j] == full[j].time by {
                        if j < obs@.len() - 1 {
                            assert(full[j] == prefix.filter(pred)[j]);
                            assert(obs@[j] == prefix.filter(pred)[j].observed.unwrap());
                            assert(obs_times@[j] == prefix.filter(pred)[j].time);
                        } else {
                            assert(full[j] == events@[i as int]);
                        }
                    }
                } else {
                    assert(full == prefix.filter(pred));
                }
            }
            i += 1;
        }
        proof {
            assert(events@.subrange(0, events@.len() as int) =~= events@);
        }
        Some(Scenario { id, events, obs, obs_times })
    }

    /// Number of observations.
    pub fn nobs(&self) -> (r: usize)
        ensures
            r == self.obs@.len(),
    {
        self.obs.len()
    }
}

} // verus!
