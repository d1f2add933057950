//! Memoization of per-subject predictions, keyed by subject index and the
//! exact bit patterns of a support point.
//!
//! The contract of the cache is what prediction caching needs: a hit returns,
//! bit for bit, the prediction vector that was stored for that key, and keys
//! match only when the parameter vectors are bit-identical — byte-distinct
//! doubles miss. The predictor is pure in its inputs, so replaying a stored
//! prediction equals recomputing it.

use vstd::prelude::*;

verus! {

/// Bitwise equality of two scalar vectors.
pub fn vec_bits_eq(a: &Vec<u64>, b: &Vec<u64>) -> (r: bool)
    ensures
        r == (a@ == b@),
{
    if a.len() != b.len() {
        proof {
            assert(a@.len() != b@.len());
        }
        return false;
    }
    let mut i: usize = 0;
    while i < a.len()
        invariant
            0 <= i <= a@.len(),
            a@.len() == b@.len(),
            forall|j: int| 0 <= j < i ==> a@[j] == b@[j],
        decreases a@.len() - i,
    {
        if a[i] != b[i] {
            return false;
        }
        i += 1;
    }
    proof {
        assert(a@ =~= b@);
    }
    true
}

/// A cache entry: subject index, support point, stored prediction vector.
pub struct CacheEntry {
    pub subject: usize,
    pub point: Vec<u64>,
    pub pred: Vec<u64>,
}

/// The prediction cache.
pub struct PredCache {
    pub entries: Vec<CacheEntry>,
}

impl PredCache {
    /// Entry `i` carries the key (`subject`, `point`).
    pub open spec fn key_at(&self, i: int, subject: usize, point: Seq<u64>) -> bool {
        self.entries@[i].subject == subject && self.entries@[i].point@ == point
    }

    /// Some entry carries the key.
    pub open spec fn has_key(&self, subject: usize, point: Seq<u64>) -> bool {
        exists|i: int| 0 <= i < self.entries@.len() && self.key_at(i, subject, point)
    }

    /// No two entries share a key.
    pub open spec fn wf(&self) -> bool {
        forall|i: int, j: int|
            0 <= i < self.entries@.len() && 0 <= j < self.entries@.len() && i != j
                ==> !(self.key_at(i, self.entries@[j].subject, self.entries@[j].point@))
    }

    pub fn new() -> (r: PredCache)
        ensures
            r.wf(),
            r.entries@.len() == 0,
    {
        PredCache { entries: Vec::new() }
    }

    /// The stored prediction for a key, bit for bit, or `None` on a miss.
    pub fn get(&self, subject: usize, point: &Vec<u64>) -> (r: Option<&Vec<u64>>)
        ensures
            match r {
                Some(v) => exists|i: int|
                    0 <= i < self.entries@.len() && self.key_at(i, subject, point@) && (
                    #[trigger] self.entries@[i]).pred@ == v@,
                None => !self.has_key(subject, point@),
            },
    {
        let mut i: usize = 0;
        while i < self.entries.len()
            invariant
                0 <= i <= self.entries@.len(),
                forall|j: int| 0 <= j < i ==> !self.key_at(j, subject, point@),
            decreases self.entries@.len() - i,
        {
            let entry = &self.entries[i];
            if entry.subject == subject && vec_bits_eq(&entry.point, point) {
                return Some(&entry.pred);
            }
            i += 1;
        }
        None
    }

    /// Stores a prediction for a key. The first store wins: a later store
    /// under an occupied key leaves the cache unchanged (the predictor is
    /// pure, so the stored vector is the same computation's result).
    pub fn insert(&mut self, subject: usize, point: Vec<u64>, pred: Vec<u64>)
        requires
            old(self).wf(),
        ensures
            final(self).wf(),
            final(self).has_key(subject, point@),
            old(self).has_key(subject, point@) ==> final(self).entries@ == old(
                self,
            ).entries@,
            !old(self).has_key(subject, point@) ==> final(self).entries@ == old(
                self,
            ).entries@.push(CacheEntry { subject, point, pred }),
    {
        let mut i: usize = 0;
        while i < self.entries.len()
            invariant
                0 <= i <= old(self).entries@.len(),
                self.entries@ == old(self).entries@,
                self.wf(),
                forall|j: int| 0 <= j < i ==> !old(self).key_at(j, subject, point@),
            decreases self.entries@.len() - i,
        {
            let entry = &self.entries[i];
            if entry.subject == subject && vec_bits_eq(&entry.point, &point) {
                proof {
                    assert(self.key_at(i as int, subject, point@));
                }
                return ;
            }
            i += 1;
        }
        let ghost prior = self.entries@;
        self.entries.push(CacheEntry { subject, point, pred });
        proof {
            let n = prior.len() as int;
            assert(self.entries@[n] == CacheEntry { subject, point, pred });
            assert(self.key_at(n, subject, point@));
            assert forall|i2: int, j2: int|
                0 <= i2 < self.entries@.len() && 0 <= j2 < self.entries@.len() && i2
                    != j2 implies !(self.key_at(
                i2,
                self.entries@[j2].subject,
                self.entries@[j2].point@,
            )) by {
                if i2 < n && j2 < n {
                    assert(self.entries@[i2] == prior[i2]);
                    assert(self.entries@[j2] == prior[j2]);
                    assert(!old(self).key_at(i2, old(self).entries@[j2].subject, old(
                        self,
                    ).entries@[j2].point@));
                } else if i2 == n && j2 < n {
                    assert(self.entries@[j2] == prior[j2]);
                    assert(!old(self).key_at(j2, subject, point@));
                } else if j2 == n && i2 < n {
                    assert(self.entries@[i2] == prior[i2]);
                    assert(!old(self).key_at(i2, subject, point@));
                }
            }
        }
    }
}

} // verus!
