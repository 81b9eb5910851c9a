//! Dispatch-weight estimates for the ledger operations: a benchmarked base
//! cost per call plus the configured cost of the database reads and writes
//! the call performs. All weight arithmetic saturates instead of wrapping.

use vstd::prelude::*;

verus! {

/// Saturating addition on `u64`.
pub open spec fn sat_add_u64(a: u64, b: u64) -> u64 {
    if a + b > u64::MAX {
        u64::MAX
    } else {
        (a + b) as u64
    }
}

/// Saturating multiplication on `u64`.
pub open spec fn sat_mul_u64(a: u64, b: u64) -> u64 {
    if a * b > u64::MAX {
        u64::MAX
    } else {
        (a * b) as u64
    }
}

/// The cost of one dispatchable call: computation time and proof size.
#[derive(Clone, Copy, Debug, PartialEq, Eq)]
pub struct Weight {
    pub ref_time: u64,
    pub proof_size: u64,
}

impl Weight {
    /// A weight with the given components.
    pub fn from_parts(ref_time: u64, proof_size: u64) -> (r: Weight)
        ensures
            r.ref_time == ref_time,
            r.proof_size == proof_size,
    {
        Weight { ref_time, proof_size }
    }

    /// Component-wise saturating addition.
    pub fn saturating_add(self, other: Weight) -> (r: Weight)
        ensures
            r.ref_time == sat_add_u64(self.ref_time, other.ref_time),
            r.proof_size == sat_add_u64(self.proof_size, other.proof_size),
    {
        Weight {
            ref_time: if self.ref_time > u64::MAX - other.ref_time {
                u64::MAX
            } else {
                self.ref_time + other.ref_time
            },
            proof_size: if self.proof_size > u64::MAX - other.proof_size {
                u64::MAX
            } else {
                self.proof_size + other.proof_size
            },
        }
    }
}

/// The configured cost of one database read and one database write.
#[derive(Clone, Copy, Debug, PartialEq, Eq)]
pub struct DbWeight {
    pub read: u64,
    pub write: u64,
}

impl DbWeight {
    /// The weight of `n` database reads.
    pub fn reads(self, n: u64) -> (r: Weight)
        ensures
            r.ref_time == sat_mul_u64(self.read, n),
            r.proof_size == 0,
    {
        Weight {
            ref_time: match self.read.checked_mul(n) {
                Some(v) => v,
                None => u64::MAX,
            },
            proof_size: 0,
        }
    }

    /// The weight of `n` database writes.
    pub fn writes(self, n: u64) -> (r: Weight)
        ensures
            r.ref_time == sat_mul_u64(self.write, n),
            r.proof_size == 0,
    {
        Weight {
            ref_time: match self.write.checked_mul(n) {
                Some(v) => v,
                None => u64::MAX,
            },
            proof_size: 0,
        }
    }
}

/// Benchmarked weights of the ledger operations, on top of the given
/// database-weight configuration.
pub struct SubstrateWeight {
    pub db_weight: DbWeight,
}

impl SubstrateWeight {
    /// A weight table over the given database costs.
    pub fn new(db_weight: DbWeight) -> (r: SubstrateWeight)
        ensures
            r.db_weight == db_weight,
    {
        SubstrateWeight { db_weight }
    }

    /// The weight of a direct transfer: the benchmarked base plus one read
    /// and one write.
    pub fn transfer(&self) -> (r: Weight)
        ensures
            r.ref_time == sat_add_u64(
                sat_add_u64(9_000_000, sat_mul_u64(self.db_weight.read, 1)),
                sat_mul_u64(self.db_weight.write, 1),
            ),
            r.proof_size == 0,
    {
        Weight::from_parts(9_000_000, 0).saturating_add(self.db_weight.reads(1)).saturating_add(
            self.db_weight.writes(1),
        )
    }

    /// The weight of a delegated transfer: the benchmarked base plus one
    /// read and one write.
    pub fn transfer_from(&self) -> (r: Weight)
        ensures
            r.ref_time == sat_add_u64(
                sat_add_u64(9_000_000, sat_mul_u64(self.db_weight.read, 1)),
                sat_mul_u64(self.db_weight.write, 1),
            ),
            r.proof_size == 0,
    {
        Weight::from_parts(9_000_000, 0).saturating_add(self.db_weight.reads(1)).saturating_add(
            self.db_weight.writes(1),
        )
    }

    /// The weight of an approval: the benchmarked base plus one write.
    pub fn approve(&self) -> (r: Weight)
        ensures
            r.ref_time == sat_add_u64(9_000_000, sat_mul_u64(self.db_weight.write, 1)),
            r.proof_size == 0,
    {
        Weight::from_parts(9_000_000, 0).saturating_add(self.db_weight.writes(1))
    }
}

} // verus!
