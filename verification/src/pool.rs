//! Statistics of the pre-connected backend pool, and how it recognises a
//! backend that swallows connections (a black hole).

use vstd::prelude::*;
use crate::error::ProxyError;
use crate::text::{chars_of, parse_u32, parse_u32_exec, string_from};

verus! {

/// Consecutive connection failures after which the backend counts as a
/// black hole, unless configured otherwise.
pub const BLACKHOLE_FAILURE_THRESHOLD: u32 = 3;

/// Connections the pool opens ahead of time.
pub const INITIAL_POOL_SIZE: usize = 50;

/// Largest number of pooled connections.
pub const MAX_POOL_SIZE: usize = 50;

/// The black hole threshold: the configured value when it parses as a
/// number, the default otherwise.
pub fn blackhole_failure_threshold(configured: Option<&str>) -> (r: u32)
    ensures
        r == match configured {
            Some(s) => match parse_u32(s@) {
                Some(v) => v,
                None => BLACKHOLE_FAILURE_THRESHOLD,
            },
            None => BLACKHOLE_FAILURE_THRESHOLD,
        },
{
    match configured {
        Some(s) => {
            let cs = chars_of(s);
            match parse_u32_exec(cs.as_slice()) {
                Some(v) => v,
                None => BLACKHOLE_FAILURE_THRESHOLD,
            }
        },
        None => BLACKHOLE_FAILURE_THRESHOLD,
    }
}

/// Counters of the backend pool; each wraps around like an atomic counter.
#[derive(Debug)]
pub struct PoolStats {
    /// Connections opened in all.
    pub total_created: u64,
    /// Connections taken from the pool.
    pub pool_hits: u64,
    /// Connections opened on demand because the pool was empty.
    pub pool_misses: u64,
    /// Connection attempts that failed.
    pub connection_failures: u64,
    /// Failures since the last success.
    pub consecutive_failures: u64,
    /// Whether the backend is considered a black hole.
    pub is_blackhole: bool,
}

/// A copy of the pool counters.
#[derive(Debug, Clone, Copy, PartialEq, Eq, Structural)]
pub struct PoolStatsSnapshot {
    pub total_created: u64,
    pub pool_hits: u64,
    pub pool_misses: u64,
    pub connection_failures: u64,
    pub consecutive_failures: u64,
    pub is_blackhole: bool,
}

impl Default for PoolStats {
    fn default() -> (r: Self)
        ensures
            r.total_created == 0 && r.pool_hits == 0 && r.pool_misses == 0 && r.connection_failures == 0
                && r.consecutive_failures == 0 && !r.is_blackhole,
    {
        PoolStats {
            total_created: 0,
            pool_hits: 0,
            pool_misses: 0,
            connection_failures: 0,
            consecutive_failures: 0,
            is_blackhole: false,
        }
    }
}

pub open spec fn inc(x: u64) -> u64 {
    vstd::wrapping::u64_specs::wrapping_add(x, 1)
}

impl PoolStats {
    /// A pooled connection was handed out.
    pub fn record_hit(&mut self)
        ensures
            final(self).pool_hits == inc(old(self).pool_hits),
            final(self).total_created == old(self).total_created,
            final(self).pool_misses == old(self).pool_misses,
            final(self).connection_failures == old(self).connection_failures,
            final(self).consecutive_failures == old(self).consecutive_failures,
            final(self).is_blackhole == old(self).is_blackhole,
    {
        self.pool_hits = self.pool_hits.wrapping_add(1);
    }

    /// The pool was empty and a connection is opened on demand.
    pub fn record_miss(&mut self)
        ensures
            final(self).pool_misses == inc(old(self).pool_misses),
            final(self).total_created == old(self).total_created,
            final(self).pool_hits == old(self).pool_hits,
            final(self).connection_failures == old(self).connection_failures,
            final(self).consecutive_failures == old(self).consecutive_failures,
            final(self).is_blackhole == old(self).is_blackhole,
    {
        self.pool_misses = self.pool_misses.wrapping_add(1);
    }

    /// A pooled connection proved alive: the failure streak ends.
    pub fn record_alive(&mut self)
        ensures
            final(self).consecutive_failures == 0,
            final(self).total_created == old(self).total_created,
            final(self).pool_hits == old(self).pool_hits,
            final(self).pool_misses == old(self).pool_misses,
            final(self).connection_failures == old(self).connection_failures,
            final(self).is_blackhole == old(self).is_blackhole,
    {
        self.consecutive_failures = 0;
    }

    /// A connection was opened: one more created, and the failure streak
    /// ends.
    pub fn record_connected(&mut self)
        ensures
            final(self).total_created == inc(old(self).total_created),
            final(self).consecutive_failures == 0,
            final(self).pool_hits == old(self).pool_hits,
            final(self).pool_misses == old(self).pool_misses,
            final(self).connection_failures == old(self).connection_failures,
            final(self).is_blackhole == old(self).is_blackhole,
    {
        self.total_created = self.total_created.wrapping_add(1);
        self.consecutive_failures = 0;
    }

    /// A background refill opened a connection (the failure streak is left
    /// as it is).
    pub fn record_refilled(&mut self)
        ensures
            final(self).total_created == inc(old(self).total_created),
            final(self).consecutive_failures == old(self).consecutive_failures,
            final(self).pool_hits == old(self).pool_hits,
            final(self).pool_misses == old(self).pool_misses,
            final(self).connection_failures == old(self).connection_failures,
            final(self).is_blackhole == old(self).is_blackhole,
    {
        self.total_created = self.total_created.wrapping_add(1);
    }

    /// A background refill failed (the failure streak is left as it is).
    pub fn record_refill_failed(&mut self)
        ensures
            final(self).connection_failures == inc(old(self).connection_failures),
            final(self).total_created == old(self).total_created,
            final(self).consecutive_failures == old(self).consecutive_failures,
            final(self).pool_hits == old(self).pool_hits,
            final(self).pool_misses == old(self).pool_misses,
            final(self).is_blackhole == old(self).is_blackhole,
    {
        self.connection_failures = self.connection_failures.wrapping_add(1);
    }

    /// Opening a connection failed: the streak grows, and reaching the
    /// threshold marks the backend as a black hole. Tells whether it is one
    /// now.
    pub fn record_failure(&mut self, threshold: u64) -> (blackhole: bool)
        ensures
            final(self).connection_failures == inc(old(self).connection_failures),
            final(self).consecutive_failures == inc(old(self).consecutive_failures),
            final(self).is_blackhole == (old(self).is_blackhole || inc(old(self).consecutive_failures)
                >= threshold),
            blackhole == (inc(old(self).consecutive_failures) >= threshold),
            final(self).total_created == old(self).total_created,
            final(self).pool_hits == old(self).pool_hits,
            final(self).pool_misses == old(self).pool_misses,
    {
        self.connection_failures = self.connection_failures.wrapping_add(1);
        self.consecutive_failures = self.consecutive_failures.wrapping_add(1);
        let reached = self.consecutive_failures >= threshold;
        if reached {
            self.is_blackhole = true;
        }
        reached
    }

    /// The error a request for a connection gets once the backend is a black
    /// hole; none before.
    pub fn refusal(&self) -> (r: Option<ProxyError>)
        ensures
            self.is_blackhole ==> (r matches Some(ProxyError::ConnectionPoolError(m)) && m@
                == "Target server is marked as blackhole (unreachable)"@),
            !self.is_blackhole ==> r is None,
    {
        if self.is_blackhole {
            Some(
                ProxyError::ConnectionPoolError(
                    string_from("Target server is marked as blackhole (unreachable)"),
                ),
            )
        } else {
            None
        }
    }

    /// A copy of the counters.
    pub fn snapshot(&self) -> (r: PoolStatsSnapshot)
        ensures
            r.total_created == self.total_created,
            r.pool_hits == self.pool_hits,
            r.pool_misses == self.pool_misses,
            r.connection_failures == self.connection_failures,
            r.consecutive_failures == self.consecutive_failures,
            r.is_blackhole == self.is_blackhole,
    {
        PoolStatsSnapshot {
            total_created: self.total_created,
            pool_hits: self.pool_hits,
            pool_misses: self.pool_misses,
            connection_failures: self.connection_failures,
            consecutive_failures: self.consecutive_failures,
            is_blackhole: self.is_blackhole,
        }
    }
}

} // verus!
