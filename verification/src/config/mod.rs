//! What a store is configured with.
pub mod fraction;

use crate::config::fraction::Fraction;
use crate::types::Error;
use vstd::prelude::*;

verus! {

/// The longest time between two checks, in seconds: the next check has to be a point in time that
/// the clock can represent.
pub const MAX_CHECK_SECONDS: u64 = 0xffff_ffff;

/// A span of time.
#[derive(Clone, Copy, Debug, PartialEq, Eq, Structural)]
pub struct Interval {
    pub secs: u64,
    /// Less than a second.
    pub nanos: u32,
}

impl Interval {
    pub open spec fn nanoseconds(self) -> nat {
        self.secs as nat * 1_000_000_000 + self.nanos as nat
    }

    pub open spec fn wf(self) -> bool {
        self.nanos < 1_000_000_000
    }

    /// The shorter of two intervals.
    pub open spec fn shorter(self, other: Interval) -> Interval {
        if self.nanoseconds() <= other.nanoseconds() {
            self
        } else {
            other
        }
    }

    pub fn min(self, other: Interval) -> (r: Interval)
        requires
            self.wf(),
            other.wf(),
        ensures
            r == self.shorter(other),
    {
        if self.secs < other.secs || (self.secs == other.secs && self.nanos <= other.nanos) {
            self
        } else {
            other
        }
    }
}

/// When and how much of the log is compacted without being asked.
#[derive(Clone, Copy, Debug, PartialEq, Eq, Structural)]
pub struct AutoCompactionPolicy {
    /// The size of the log that is aimed at. It starts a compaction; it is no strict limit.
    pub log_size_budget: u64,
    /// The part of the budget that has to be in use.
    pub trigger_fraction: Fraction,
    /// The part of the log that one compaction covers.
    pub compact_fraction: Fraction,
    pub max_compacted_bytes: u64,
    pub check_interval: Interval,
}

impl Default for AutoCompactionPolicy {
    /// Four fifths of a budget that is still to be set, a fifth of the log and at most 512 MiB at
    /// once, and four checks in a second.
    fn default() -> (r: AutoCompactionPolicy)
        ensures
            r == (AutoCompactionPolicy {
                log_size_budget: 0,
                trigger_fraction: Fraction { bits: 0x3fe9_9999_9999_999a },
                compact_fraction: Fraction { bits: 0x3fc9_9999_9999_999a },
                max_compacted_bytes: 0x2000_0000,
                check_interval: Interval { secs: 0, nanos: 250_000_000 },
            }),
    {
        AutoCompactionPolicy {
            log_size_budget: 0,
            trigger_fraction: Fraction { bits: 0x3fe9_9999_9999_999a },
            compact_fraction: Fraction { bits: 0x3fc9_9999_9999_999a },
            max_compacted_bytes: 0x2000_0000,
            check_interval: Interval { secs: 0, nanos: 250_000_000 },
        }
    }
}

#[derive(Clone, Copy, Debug, PartialEq, Eq, Structural)]
pub struct MaintenanceConfig {
    pub auto_compaction: bool,
    pub auto_compaction_policy: AutoCompactionPolicy,
    /// How many workers a compaction has that nobody asked for.
    pub workers: usize,
    pub max_compaction_workers: usize,
    /// How many keys a compaction may hold, and how many bytes of keys.
    pub max_compaction_keys: usize,
    pub max_compaction_key_bytes: usize,
}

#[derive(Clone, Copy, Debug, PartialEq, Eq, Structural)]
pub struct LogConfig {
    pub page_bytes: usize,
}

#[derive(Clone, Copy, Debug, PartialEq, Eq, Structural)]
pub struct SessionConfig {
    pub max_pending: usize,
    pub max_results: usize,
}

#[derive(Clone, Copy, Debug, PartialEq, Eq, Structural)]
pub struct CacheConfig {
    pub enabled: bool,
}

#[derive(Clone, Copy, Debug, PartialEq, Eq, Structural)]
pub struct Config {
    pub maintenance: MaintenanceConfig,
    pub log: LogConfig,
    pub session: SessionConfig,
    pub cache: CacheConfig,
}

impl Default for Config {
    fn default() -> (r: Config)
        ensures
            r.refusal() is None,
            !r.maintenance.auto_compaction,
            r.maintenance.auto_compaction_policy.log_size_budget == 0,
            !r.cache.enabled,
    {
        Config {
            maintenance: MaintenanceConfig {
                auto_compaction: false,
                auto_compaction_policy: AutoCompactionPolicy::default(),
                workers: 1,
                max_compaction_workers: 8,
                max_compaction_keys: 0x10_0000,
                max_compaction_key_bytes: 0x400_0000,
            },
            log: LogConfig { page_bytes: 0x40_0000 },
            session: SessionConfig { max_pending: 1024, max_results: 1024 },
            cache: CacheConfig { enabled: false },
        }
    }
}

pub open spec fn invalid(field: &'static str, reason: &'static str) -> Option<Error> {
    Some(Error::InvalidConfig { field, reason })
}

impl AutoCompactionPolicy {
    /// What is wrong with the policy, for a log with pages of this size.
    pub open spec fn refusal(self, page_bytes: usize) -> Option<Error> {
        if self.log_size_budget == 0 {
            invalid("maintenance.log_size_budget", "the budget must not be zero")
        } else if !self.trigger_fraction.valid() {
            invalid("maintenance.trigger_fraction", "the fraction must be above 0 and at most 1")
        } else if !self.compact_fraction.valid() {
            invalid("maintenance.compact_fraction", "the fraction must be above 0 and at most 1")
        } else if self.check_interval.nanoseconds() == 0 || self.check_interval.nanos
            >= 1_000_000_000 || self.check_interval.secs > MAX_CHECK_SECONDS {
            invalid("maintenance.check_interval", "the interval is zero or too long")
        } else if self.max_compacted_bytes < page_bytes {
            invalid("maintenance.max_compacted_bytes", "less than one page cannot be compacted")
        } else {
            None
        }
    }
}

impl Config {
    /// What is wrong with the configuration. The policy counts only where it is used.
    pub open spec fn refusal(self) -> Option<Error> {
        if self.log.page_bytes == 0 {
            invalid("log.page_bytes", "a page must not be empty")
        } else if self.maintenance.auto_compaction {
            self.maintenance.auto_compaction_policy.refusal(self.log.page_bytes)
        } else {
            None
        }
    }

    pub fn validate(&self) -> (r: Result<(), Error>)
        ensures
            r == (match self.refusal() {
                Some(error) => Err::<(), Error>(error),
                None => Ok::<(), Error>(()),
            }),
    {
        if self.log.page_bytes == 0 {
            return Err(
                Error::InvalidConfig { field: "log.page_bytes", reason: "a page must not be empty" },
            );
        }
        if !self.maintenance.auto_compaction {
            return Ok(());
        }
        let policy = &self.maintenance.auto_compaction_policy;
        if policy.log_size_budget == 0 {
            return Err(
                Error::InvalidConfig {
                    field: "maintenance.log_size_budget",
                    reason: "the budget must not be zero",
                },
            );
        }
        if !policy.trigger_fraction.is_valid() {
            return Err(
                Error::InvalidConfig {
                    field: "maintenance.trigger_fraction",
                    reason: "the fraction must be above 0 and at most 1",
                },
            );
        }
        if !policy.compact_fraction.is_valid() {
            return Err(
                Error::InvalidConfig {
                    field: "maintenance.compact_fraction",
                    reason: "the fraction must be above 0 and at most 1",
                },
            );
        }
        let interval = policy.check_interval;
        if (interval.secs == 0 && interval.nanos == 0) || interval.nanos >= 1_000_000_000
            || interval.secs > MAX_CHECK_SECONDS {
            return Err(
                Error::InvalidConfig {
                    field: "maintenance.check_interval",
                    reason: "the interval is zero or too long",
                },
            );
        }
        if policy.max_compacted_bytes < self.log.page_bytes as u64 {
            return Err(
                Error::InvalidConfig {
                    field: "maintenance.max_compacted_bytes",
                    reason: "less than one page cannot be compacted",
                },
            );
        }
        Ok(())
    }
}

/// A configuration is refused for an empty page, and where the log is compacted without being asked,
/// for a policy that cannot be used: no budget, a fraction that is not above zero and at most one, an
/// interval that is no time or too long, or less than a page at once. Nothing else is refused.
pub proof fn law_what_is_refused(config: Config)
    ensures
        ({
            let policy = config.maintenance.auto_compaction_policy;
            let interval = policy.check_interval;
            config.refusal() is None <==> {
                &&& config.log.page_bytes > 0
                &&& config.maintenance.auto_compaction ==> {
                    &&& policy.log_size_budget > 0
                    &&& 0 < policy.trigger_fraction.bits <= 0x3ff0_0000_0000_0000
                    &&& 0 < policy.compact_fraction.bits <= 0x3ff0_0000_0000_0000
                    &&& interval.secs > 0 || interval.nanos > 0
                    &&& interval.nanos < 1_000_000_000
                    &&& interval.secs <= 0xffff_ffff
                    &&& policy.max_compacted_bytes >= config.log.page_bytes
                }
            }
        }),
{
}

/// The first thing that is wrong is named, and it is one of the configuration.
pub proof fn law_refusal_names_the_field(config: Config)
    ensures
        config.refusal() matches Some(error) ==> error is InvalidConfig,
        config.log.page_bytes == 0 ==> config.refusal()->0->field == "log.page_bytes",
        config.log.page_bytes > 0 && config.maintenance.auto_compaction ==> {
            let policy = config.maintenance.auto_compaction_policy;
            &&& policy.log_size_budget == 0 ==> config.refusal()->0->field
                == "maintenance.log_size_budget"
            &&& policy.log_size_budget > 0 && !policy.trigger_fraction.valid()
                ==> config.refusal()->0->field == "maintenance.trigger_fraction"
            &&& policy.log_size_budget > 0 && policy.trigger_fraction.valid()
                && !policy.compact_fraction.valid() ==> config.refusal()->0->field
                == "maintenance.compact_fraction"
        },
{
}

/// The shorter of two intervals is one of them, and not longer than either.
pub proof fn law_shorter(a: Interval, b: Interval)
    ensures
        a.shorter(b) == a || a.shorter(b) == b,
        a.shorter(b).secs * 1_000_000_000 + a.shorter(b).nanos <= a.secs * 1_000_000_000 + a.nanos,
        a.shorter(b).secs * 1_000_000_000 + a.shorter(b).nanos <= b.secs * 1_000_000_000 + b.nanos,
{
}

} // verus!
