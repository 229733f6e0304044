//! When the dumps are looked at, and what is done then.
use crate::config::ImdbConfig;
use vstd::prelude::*;

verus! {

/// How many seconds after the start the dumps are looked at first.
pub const FIRST_CHECK_SECS: u64 = 10;

/// What is done after the dumps were looked at.
#[derive(Debug, Clone, Copy, PartialEq, Eq, Structural)]
pub enum SchedulerStep {
    /// The index is built anew.
    Index,
    /// The index is being built already.
    Skip,
    /// There is nothing new.
    Wait,
}

/// When the dumps are looked at.
#[derive(Debug, Clone, Copy)]
pub struct UpdateScheduler {
    /// How many hours lie between two looks.
    pub interval_hours: u64,
    /// How many seconds lie between two looks.
    pub interval_secs: u64,
}

/// What is done after the dumps were looked at.
pub open spec fn step_after(found: Option<bool>, is_indexing: bool) -> SchedulerStep {
    if found != Some(true) {
        SchedulerStep::Wait
    } else if is_indexing {
        SchedulerStep::Skip
    } else {
        SchedulerStep::Index
    }
}

/// How many hours lie between two looks: one at least.
pub open spec fn hours_between(configured: u64) -> u64 {
    if configured < 1 {
        1
    } else {
        configured
    }
}

impl UpdateScheduler {
    /// The plan by which the dumps are looked at, if they are at all: at least an hour lies between
    /// two looks.
    pub fn plan(config: &ImdbConfig) -> (r: Option<UpdateScheduler>)
        requires
            config.auto_update ==> config.check_interval_hours * 3600 <= u64::MAX,
        ensures
            match r {
                Some(plan) => {
                    &&& config.auto_update
                    &&& plan.interval_hours == hours_between(config.check_interval_hours)
                    &&& plan.interval_secs == plan.interval_hours * 3600
                },
                None => !config.auto_update,
            },
    {
        if !config.auto_update {
            return None;
        }
        let interval_hours: u64 = if config.check_interval_hours < 1 {
            1
        } else {
            config.check_interval_hours
        };
        Some(UpdateScheduler { interval_hours, interval_secs: interval_hours * 3600 })
    }

    /// What is done after the dumps were looked at. A look that failed found nothing.
    pub fn step(found: Option<bool>, is_indexing: bool) -> (r: SchedulerStep)
        ensures
            r == step_after(found, is_indexing),
    {
        match found {
            Some(true) => if is_indexing {
                SchedulerStep::Skip
            } else {
                SchedulerStep::Index
            },
            _ => SchedulerStep::Wait,
        }
    }
}

/// The index is built anew exactly where something new was found and it is not being built. While it
/// is being built nothing is begun, and without news nothing is done.
pub proof fn law_news_are_indexed(is_indexing: bool)
    ensures
        step_after(Some(true), false) == SchedulerStep::Index,
        step_after(Some(true), true) == SchedulerStep::Skip,
        step_after(Some(false), is_indexing) == SchedulerStep::Wait,
        step_after(None, is_indexing) == SchedulerStep::Wait,
{
}

/// As many hours lie between two looks as are configured, but never none.
pub proof fn law_looks_are_an_hour_apart(configured: u64)
    ensures
        configured >= 1 ==> hours_between(configured) == configured,
        hours_between(0) == 1,
        FIRST_CHECK_SECS == 10,
{
}

} // verus!
