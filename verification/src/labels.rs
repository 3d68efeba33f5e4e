//! What the user is shown of intervals and of a directory's status.

use vstd::prelude::*;

verus! {

/// How often a remote is synced.
#[derive(Clone, Copy, Debug, PartialEq, Eq, Structural)]
pub enum Interval {
    FiveSeconds,
    FifteenSeconds,
    ThirtySeconds,
    OneMinute,
    FiveMinutes,
    FifteenMinutes,
    ThirtyMinutes,
    OneHour,
}

impl Interval {
    /// What the interval is called.
    pub fn label(self) -> (label: &'static str)
        ensures
            label@ == match self {
                Interval::FiveSeconds => "5 s"@,
                Interval::FifteenSeconds => "15 s"@,
                Interval::ThirtySeconds => "30 s"@,
                Interval::OneMinute => "1 min"@,
                Interval::FiveMinutes => "5 min"@,
                Interval::FifteenMinutes => "15 min"@,
                Interval::ThirtyMinutes => "30 min"@,
                Interval::OneHour => "1 hour"@,
            },
    {
        match self {
            Interval::FiveSeconds => "5 s",
            Interval::FifteenSeconds => "15 s",
            Interval::ThirtySeconds => "30 s",
            Interval::OneMinute => "1 min",
            Interval::FiveMinutes => "5 min",
            Interval::FifteenMinutes => "15 min",
            Interval::ThirtyMinutes => "30 min",
            Interval::OneHour => "1 hour",
        }
    }
}

/// The status of a synced directory.
#[derive(Clone, Copy, Debug, PartialEq, Eq, Structural)]
pub enum SyncStatus {
    Idle,
    Syncing,
    Synced,
    Failed,
}

impl SyncStatus {
    /// What the status is called.
    pub fn label(self) -> (label: &'static str)
        ensures
            label@ == match self {
                SyncStatus::Idle => "Idle"@,
                SyncStatus::Syncing => "Syncing…"@,
                SyncStatus::Synced => "Synced"@,
                SyncStatus::Failed => "Error"@,
            },
    {
        match self {
            SyncStatus::Idle => "Idle",
            SyncStatus::Syncing => "Syncing…",
            SyncStatus::Synced => "Synced",
            SyncStatus::Failed => "Error",
        }
    }
}

} // verus!
