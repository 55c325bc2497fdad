//! The data the app tracks: backup targets, their schedules, and the results
//! of each check run.

use vstd::prelude::*;
use crate::text::str_eq;

verus! {

/// How often a backup target should be checked.
#[derive(Debug, Clone, Copy, PartialEq, Eq, Structural)]
pub enum Schedule {
    Daily,
    Weekly,
    Monthly,
}

impl Schedule {
    /// The name under which a schedule is stored.
    pub open spec fn name(self) -> Seq<char> {
        match self {
            Schedule::Daily => "daily"@,
            Schedule::Weekly => "weekly"@,
            Schedule::Monthly => "monthly"@,
        }
    }

    /// The schedule a stored name stands for; anything unrecognised is daily.
    pub open spec fn parse(s: Seq<char>) -> Schedule {
        if s == "weekly"@ {
            Schedule::Weekly
        } else if s == "monthly"@ {
            Schedule::Monthly
        } else {
            Schedule::Daily
        }
    }

    /// Length of one period, in seconds.
    pub open spec fn interval(self) -> int {
        match self {
            Schedule::Daily => 86400int,
            Schedule::Weekly => 604800int,
            Schedule::Monthly => 2592000int,
        }
    }

    pub fn as_str(&self) -> (s: &'static str)
        ensures
            s@ == self.name(),
    {
        match self {
            Schedule::Daily => "daily",
            Schedule::Weekly => "weekly",
            Schedule::Monthly => "monthly",
        }
    }

    pub fn from_str(s: &str) -> (r: Self)
        ensures
            r == Schedule::parse(s@),
    {
        if str_eq(s, "weekly") {
            Schedule::Weekly
        } else if str_eq(s, "monthly") {
            Schedule::Monthly
        } else {
            Schedule::Daily
        }
    }

    /// Interval used both to decide when a check is due and to judge staleness
    /// (a backup that hasn't been touched for longer than this is suspicious).
    pub fn interval_seconds(&self) -> (r: i64)
        ensures
            r == self.interval(),
    {
        match self {
            Schedule::Daily => 24 * 3600,
            Schedule::Weekly => 7 * 24 * 3600,
            Schedule::Monthly => 30 * 24 * 3600,
        }
    }
}

/// The days in one period of a schedule: one for daily, seven for weekly,
/// thirty for monthly.
pub open spec fn days_in_period(s: Schedule) -> int {
    match s {
        Schedule::Daily => 1,
        Schedule::Weekly => 7,
        Schedule::Monthly => 30,
    }
}

/// A schedule's period is its number of days, in seconds: a week is seven
/// daily periods and a month thirty.
pub proof fn period_is_whole_days(s: Schedule)
    ensures
        s.interval() == days_in_period(s) * 86400,
        Schedule::Weekly.interval() == 7 * Schedule::Daily.interval(),
        Schedule::Monthly.interval() == 30 * Schedule::Daily.interval(),
        s.interval() > 0,
{
}

/// Reading back the stored name of a schedule gives the same schedule.
pub proof fn schedule_name_round_trip(s: Schedule)
    ensures
        Schedule::parse(s.name()) == s,
{
    reveal_strlit("daily");
    reveal_strlit("weekly");
    reveal_strlit("monthly");
    assert("daily"@ != "weekly"@ && "daily"@ != "monthly"@ && "weekly"@ != "monthly"@) by {
        assert("daily"@.len() == 5 && "weekly"@.len() == 6 && "monthly"@.len() == 7);
    }
}

/// Overall verdict of the most recent check, shown as the status pill in the UI.
#[derive(Debug, Clone, Copy, PartialEq, Eq, Structural)]
pub enum CheckStatus {
    /// Nothing wrong found (stored as "ok").
    Healthy,
    Warning,
    Error,
    /// Never checked yet (just added).
    Pending,
}

impl CheckStatus {
    /// The name under which a status is stored.
    pub open spec fn name(self) -> Seq<char> {
        match self {
            CheckStatus::Healthy => "ok"@,
            CheckStatus::Warning => "warning"@,
            CheckStatus::Error => "error"@,
            CheckStatus::Pending => "pending"@,
        }
    }

    /// The status a stored name stands for; anything unrecognised is pending.
    pub open spec fn parse(s: Seq<char>) -> CheckStatus {
        if s == "ok"@ {
            CheckStatus::Healthy
        } else if s == "warning"@ {
            CheckStatus::Warning
        } else if s == "error"@ {
            CheckStatus::Error
        } else {
            CheckStatus::Pending
        }
    }

    pub fn as_str(&self) -> (s: &'static str)
        ensures
            s@ == self.name(),
    {
        match self {
            CheckStatus::Healthy => "ok",
            CheckStatus::Warning => "warning",
            CheckStatus::Error => "error",
            CheckStatus::Pending => "pending",
        }
    }

    pub fn from_str(s: &str) -> (r: Self)
        ensures
            r == CheckStatus::parse(s@),
    {
        if str_eq(s, "ok") {
            CheckStatus::Healthy
        } else if str_eq(s, "warning") {
            CheckStatus::Warning
        } else if str_eq(s, "error") {
            CheckStatus::Error
        } else {
            CheckStatus::Pending
        }
    }
}

/// Reading back the stored name of a status gives the same status.
pub proof fn status_name_round_trip(s: CheckStatus)
    ensures
        CheckStatus::parse(s.name()) == s,
{
    reveal_strlit("ok");
    reveal_strlit("warning");
    reveal_strlit("error");
    reveal_strlit("pending");
    assert("ok"@ != "warning"@ && "ok"@ != "error"@ && "ok"@ != "pending"@) by {
        assert("ok"@.len() == 2 && "warning"@.len() == 7 && "error"@.len() == 5
            && "pending"@.len() == 7);
    }
    assert("warning"@ != "error"@ && "warning"@ != "pending"@ && "error"@ != "pending"@) by {
        assert("warning"@[0] == 'w' && "pending"@[0] == 'p' && "error"@.len() == 5);
    }
}

/// A tracked backup folder.
#[derive(Debug, Clone)]
pub struct BackupTarget {
    pub id: String,
    pub name: String,
    pub path: String,
    pub schedule: Schedule,
    pub created_at: String,
    pub last_check_at: Option<String>,
    pub last_status: CheckStatus,
    pub last_message: Option<String>,
    /// True if this backup is beyond the install's current license quota —
    /// set when backups are listed, not stored in the database. The
    /// scheduler and manual checks both refuse to act on a locked backup,
    /// so a row that ends up here some other way than by adding a backup
    /// (e.g. inserted directly into the database) is inert, not a working
    /// extra backup.
    pub locked: bool,
}

/// The result of one check of one backup.
#[derive(Debug, Clone)]
pub struct CheckRun {
    pub id: i64,
    pub backup_id: String,
    pub started_at: String,
    pub finished_at: String,
    pub status: CheckStatus,
    pub message: String,
    pub files_scanned: i64,
    pub files_sampled: i64,
    pub files_changed_unexpectedly: i64,
    pub files_missing: i64,
    pub newest_file_at: Option<String>,
}

/// The stored baseline of one file: what it looked like when last hashed.
#[derive(Debug, Clone)]
pub struct FileRecord {
    pub rel_path: String,
    pub size: i64,
    pub mtime: String,
    pub hash: String,
    /// The number of the check run that last hashed the file.
    pub verified_run: u64,
}

/// What the user asks for to register a new backup target.
#[derive(Debug, Clone)]
pub struct NewBackup {
    pub name: String,
    pub path: String,
    pub schedule: Schedule,
}

} // verus!
