//! The background schedule's decisions: which backups are due for a check
//! and whether the license receipt should be refreshed.

use vstd::prelude::*;
use crate::commands::contains_id;
use crate::license::{LicenseInfo, needs_revalidation, revalidation_due_at};
use crate::models::{BackupTarget, days_in_period};
use crate::time::{Instant, now, parse_rfc3339, rfc3339_instant, seconds_between, seconds_since};

verus! {

/// Whether `backup` is due for a check at `now`: never checked, or its last
/// check time does not parse, or at least one schedule period (in whole
/// seconds) has passed since it.
pub open spec fn due_at(backup: BackupTarget, now: Instant) -> bool {
    match backup.last_check_at {
        None => true,
        Some(ts) => match rfc3339_instant(ts@) {
            Some(t) => seconds_between(now, t) >= backup.schedule.interval(),
            None => true,
        },
    }
}

/// Whether `backup` is due for a check at `now`.
pub fn is_due_at(backup: &BackupTarget, now: Instant) -> (r: bool)
    ensures
        r == due_at(*backup, now),
        match backup.last_check_at {
            Some(ts) => match rfc3339_instant(ts@) {
                Some(t) => r == (seconds_between(now, t) >= days_in_period(backup.schedule) * 86400),
                None => r,
            },
            None => r,
        },
{
    match &backup.last_check_at {
        None => true,
        Some(ts) => match parse_rfc3339(ts.as_str()) {
            Some(p) => seconds_since(now, p.at) >= backup.schedule.interval_seconds() as i128,
            None => true,
        },
    }
}

/// A backup is due by its own schedule: when its last check reads, exactly
/// when the whole seconds since it reach one period of that schedule (one,
/// seven or thirty days); never checked, or with a last check that does not
/// read, it is always due.
pub proof fn due_after_own_period(backup: BackupTarget, now: Instant)
    ensures
        match backup.last_check_at {
            Some(ts) => match rfc3339_instant(ts@) {
                Some(t) => due_at(backup, now) == (seconds_between(now, t) >= days_in_period(backup.schedule) * 86400),
                None => due_at(backup, now),
            },
            None => due_at(backup, now),
        },
{
}

/// Whole seconds never decrease as the span grows.
proof fn lemma_whole_seconds_monotone(d1: int, d2: int)
    requires
        d1 <= d2,
    ensures
        crate::time::whole_seconds(d1) <= crate::time::whole_seconds(d2),
{
    if d1 >= 0 {
        vstd::arithmetic::div_mod::lemma_div_is_ordered(d1, d2, 1_000_000_000);
    } else if d2 >= 0 {
        vstd::arithmetic::div_mod::lemma_div_pos_is_pos(-d1, 1_000_000_000);
        vstd::arithmetic::div_mod::lemma_div_pos_is_pos(d2, 1_000_000_000);
    } else {
        vstd::arithmetic::div_mod::lemma_div_is_ordered(-d2, -d1, 1_000_000_000);
    }
}

/// A backup that is due stays due as time goes on, and a backup due on a
/// schedule is due on every shorter one with the same last check.
pub proof fn due_stays_due(backup: BackupTarget, shorter: BackupTarget, now: Instant, later: Instant)
    requires
        later.total_nanos() >= now.total_nanos(),
        shorter.last_check_at == backup.last_check_at,
        days_in_period(shorter.schedule) <= days_in_period(backup.schedule),
    ensures
        due_at(backup, now) ==> due_at(backup, later),
        due_at(backup, now) ==> due_at(shorter, now),
{
    crate::models::period_is_whole_days(backup.schedule);
    crate::models::period_is_whole_days(shorter.schedule);
    match backup.last_check_at {
        Some(ts) => match rfc3339_instant(ts@) {
            Some(t) => {
                lemma_whole_seconds_monotone(now.total_nanos() - t.total_nanos(), later.total_nanos() - t.total_nanos());
            },
            None => {},
        },
        None => {},
    }
}

/// Whether `backup` is due for a check, by the clock. A backup never checked,
/// or whose last check time does not parse, is always due.
pub fn is_due(backup: &BackupTarget) -> (r: bool)
    ensures
        exists|now: Instant| r == due_at(*backup, now),
        backup.last_check_at is None ==> r,
{
    is_due_at(backup, now())
}

/// The ids, in list order, of the first `n` backups that are due at `now`
/// and entitled.
pub open spec fn due_ids(backups: Seq<BackupTarget>, entitled: Seq<String>, now: Instant, n: int) -> Seq<Seq<char>>
    decreases n,
{
    if n <= 0 {
        Seq::empty()
    } else {
        let b = backups[n - 1];
        let rest = due_ids(backups, entitled, now, n - 1);
        if due_at(b, now) && contains_id(entitled, b.id@) {
            rest.push(b.id@)
        } else {
            rest
        }
    }
}

/// Every id chosen is of a backup that is due and entitled.
pub proof fn due_ids_are_due_and_entitled(backups: Seq<BackupTarget>, entitled: Seq<String>, now: Instant, n: int)
    requires
        0 <= n <= backups.len(),
    ensures
        forall|k: int|
            0 <= k < due_ids(backups, entitled, now, n).len() ==> exists|i: int|
                0 <= i < n && backups[i].id@ == #[trigger] due_ids(backups, entitled, now, n)[k]
                    && due_at(backups[i], now) && contains_id(entitled, backups[i].id@),
    decreases n,
{
    if n > 0 {
        due_ids_are_due_and_entitled(backups, entitled, now, n - 1);
        let rest = due_ids(backups, entitled, now, n - 1);
        let all = due_ids(backups, entitled, now, n);
        assert forall|k: int| 0 <= k < all.len() implies exists|i: int|
            0 <= i < n && backups[i].id@ == #[trigger] all[k] && due_at(backups[i], now)
                && contains_id(entitled, backups[i].id@) by {
            if k < rest.len() {
                assert(all[k] == rest[k]);
                let i = choose|i: int|
                    0 <= i < n - 1 && backups[i].id@ == #[trigger] rest[k] && due_at(backups[i], now)
                        && contains_id(entitled, backups[i].id@);
                assert(0 <= i < n);
            } else {
                assert(0 <= n - 1 < n && backups[n - 1].id@ == all[k]);
            }
        }
    }
}

/// The ids of the backups to check at `now`: due, and among the entitled
/// ones (re-derived every tick, so a row added behind the app's back is
/// never checked just because it exists).
pub fn due_backup_ids_at(backups: &Vec<BackupTarget>, entitled: &Vec<String>, now: Instant) -> (ids: Vec<String>)
    ensures
        crate::text::views(ids@) == due_ids(backups@, entitled@, now, backups@.len() as int),
{
    let mut ids: Vec<String> = Vec::new();
    let mut i: usize = 0;
    while i < backups.len()
        invariant
            i <= backups@.len(),
            crate::text::views(ids@) == due_ids(backups@, entitled@, now, i as int),
        decreases backups@.len() - i,
    {
        let b = &backups[i];
        if is_due_at(b, now) && crate::commands::check_now_allowed(entitled, b.id.as_str()).is_ok() {
            ids.push(b.id.clone());
        }
        assert(crate::text::views(ids@) =~= due_ids(backups@, entitled@, now, i + 1));
        i += 1;
    }
    ids
}

/// The ids of the backups to check now, by the clock.
pub fn due_backup_ids(backups: &Vec<BackupTarget>, entitled: &Vec<String>) -> (ids: Vec<String>)
    ensures
        exists|now: Instant|
            #[trigger] due_ids(backups@, entitled@, now, backups@.len() as int) == crate::text::views(ids@),
{
    due_backup_ids_at(backups, entitled, now())
}

/// Whether to ask the server for a fresh receipt, given the current license
/// status: always when there is none (expired or no longer verifiable),
/// else when its expiry is near or unreadable.
pub fn revalidation_due(license: &Option<LicenseInfo>) -> (r: bool)
    ensures
        license is None ==> r,
        license matches Some(info) ==> exists|now: Instant| r == revalidation_due_at(info.expires_at@, now),
        license matches Some(info) && rfc3339_instant(info.expires_at@) is None ==> r,
{
    match license {
        None => true,
        Some(info) => needs_revalidation(info.expires_at.as_str()),
    }
}

} // verus!
