//! Silence unless broken: a native notification is only ever raised when a
//! check comes back with a warning or an error.

use vstd::prelude::*;
use crate::models::{BackupTarget, CheckStatus};

verus! {

/// The notification title for a check of the backup named `name` that
/// ended with `status`, or `None` when the check is not worth interrupting
/// anyone for.
pub open spec fn problem_title(status: CheckStatus, name: Seq<char>) -> Option<Seq<char>> {
    match status {
        CheckStatus::Error => Some("Проблема с бэкапом «"@ + name + "»"@),
        CheckStatus::Warning => Some("Стоит проверить бэкап «"@ + name + "»"@),
        _ => None,
    }
}

/// The title of the notification to show for a finished check, if any.
pub fn problem_notification_title(backup: &BackupTarget, status: CheckStatus) -> (r: Option<String>)
    ensures
        match problem_title(status, backup.name@) {
            Some(t) => r matches Some(s) && s@ == t,
            None => r is None,
        },
{
    match status {
        CheckStatus::Error => {
            let mut t = String::from_str("Проблема с бэкапом «");
            t.append(backup.name.as_str());
            t.append("»");
            Some(t)
        },
        CheckStatus::Warning => {
            let mut t = String::from_str("Стоит проверить бэкап «");
            t.append(backup.name.as_str());
            t.append("»");
            Some(t)
        },
        _ => None,
    }
}

/// Healthy and pending checks never raise a notification.
pub proof fn quiet_unless_broken(status: CheckStatus, name: Seq<char>)
    ensures
        problem_title(status, name) is Some <==> (status == CheckStatus::Warning || status
            == CheckStatus::Error),
{
}

} // verus!
