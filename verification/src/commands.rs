//! The decisions behind the app's commands: whether a backup may be added,
//! which listed backups are locked, and whether a manual check may run.

use vstd::prelude::*;
use vstd::hash_set::StringHashSet;
use crate::models::BackupTarget;
use crate::text::{int_decimal, push_i64};

verus! {

/// Whether `id` is among the ids listed.
pub open spec fn contains_id(ids: Seq<String>, id: Seq<char>) -> bool {
    exists|j: int| 0 <= j < ids.len() && ids[j]@ == id
}

/// A set holding exactly the listed ids.
fn id_set(ids: &Vec<String>) -> (set: StringHashSet)
    ensures
        forall|p: Seq<char>| set@.contains(p) <==> contains_id(ids@, p),
{
    let mut set = StringHashSet::new();
    let mut j: usize = 0;
    while j < ids.len()
        invariant
            j <= ids.len(),
            forall|p: Seq<char>|
                set@.contains(p) <==> exists|k: int| 0 <= k < j && ids@[k]@ == p,
        decreases ids.len() - j,
    {
        set.insert(ids[j].clone());
        proof {
            assert forall|q: Seq<char>|
                set@.contains(q) <==> exists|k: int| 0 <= k < j + 1 && ids@[k]@ == q by {
                if q == ids@[j as int]@ {
                    assert(0 <= j < j + 1 && ids@[j as int]@ == q);
                }
            }
        }
        j += 1;
    }
    set
}

/// Why a new backup is refused at the quota `max_backups`.
pub open spec fn quota_reached_text(max_backups: int) -> Seq<char> {
    if max_backups <= 1 {
        "Бесплатная версия отслеживает "@ + int_decimal(1)
            + " бэкап. Введите лицензионный ключ, чтобы добавить ещё."@
    } else {
        "Текущая лицензия разрешает отслеживать до "@ + int_decimal(max_backups) + " бэкапов."@
    }
}

/// Whether one more backup may be added when `count` are tracked and the
/// license allows `max_backups`: refused exactly when the quota is reached.
pub fn add_backup_allowed(count: i64, max_backups: i64) -> (r: Result<(), String>)
    ensures
        count < max_backups <==> r is Ok,
        r matches Err(e) ==> e@ == quota_reached_text(max_backups as int),
{
    if count >= max_backups {
        let mut e = String::new();
        if max_backups <= crate::license::FREE_TIER_BACKUP_LIMIT {
            e.append("Бесплатная версия отслеживает ");
            push_i64(&mut e, crate::license::FREE_TIER_BACKUP_LIMIT);
            e.append(" бэкап. Введите лицензионный ключ, чтобы добавить ещё.");
            assert(e@ =~= quota_reached_text(max_backups as int));
        } else {
            e.append("Текущая лицензия разрешает отслеживать до ");
            push_i64(&mut e, max_backups);
            e.append(" бэкапов.");
            assert(e@ =~= quota_reached_text(max_backups as int));
        }
        return Err(e);
    }
    Ok(())
}

/// Marks each backup locked exactly when its id is not among the entitled
/// ones; nothing else about the backups changes.
pub fn mark_locked(backups: &mut Vec<BackupTarget>, entitled: &Vec<String>)
    ensures
        final(backups)@.len() == old(backups)@.len(),
        forall|i: int|
            0 <= i < final(backups)@.len() ==> {
                let b = #[trigger] final(backups)@[i];
                let a = old(backups)@[i];
                &&& b.locked == !contains_id(entitled@, a.id@)
                &&& b.id == a.id
                &&& b.name == a.name
                &&& b.path == a.path
                &&& b.schedule == a.schedule
                &&& b.created_at == a.created_at
                &&& b.last_check_at == a.last_check_at
                &&& b.last_status == a.last_status
                &&& b.last_message == a.last_message
            },
{
    let set = id_set(entitled);
    let mut i: usize = 0;
    while i < backups.len()
        invariant
            i <= backups@.len(),
            backups@.len() == old(backups)@.len(),
            forall|p: Seq<char>| set@.contains(p) <==> contains_id(entitled@, p),
            forall|k: int|
                0 <= k < backups@.len() ==> {
                    let b = #[trigger] backups@[k];
                    let a = old(backups)@[k];
                    &&& (k < i ==> b.locked == !contains_id(entitled@, a.id@))
                    &&& (k >= i ==> b.locked == a.locked)
                    &&& b.id == a.id
                    &&& b.name == a.name
                    &&& b.path == a.path
                    &&& b.schedule == a.schedule
                    &&& b.created_at == a.created_at
                    &&& b.last_check_at == a.last_check_at
                    &&& b.last_status == a.last_status
                    &&& b.last_message == a.last_message
                },
        decreases backups@.len() - i,
    {
        let locked = !set.contains(backups[i].id.as_str());
        backups[i].locked = locked;
        i += 1;
    }
}

/// The refusal of a manual check of a backup outside the quota.
pub open spec fn check_unavailable_text() -> Seq<char> {
    "Эта проверка недоступна — превышен лимит бесплатной версии или срок действия лицензии истёк."@
}

/// Whether the backup `id` may be checked by hand: only an entitled one may.
pub fn check_now_allowed(entitled: &Vec<String>, id: &str) -> (r: Result<(), String>)
    ensures
        r is Ok <==> contains_id(entitled@, id@),
        r matches Err(e) ==> e@ == check_unavailable_text(),
{
    let mut j: usize = 0;
    while j < entitled.len()
        invariant
            j <= entitled.len(),
            forall|k: int| 0 <= k < j ==> entitled@[k]@ != id@,
        decreases entitled.len() - j,
    {
        if crate::text::str_eq(entitled[j].as_str(), id) {
            return Ok(());
        }
        j += 1;
    }
    Err(
        String::from_str(
            "Эта проверка недоступна — превышен лимит бесплатной версии или срок действия лицензии истёк.",
        ),
    )
}

} // verus!
