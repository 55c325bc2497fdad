//! What the app derives from its stored rows: which backups the license
//! entitles it to act on, and how new and stored rows become backup targets.

use vstd::prelude::*;
use crate::models::{BackupTarget, CheckStatus, NewBackup, Schedule};
use crate::license::{LicenseInfo, Receipt, FREE_TIER_BACKUP_LIMIT};
use crate::text::{lex_lt, str_eq, str_lt, views};

verus! {

/// Row `i` comes before row `j`: created earlier (by the text order of
/// `created_at`, as SQLite sorts text), or created at the same time and
/// listed earlier.
pub open spec fn row_precedes(rows: Seq<(String, String)>, i: int, j: int) -> bool {
    lex_lt(rows[i].1@, rows[j].1@) || (rows[i].1@ == rows[j].1@ && i < j)
}

proof fn lemma_row_irreflexive(rows: Seq<(String, String)>, i: int)
    ensures
        !row_precedes(rows, i, i),
{
    crate::text::lemma_lex_irreflexive(rows[i].1@);
}

proof fn lemma_row_transitive(rows: Seq<(String, String)>, i: int, j: int, k: int)
    requires
        row_precedes(rows, i, j),
        row_precedes(rows, j, k),
    ensures
        row_precedes(rows, i, k),
{
    let a = rows[i].1@;
    let b = rows[j].1@;
    let c = rows[k].1@;
    if lex_lt(a, b) && lex_lt(b, c) {
        crate::text::lemma_lex_transitive(a, b, c);
    }
}

proof fn lemma_row_total(rows: Seq<(String, String)>, i: int, j: int)
    requires
        i != j,
    ensures
        row_precedes(rows, i, j) || row_precedes(rows, j, i),
{
    if rows[i].1@ != rows[j].1@ {
        crate::text::lemma_lex_total(rows[i].1@, rows[j].1@);
    }
}

proof fn lemma_row_asymmetric(rows: Seq<(String, String)>, i: int, j: int)
    requires
        row_precedes(rows, i, j),
    ensures
        !row_precedes(rows, j, i),
{
    if row_precedes(rows, j, i) {
        lemma_row_transitive(rows, i, j, i);
        lemma_row_irreflexive(rows, i);
    }
}

/// How many backups a quota of `max_backups` allows out of `n`.
pub open spec fn quota(max_backups: int, n: int) -> int {
    let allowed = if max_backups < 0 { 0 } else { max_backups };
    if allowed < n { allowed } else { n }
}

/// `picked` lists the first `quota(max_backups, rows.len())` rows in
/// creation order: valid indices, each before the next, and every row left
/// out comes after all the picked ones.
pub open spec fn first_created(rows: Seq<(String, String)>, max_backups: int, picked: Seq<int>) -> bool {
    &&& picked.len() == quota(max_backups, rows.len() as int)
    &&& forall|k: int| 0 <= k < picked.len() ==> 0 <= #[trigger] picked[k] < rows.len()
    &&& forall|k: int, l: int|
        0 <= k < l < picked.len() ==> row_precedes(rows, #[trigger] picked[k], #[trigger] picked[l])
    &&& forall|i: int|
        0 <= i < rows.len() && !picked.contains(i) ==> forall|k: int|
            0 <= k < picked.len() ==> row_precedes(rows, #[trigger] picked[k], i)
}

/// The ids of the rows at `picked`, in that order.
pub open spec fn ids_at(rows: Seq<(String, String)>, picked: Seq<int>) -> Seq<Seq<char>> {
    picked.map_values(|i: int| rows[i].0@)
}

/// Two listings of the first rows agree at position `k` when they agree before it.
proof fn lemma_first_created_agree_at(
    rows: Seq<(String, String)>,
    max_backups: int,
    p: Seq<int>,
    q: Seq<int>,
    k: int,
)
    requires
        first_created(rows, max_backups, p),
        first_created(rows, max_backups, q),
        0 <= k < p.len(),
        forall|m: int| 0 <= m < k ==> p[m] == q[m],
    ensures
        p[k] == q[k],
{
    lemma_one_side(rows, max_backups, p, q, k);
    lemma_one_side(rows, max_backups, q, p, k);
    if p[k] != q[k] {
        lemma_row_total(rows, p[k], q[k]);
    }
}

proof fn lemma_one_side(
    rows: Seq<(String, String)>,
    max_backups: int,
    p: Seq<int>,
    q: Seq<int>,
    k: int,
)
    requires
        first_created(rows, max_backups, p),
        first_created(rows, max_backups, q),
        0 <= k < p.len(),
        forall|m: int| 0 <= m < k ==> p[m] == q[m],
    ensures
        !row_precedes(rows, p[k], q[k]),
{
    let a = p[k];
    let b = q[k];
    if row_precedes(rows, a, b) {
        if q.contains(a) {
            let l = choose|l: int| 0 <= l < q.len() && q[l] == a;
            if l < k {
                assert(p[l] == a);
                assert(row_precedes(rows, p[l], p[k]));
                lemma_row_irreflexive(rows, a);
            } else if l == k {
                lemma_row_irreflexive(rows, a);
            } else {
                assert(row_precedes(rows, q[k], q[l]));
                lemma_row_asymmetric(rows, a, b);
            }
        } else {
            assert(row_precedes(rows, q[k], a));
            lemma_row_asymmetric(rows, a, b);
        }
    }
}

proof fn lemma_first_created_agree_upto(
    rows: Seq<(String, String)>,
    max_backups: int,
    p: Seq<int>,
    q: Seq<int>,
    k: int,
)
    requires
        first_created(rows, max_backups, p),
        first_created(rows, max_backups, q),
        0 <= k <= p.len(),
    ensures
        forall|m: int| 0 <= m < k ==> p[m] == q[m],
    decreases k,
{
    if k > 0 {
        lemma_first_created_agree_upto(rows, max_backups, p, q, k - 1);
        lemma_first_created_agree_at(rows, max_backups, p, q, k - 1);
    }
}

/// There is only one way to list the first rows in creation order.
pub proof fn first_created_is_unique(
    rows: Seq<(String, String)>,
    max_backups: int,
    p: Seq<int>,
    q: Seq<int>,
)
    requires
        first_created(rows, max_backups, p),
        first_created(rows, max_backups, q),
    ensures
        p == q,
{
    lemma_first_created_agree_upto(rows, max_backups, p, q, p.len() as int);
    assert(p =~= q);
}

/// A quota entitles as many backups as it says, as far as there are any:
/// `min(max_backups, rows)` for a positive quota, none otherwise. So the free
/// tier's quota of one entitles exactly one backup of a non-empty list, the
/// first created.
pub proof fn quota_is_honoured(rows: Seq<(String, String)>, max_backups: int, picked: Seq<int>)
    requires
        first_created(rows, max_backups, picked),
    ensures
        max_backups > 0 ==> picked.len() == if max_backups < rows.len() { max_backups } else { rows.len() as int },
        max_backups <= 0 ==> picked.len() == 0,
        max_backups >= 1 && rows.len() >= 1 ==> picked.len() >= 1 && forall|i: int|
            0 <= i < rows.len() && i != picked[0] ==> row_precedes(rows, picked[0], i),
{
    if max_backups >= 1 && rows.len() >= 1 {
        assert forall|i: int| 0 <= i < rows.len() && i != picked[0] implies row_precedes(rows, picked[0], i) by {
            if picked.contains(i) {
                let k = choose|k: int| 0 <= k < picked.len() && picked[k] == i;
                assert(k != 0);
                assert(row_precedes(rows, picked[0], picked[k]));
            }
        }
    }
}

/// A smaller quota entitles a prefix of what a larger one does: raising
/// the quota only adds backups, after the ones already entitled.
pub proof fn smaller_quota_is_prefix(
    rows: Seq<(String, String)>,
    small: int,
    large: int,
    p: Seq<int>,
    q: Seq<int>,
)
    requires
        small <= large,
        first_created(rows, small, p),
        first_created(rows, large, q),
    ensures
        p.len() <= q.len(),
        p == q.take(p.len() as int),
{
    let t = q.take(p.len() as int);
    assert forall|i: int|
        0 <= i < rows.len() && !t.contains(i) implies forall|k: int|
            0 <= k < t.len() ==> row_precedes(rows, #[trigger] t[k], i) by {
        if q.contains(i) {
            let l = choose|l: int| 0 <= l < q.len() && q[l] == i;
            if l < p.len() {
                assert(t[l] == i);
            }
            assert forall|k: int| 0 <= k < t.len() implies row_precedes(rows, #[trigger] t[k], i) by {
                assert(t[k] == q[k]);
                assert(row_precedes(rows, q[k], q[l]));
            }
        } else {
            assert forall|k: int| 0 <= k < t.len() implies row_precedes(rows, #[trigger] t[k], i) by {
                assert(t[k] == q[k]);
            }
        }
    }
    assert forall|k: int, l: int| 0 <= k < l < t.len() implies row_precedes(rows, #[trigger] t[k], #[trigger] t[l]) by {
        assert(t[k] == q[k] && t[l] == q[l]);
    }
    assert forall|k: int| 0 <= k < t.len() implies 0 <= #[trigger] t[k] < rows.len() by {
        assert(t[k] == q[k]);
    }
    assert(first_created(rows, small, t));
    first_created_is_unique(rows, small, p, t);
}

fn precedes_exec(rows: &Vec<(String, String)>, i: usize, j: usize) -> (r: bool)
    requires
        i < rows@.len(),
        j < rows@.len(),
    ensures
        r == row_precedes(rows@, i as int, j as int),
{
    let a = rows[i].1.as_str();
    let b = rows[j].1.as_str();
    str_lt(a, b) || (str_eq(a, b) && i < j)
}

/// The ids of the backups this install is entitled to have the app act on:
/// the first `max_backups` (none when it is not positive) in creation
/// order. `rows` holds each backup's id and `created_at`, in any order.
pub fn entitled_backup_ids(rows: &Vec<(String, String)>, max_backups: i64) -> (ids: Vec<String>)
    ensures
        exists|picked: Seq<int>|
            first_created(rows@, max_backups as int, picked) && views(ids@) == ids_at(rows@, picked),
        max_backups > 0 ==> ids@.len() == if max_backups < rows@.len() { max_backups as int } else { rows@.len() as int },
        max_backups <= 0 ==> ids@.len() == 0,
{
    let n = rows.len();
    let limit: usize = if max_backups <= 0 {
        0
    } else if (max_backups as u64) < (n as u64) {
        max_backups as usize
    } else {
        n
    };
    assert(limit == quota(max_backups as int, n as int));
    let mut ids: Vec<String> = Vec::new();
    let ghost mut picked: Seq<int> = Seq::empty();
    let mut last: usize = 0;
    while ids.len() < limit
        invariant
            n == rows@.len(),
            limit <= n,
            limit == quota(max_backups as int, n as int),
            ids@.len() == picked.len(),
            picked.len() <= limit,
            forall|k: int| 0 <= k < picked.len() ==> 0 <= #[trigger] picked[k] < n,
            forall|k: int| 0 <= k < picked.len() ==> ids@[k]@ == rows@[#[trigger] picked[k]].0@,
            forall|k: int, l: int|
                0 <= k < l < picked.len() ==> row_precedes(rows@, #[trigger] picked[k], #[trigger] picked[l]),
            forall|i: int|
                0 <= i < n && !picked.contains(i) ==> forall|k: int|
                    0 <= k < picked.len() ==> row_precedes(rows@, #[trigger] picked[k], i),
            picked.len() > 0 ==> last == picked.last(),
        decreases limit - ids.len(),
    {
        // Some row is still left out: otherwise all `n` would be picked.
        assert(exists|i: int| 0 <= i < n && !picked.contains(i)) by {
            if forall|i: int| 0 <= i < n ==> picked.contains(i) {
                vstd::set_lib::lemma_int_range(0, n as int);
                assert(vstd::set_lib::set_int_range(0, n as int).subset_of(picked.to_set()));
                vstd::set_lib::lemma_len_subset(vstd::set_lib::set_int_range(0, n as int), picked.to_set());
                picked.lemma_cardinality_of_set();
            }
        }
        let ghost free = choose|i: int| 0 <= i < n && !picked.contains(i);
        assert(picked.len() > 0 ==> 0 <= last < n) by {
            if picked.len() > 0 {
                assert(0 <= picked[picked.len() - 1] < n);
            }
        }
        let mut best: Option<usize> = None;
        let mut i: usize = 0;
        while i < n
            invariant
                n == rows@.len(),
                i <= n,
                ids@.len() == picked.len(),
                picked.len() > 0 ==> last == picked.last(),
                picked.len() > 0 ==> 0 <= last < n,
                match best {
                    Some(b) => b < i && (picked.len() == 0 || row_precedes(rows@, last as int, b as int)),
                    None => true,
                },
                forall|j: int|
                    0 <= j < i && #[trigger] candidate_after(rows@, picked, last as int, j) ==> (
                    best matches Some(b) && (j == b || row_precedes(rows@, b as int, j))),
            decreases n - i,
        {
            let candidate = ids.len() == 0 || precedes_exec(rows, last, i);
            if candidate {
                let better = match best {
                    None => true,
                    Some(b) => precedes_exec(rows, i, b),
                };
                if better {
                    proof {
                        if let Some(b) = best {
                            assert forall|j: int|
                                0 <= j < i && #[trigger] candidate_after(rows@, picked, last as int, j)
                                implies (j == i || row_precedes(rows@, i as int, j)) by {
                                if j != b {
                                    assert(row_precedes(rows@, b as int, j));
                                    lemma_row_transitive(rows@, i as int, b as int, j);
                                }
                            }
                        }
                    }
                    best = Some(i);
                } else {
                    proof {
                        let b = best.unwrap();
                        if b != i {
                            lemma_row_total(rows@, i as int, b as int);
                        }
                    }
                }
            }
            i += 1;
        }
        proof {
            if picked.len() > 0 {
                assert(row_precedes(rows@, picked[picked.len() - 1], free));
            }
            assert(candidate_after(rows@, picked, last as int, free));
        }
        let c = best.unwrap();
        proof {
            // `c` is not picked yet: it comes after the last picked row.
            if picked.contains(c as int) {
                let k = choose|k: int| 0 <= k < picked.len() && picked[k] == c;
                if k < picked.len() - 1 {
                    assert(row_precedes(rows@, picked[k], picked[picked.len() - 1]));
                    lemma_row_asymmetric(rows@, c as int, last as int);
                } else {
                    lemma_row_irreflexive(rows@, c as int);
                }
            }
        }
        ids.push(rows[c].0.clone());
        let ghost old_picked = picked;
        proof {
            picked = picked.push(c as int);
            assert forall|j: int|
                0 <= j < n && !picked.contains(j) implies forall|k: int|
                    0 <= k < picked.len() ==> row_precedes(rows@, #[trigger] picked[k], j) by {
                assert(!old_picked.contains(j)) by {
                    if old_picked.contains(j) {
                        let k = choose|k: int| 0 <= k < old_picked.len() && old_picked[k] == j;
                        assert(picked[k] == j);
                    }
                }
                assert(picked[picked.len() - 1] == c as int);
                assert(j != c);
                if old_picked.len() > 0 {
                    assert(row_precedes(rows@, old_picked[old_picked.len() - 1], j));
                }
                assert(candidate_after(rows@, old_picked, last as int, j));
                assert(row_precedes(rows@, c as int, j));
                assert forall|k: int| 0 <= k < picked.len() implies row_precedes(rows@, #[trigger] picked[k], j) by {
                    if k < old_picked.len() {
                        assert(picked[k] == old_picked[k]);
                    }
                }
            }
            assert forall|k: int, l: int|
                0 <= k < l < picked.len() implies row_precedes(rows@, #[trigger] picked[k], #[trigger] picked[l]) by {
                if l == picked.len() - 1 {
                    assert(picked[k] == old_picked[k]);
                    assert(!old_picked.contains(c as int));
                } else {
                    assert(picked[k] == old_picked[k] && picked[l] == old_picked[l]);
                }
            }
        }
        last = c;
    }
    proof {
        assert(views(ids@) =~= ids_at(rows@, picked));
    }
    ids
}

/// Row `j` may come next: nothing is picked yet, or it comes after the last pick.
pub open spec fn candidate_after(rows: Seq<(String, String)>, picked: Seq<int>, last: int, j: int) -> bool {
    picked.len() == 0 || row_precedes(rows, last, j)
}

/// How many backups this install is entitled to actively use: what a
/// currently valid license grants, or the free-tier limit without one.
pub fn current_max_backups(license: &Option<LicenseInfo>) -> (r: i64)
    ensures
        r == match license {
            Some(info) => info.max_backups,
            None => FREE_TIER_BACKUP_LIMIT,
        },
{
    match license {
        Some(info) => info.max_backups,
        None => FREE_TIER_BACKUP_LIMIT,
    }
}

/// The key and machine id to ask the server for a fresh receipt with, taken
/// from the stored receipt as verified and read (`None` when it failed
/// verification). An expired but genuine receipt still qualifies: that is
/// the case revalidation exists for.
pub fn receipt_for_revalidation(receipt: Option<Receipt>) -> (r: Option<(String, String)>)
    ensures
        match receipt {
            Some(rc) => r matches Some(pair) && pair.0@ == rc.key@ && pair.1@ == rc.machine_id@,
            None => r is None,
        },
{
    match receipt {
        Some(rc) => Some((rc.key, rc.machine_id)),
        None => None,
    }
}

/// A newly registered backup, as stored: never checked, status pending, and
/// not locked (it was just accepted by the quota check).
pub fn new_backup_target(id: String, new: NewBackup, created_at: String) -> (b: BackupTarget)
    ensures
        b.id@ == id@,
        b.name@ == new.name@,
        b.path@ == new.path@,
        b.schedule == new.schedule,
        b.created_at@ == created_at@,
        b.last_check_at is None,
        b.last_status == CheckStatus::Pending,
        b.last_message is None,
        !b.locked,
{
    BackupTarget {
        id,
        name: new.name,
        path: new.path,
        schedule: new.schedule,
        created_at,
        last_check_at: None,
        last_status: CheckStatus::Pending,
        last_message: None,
        locked: false,
    }
}

/// A stored backup row as a backup target: the schedule and status read
/// back from their stored names, and not locked (locking is decided when
/// backups are listed, against the current quota).
pub fn backup_from_row(
    id: String,
    name: String,
    path: String,
    schedule: &str,
    created_at: String,
    last_check_at: Option<String>,
    last_status: &str,
    last_message: Option<String>,
) -> (b: BackupTarget)
    ensures
        b.id@ == id@,
        b.name@ == name@,
        b.path@ == path@,
        b.schedule == Schedule::parse(schedule@),
        b.created_at@ == created_at@,
        b.last_check_at == last_check_at,
        b.last_status == CheckStatus::parse(last_status@),
        b.last_message == last_message,
        !b.locked,
{
    BackupTarget {
        id,
        name,
        path,
        schedule: Schedule::from_str(schedule),
        created_at,
        last_check_at,
        last_status: CheckStatus::from_str(last_status),
        last_message,
        locked: false,
    }
}

} // verus!
