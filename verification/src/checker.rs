//! The folder check: which files to re-hash, what a re-hash reveals, and the
//! verdict on a backup folder. The caller walks the folder, reads and writes
//! the baseline store and hashes files; every decision is made here.

use vstd::prelude::*;
use vstd::hash_set::StringHashSet;
use crate::models::{BackupTarget, CheckRun, CheckStatus, FileRecord, Schedule, days_in_period};
use crate::text::{int_decimal, joined, lex_lt, push_i64, push_zero_padded, str_lt, views, zero_padded, join};
use crate::time::{Instant, now, now_rfc3339, parse_rfc3339, seconds_between, seconds_since, instant_to_rfc3339, epoch_rfc3339, epoch_text, utc_rfc3339, parsed_view};

verus! {

/// New files (never seen before) hashed per run, at most.
pub const NEW_FILE_HASH_CAP: usize = 3000;

/// Known files re-hashed per run, at least (when there are that many).
pub const SAMPLE_MIN: usize = 25;

/// Known files re-hashed per run, at most.
pub const SAMPLE_MAX: usize = 1000;

/// A backup is stale when its newest file is older than this many schedule periods.
pub const STALE_MULTIPLIER: i64 = 2;

/// One regular file found under the backup folder.
#[derive(Debug, Clone)]
pub struct WalkedFile {
    /// Path relative to the backup folder, with `/` separators.
    pub rel_path: String,
    pub size: i64,
    /// Modification time as RFC 3339 text.
    pub mtime: String,
}

/// What to do with one walked file in this run.
#[derive(Debug, Clone, Copy, PartialEq, Eq, Structural)]
pub enum FileAction {
    /// Known and due: hash it again and compare with the baseline.
    Resample,
    /// Known but not due: only mark it as seen in this run.
    Touch,
    /// Not known yet: hash it to make its baseline.
    HashNew,
    /// Not known, and over this run's cap for new files: leave it for later.
    Leave,
}

/// How many known files to re-hash: a tenth of them (rounded up), at least
/// `SAMPLE_MIN`, at most `SAMPLE_MAX`, and never more than there are.
pub open spec fn sample_size(known: int) -> int {
    let tenth = (known + 9) / 10;
    let at_least = if tenth < 25 { 25 } else { tenth };
    let capped = if at_least > 1000 { 1000 } else { at_least };
    if capped > known { known } else { capped }
}

pub fn sample_target(known: usize) -> (r: usize)
    ensures
        r == sample_size(known as int),
{
    let tenth = known / 10 + if known % 10 == 0 { 0 } else { 1 };
    assert(tenth == (known + 9) / 10);
    let at_least = if tenth < SAMPLE_MIN { SAMPLE_MIN } else { tenth };
    let capped = if at_least > SAMPLE_MAX { SAMPLE_MAX } else { at_least };
    if capped > known { known } else { capped }
}

/// The sample never exceeds the known files nor `SAMPLE_MAX`, and takes
/// every known file when there are at most `SAMPLE_MIN` of them.
pub proof fn sample_size_bounds(known: int)
    requires
        known >= 0,
    ensures
        0 <= sample_size(known) <= known,
        sample_size(known) <= 1000,
        known <= 25 ==> sample_size(known) == known,
        known >= 25 ==> sample_size(known) >= 25,
        10 * sample_size(known) >= known || sample_size(known) == 1000,
{
}

/// How many of the first `n` lookups found no baseline.
pub open spec fn count_unknown(records: Seq<Option<FileRecord>>, n: int) -> nat
    decreases n,
{
    if n <= 0 {
        0
    } else {
        count_unknown(records, n - 1) + if records[n - 1] is None { 1nat } else { 0nat }
    }
}

/// How many of the first `n` lookups found a baseline.
pub open spec fn count_known(records: Seq<Option<FileRecord>>, n: int) -> nat
    decreases n,
{
    if n <= 0 {
        0
    } else {
        count_known(records, n - 1) + if records[n - 1] is Some { 1nat } else { 0nat }
    }
}

/// The number of walked files whose baseline lookup found a record.
pub fn known_count(records: &Vec<Option<FileRecord>>) -> (r: usize)
    ensures
        r == count_known(records@, records@.len() as int),
{
    let mut n: usize = 0;
    let mut i: usize = 0;
    while i < records.len()
        invariant
            i <= records.len(),
            n == count_known(records@, i as int),
            n <= i,
        decreases records.len() - i,
    {
        if records[i].is_some() {
            n += 1;
        }
        i += 1;
    }
    n
}

/// The run numbers the baselines carry (0 where there is none).
pub open spec fn stamps_of(records: Seq<Option<FileRecord>>) -> Seq<u64> {
    Seq::new(
        records.len(),
        |i: int|
            match records[i] {
                Some(r) => r.verified_run,
                None => 0,
            },
    )
}

/// Which walked files have a baseline.
pub open spec fn known_of(records: Seq<Option<FileRecord>>) -> Seq<bool> {
    Seq::new(records.len(), |i: int| records[i] is Some)
}

/// The action for the `i`-th walked file when `picked` are the known files
/// sampled: a known file is re-hashed when sampled and only marked as seen
/// otherwise; a new file is hashed while fewer than `NEW_FILE_HASH_CAP` new
/// files come before it, and left for a later run otherwise.
pub open spec fn planned_action(records: Seq<Option<FileRecord>>, picked: Seq<int>, i: int) -> FileAction {
    if records[i] is Some {
        if picked.contains(i) {
            FileAction::Resample
        } else {
            FileAction::Touch
        }
    } else if count_unknown(records, i) < 3000 {
        FileAction::HashNew
    } else {
        FileAction::Leave
    }
}

/// How many of the first `n` planned actions are `a`.
pub open spec fn count_action(plan: Seq<FileAction>, a: FileAction, n: int) -> nat
    decreases n,
{
    if n <= 0 {
        0
    } else {
        count_action(plan, a, n - 1) + if plan[n - 1] == a { 1nat } else { 0nat }
    }
}

/// How many of the first `n` flags are set.
pub open spec fn count_true(flags: Seq<bool>, n: int) -> nat
    decreases n,
{
    if n <= 0 {
        0
    } else {
        count_true(flags, n - 1) + if flags[n - 1] { 1nat } else { 0nat }
    }
}

proof fn lemma_count_true_set(flags: Seq<bool>, p: int, n: int)
    requires
        0 <= p < flags.len(),
        n <= flags.len(),
    ensures
        count_true(flags.update(p, true), n) <= count_true(flags, n) + 1,
        !flags[p] && p < n ==> count_true(flags.update(p, true), n) == count_true(flags, n) + 1,
        flags[p] || p >= n ==> count_true(flags.update(p, true), n) == count_true(flags, n),
    decreases n,
{
    if n > 0 {
        lemma_count_true_set(flags, p, n - 1);
    }
}

/// `plan` is this run's plan for files with these baselines: some
/// least-recently-verified-first sample of `sample` known files is
/// re-hashed and every file has its planned action.
pub open spec fn plan_for(records: Seq<Option<FileRecord>>, sample: int, plan: Seq<FileAction>) -> bool {
    &&& plan.len() == records.len()
    &&& exists|picked: Seq<int>|
        #[trigger] crate::sampling::least_first(stamps_of(records), known_of(records), sample, picked)
            && forall|i: int| 0 <= i < plan.len() ==> plan[i] == planned_action(records, picked, i)
}

fn stamps_and_known(records: &Vec<Option<FileRecord>>) -> (r: (Vec<u64>, Vec<bool>))
    ensures
        r.0@ == stamps_of(records@),
        r.1@ == known_of(records@),
{
    let mut stamps: Vec<u64> = Vec::new();
    let mut known: Vec<bool> = Vec::new();
    let mut i: usize = 0;
    while i < records.len()
        invariant
            i <= records.len(),
            stamps@ == stamps_of(records@).take(i as int),
            known@ == known_of(records@).take(i as int),
        decreases records.len() - i,
    {
        match &records[i] {
            Some(r) => {
                stamps.push(r.verified_run);
                known.push(true);
            },
            None => {
                stamps.push(0);
                known.push(false);
            },
        }
        assert(stamps@ =~= stamps_of(records@).take(i + 1));
        assert(known@ =~= known_of(records@).take(i + 1));
        i += 1;
    }
    assert(stamps@ =~= stamps_of(records@));
    assert(known@ =~= known_of(records@));
    (stamps, known)
}

/// Decides, file by file, what this run does. `records[i]` is the baseline
/// lookup for the `i`-th walked file; `sample` known files are re-hashed,
/// those least recently verified first. At most `sample` files are
/// re-hashed and at most `NEW_FILE_HASH_CAP` hashed as new.
pub fn plan_files(records: &Vec<Option<FileRecord>>, sample: usize) -> (plan: Vec<FileAction>)
    ensures
        plan_for(records@, sample as int, plan@),
        count_action(plan@, FileAction::Resample, plan@.len() as int) <= sample,
        count_action(plan@, FileAction::HashNew, plan@.len() as int) <= 3000,
{
    let (stamps, known) = stamps_and_known(records);
    let picked = crate::sampling::pick_least(&stamps, &known, sample);
    let ghost p = crate::sampling::ints(picked@);
    let n = records.len();
    let mut flags: Vec<bool> = Vec::new();
    let mut j: usize = 0;
    while j < n
        invariant
            j <= n,
            flags@.len() == j,
            forall|k: int| 0 <= k < j ==> !flags@[k],
        decreases n - j,
    {
        flags.push(false);
        j += 1;
    }
    assert(count_true(flags@, n as int) == 0) by {
        assert forall|m: int| 0 <= m <= n implies count_true(flags@, m) == 0 by {
            lemma_all_false(flags@, m);
        }
    }
    let mut k: usize = 0;
    while k < picked.len()
        invariant
            n == records@.len() == stamps@.len(),
            flags@.len() == n,
            k <= picked@.len(),
            p == crate::sampling::ints(picked@),
            crate::sampling::least_first(stamps@, known@, sample as int, p),
            p.len() <= sample,
            count_true(flags@, n as int) <= k,
            forall|i: int| 0 <= i < n ==> (flags@[i] <==> p.take(k as int).contains(i)),
        decreases picked@.len() - k,
    {
        let q = picked[k];
        assert(p[k as int] == q as int);
        proof {
            lemma_count_true_set(flags@, q as int, n as int);
        }
        flags.set(q, true);
        proof {
            assert forall|i: int| 0 <= i < n implies (flags@[i] <==> p.take(k + 1).contains(i)) by {
                if i == q {
                    assert(p.take(k + 1)[k as int] == i);
                } else {
                    if p.take(k + 1).contains(i) {
                        let m = choose|m: int| 0 <= m < k + 1 && #[trigger] p.take(k + 1)[m] == i;
                        assert(p.take(k as int)[m] == i);
                    }
                    if p.take(k as int).contains(i) {
                        let m = choose|m: int| 0 <= m < k && #[trigger] p.take(k as int)[m] == i;
                        assert(p.take(k + 1)[m] == i);
                    }
                }
            }
        }
        k += 1;
    }
    assert(p.take(p.len() as int) =~= p);
    let mut plan: Vec<FileAction> = Vec::new();
    let mut new_seen: usize = 0;
    let mut i: usize = 0;
    while i < n
        invariant
            n == records@.len() == flags@.len(),
            i <= n,
            plan@.len() == i,
            new_seen == count_unknown(records@, i as int),
            new_seen <= i,
            crate::sampling::least_first(stamps@, known@, sample as int, p),
            stamps@ == stamps_of(records@),
            known@ == known_of(records@),
            count_true(flags@, n as int) <= sample,
            forall|m: int| 0 <= m < n ==> (flags@[m] <==> p.contains(m)),
            forall|m: int| 0 <= m < i ==> plan@[m] == planned_action(records@, p, m),
            count_action(plan@, FileAction::Resample, i as int) <= count_true(flags@, i as int),
            count_action(plan@, FileAction::HashNew, i as int) <= new_seen,
            count_action(plan@, FileAction::HashNew, i as int) <= 3000,
        decreases n - i,
    {
        let action = if records[i].is_some() {
            if flags[i] {
                FileAction::Resample
            } else {
                FileAction::Touch
            }
        } else if new_seen < NEW_FILE_HASH_CAP {
            FileAction::HashNew
        } else {
            FileAction::Leave
        };
        if records[i].is_none() {
            new_seen += 1;
        }
        let ghost before = plan@;
        plan.push(action);
        proof {
            assert(plan@.take(i as int) =~= before);
            lemma_count_action_prefix(plan@, i as int);
            lemma_count_action_prefix(plan@, i as int);
            lemma_count_true_monotone(flags@, i as int + 1, n as int);
        }
        i += 1;
    }
    proof {
        lemma_count_true_monotone(flags@, n as int, n as int);
    }
    plan
}

proof fn lemma_all_false(flags: Seq<bool>, m: int)
    requires
        m <= flags.len(),
        forall|k: int| 0 <= k < flags.len() ==> !flags[k],
    ensures
        count_true(flags, m) == 0,
    decreases m,
{
    if m > 0 {
        lemma_all_false(flags, m - 1);
    }
}

proof fn lemma_count_true_monotone(flags: Seq<bool>, m: int, n: int)
    requires
        0 <= m <= n <= flags.len(),
    ensures
        count_true(flags, m) <= count_true(flags, n),
    decreases n - m,
{
    if m < n {
        lemma_count_true_monotone(flags, m, n - 1);
    }
}

/// Counting over the first `i` actions ignores what follows them.
proof fn lemma_count_action_prefix(plan: Seq<FileAction>, i: int)
    requires
        0 <= i < plan.len(),
    ensures
        forall|a: FileAction| count_action(plan, a, i) == #[trigger] count_action(plan.take(i), a, i),
{
    assert forall|a: FileAction| count_action(plan, a, i) == #[trigger] count_action(plan.take(i), a, i) by {
        lemma_count_action_agree(plan, plan.take(i), a, i);
    }
}

proof fn lemma_count_action_agree(x: Seq<FileAction>, y: Seq<FileAction>, a: FileAction, i: int)
    requires
        0 <= i <= x.len(),
        i <= y.len(),
        forall|k: int| 0 <= k < i ==> x[k] == y[k],
    ensures
        count_action(x, a, i) == count_action(y, a, i),
    decreases i,
{
    if i > 0 {
        lemma_count_action_agree(x, y, a, i - 1);
    }
}

/// A file's modification time as stored: chrono's RFC 3339 text for it,
/// or the epoch's when the time is unknown or out of chrono's range.
pub fn mtime_to_rfc3339(mtime: Option<Instant>) -> (r: String)
    ensures
        match mtime {
            Some(t) => match utc_rfc3339(t.secs, t.nanos) {
                Some(text) => r@ == text,
                None => r@ == epoch_text(),
            },
            None => r@ == epoch_text(),
        },
{
    match mtime {
        Some(t) => match instant_to_rfc3339(t) {
            Some(text) => text,
            None => epoch_rfc3339(),
        },
        None => epoch_rfc3339(),
    }
}

/// The newest modification time among the first `n` files, by text order
/// (the order of `str`), as `Iterator::max` picks it.
pub open spec fn newest_of(files: Seq<WalkedFile>, n: int) -> Option<Seq<char>>
    decreases n,
{
    if n <= 0 {
        None
    } else {
        let m = files[n - 1].mtime@;
        match newest_of(files, n - 1) {
            None => Some(m),
            Some(best) => if lex_lt(m, best) {
                Some(best)
            } else {
                Some(m)
            },
        }
    }
}

/// The newest modification time is one of the files' own, and no file's
/// comes after it.
pub proof fn newest_is_maximum(files: Seq<WalkedFile>, n: int)
    requires
        0 < n <= files.len(),
    ensures
        newest_of(files, n) is Some,
        exists|i: int| 0 <= i < n && files[i].mtime@ == newest_of(files, n)->0,
        forall|i: int| 0 <= i < n ==> !lex_lt(newest_of(files, n)->0, #[trigger] files[i].mtime@),
    decreases n,
{
    let m = files[n - 1].mtime@;
    if n > 1 {
        newest_is_maximum(files, n - 1);
        let best = newest_of(files, n - 1)->0;
        let r = newest_of(files, n)->0;
        assert forall|i: int| 0 <= i < n implies !lex_lt(r, #[trigger] files[i].mtime@) by {
            if lex_lt(r, files[i].mtime@) {
                if i == n - 1 {
                    if r == m {
                        crate::text::lemma_lex_irreflexive(m);
                    } else {
                        crate::text::lemma_lex_transitive(m, best, m);
                        crate::text::lemma_lex_irreflexive(m);
                    }
                } else if r == best {
                    assert(!lex_lt(best, files[i].mtime@));
                } else {
                    assert(!lex_lt(m, best));
                    if m == best {
                    } else {
                        crate::text::lemma_lex_total(m, best);
                        crate::text::lemma_lex_transitive(best, m, files[i].mtime@);
                    }
                }
            }
        }
        if r == best {
            let i = choose|i: int| 0 <= i < n - 1 && files[i].mtime@ == best;
            assert(0 <= i < n && files[i].mtime@ == r);
        } else {
            assert(files[n - 1].mtime@ == r);
        }
    } else {
        assert(files[0].mtime@ == newest_of(files, 1)->0);
        crate::text::lemma_lex_irreflexive(m);
    }
}

/// The newest modification time among the walked files.
pub fn newest_mtime(files: &Vec<WalkedFile>) -> (r: Option<String>)
    ensures
        match newest_of(files@, files@.len() as int) {
            Some(t) => r matches Some(s) && s@ == t,
            None => r is None,
        },
{
    let mut best: Option<String> = None;
    let mut i: usize = 0;
    while i < files.len()
        invariant
            i <= files.len(),
            match newest_of(files@, i as int) {
                Some(t) => best matches Some(s) && s@ == t,
                None => best is None,
            },
        decreases files.len() - i,
    {
        let m = &files[i].mtime;
        let keep = match &best {
            None => false,
            Some(b) => str_lt(m.as_str(), b.as_str()),
        };
        if !keep {
            best = Some(m.clone());
        }
        i += 1;
    }
    best
}

/// `dd.mm.yyyy` as chrono's `%d.%m.%Y` writes it: day and month in two
/// digits, the year in four, with a sign outside years 0 to 9999.
pub open spec fn day_month_year(year: int, month: nat, day: nat) -> Seq<char> {
    zero_padded(day, 2) + "."@ + zero_padded(month, 2) + "."@ + year_text(year)
}

/// A year as chrono's `%Y` writes it.
pub open spec fn year_text(year: int) -> Seq<char> {
    if 0 <= year <= 9999 {
        zero_padded(year as nat, 4)
    } else if year > 9999 {
        "+"@ + zero_padded(year as nat, 4)
    } else {
        "-"@ + zero_padded((-year) as nat, 4)
    }
}

fn push_year(out: &mut String, year: i32)
    ensures
        final(out)@ == old(out)@ + year_text(year as int),
{
    if 0 <= year && year <= 9999 {
        push_zero_padded(out, year as u64, 4);
    } else if year > 9999 {
        out.append("+");
        push_zero_padded(out, year as u64, 4);
        assert(final(out)@ =~= old(out)@ + year_text(year as int));
    } else {
        out.append("-");
        let y: u64 = (-(year as i64)) as u64;
        push_zero_padded(out, y, 4);
        assert(final(out)@ =~= old(out)@ + year_text(year as int));
    }
}

fn push_day_month_year(out: &mut String, year: i32, month: u32, day: u32)
    ensures
        final(out)@ == old(out)@ + day_month_year(year as int, month as nat, day as nat),
{
    push_zero_padded(out, day as u64, 2);
    out.append(".");
    push_zero_padded(out, month as u64, 2);
    out.append(".");
    push_year(out, year);
    assert(final(out)@ =~= old(out)@ + day_month_year(year as int, month as nat, day as nat));
}

/// The reason given when the newest file is too old, if it is: when its
/// time parses and more whole seconds than `STALE_MULTIPLIER` schedule
/// periods have passed since it by `now`.
pub open spec fn stale_reason(newest: Option<Seq<char>>, schedule: Schedule, now: Instant) -> Option<
    Seq<char>,
> {
    match newest {
        Some(t) => match parsed_view(t) {
            Some(p) => if seconds_between(now, p.0) > schedule.interval() * 2 {
                Some(
                    "самый свежий файл в бэкапе от "@ + day_month_year(p.1 as int, p.2 as nat, p.3 as nat)
                        + " — дольше ожидаемого периода"@,
                )
            } else {
                None
            },
            None => None,
        },
        None => None,
    }
}

fn stale_reason_at(newest: &Option<String>, schedule: Schedule, now: Instant) -> (r: Option<String>)
    ensures
        match stale_reason(
            match newest {
                Some(s) => Some(s@),
                None => None,
            },
            schedule,
            now,
        ) {
            Some(t) => r matches Some(s) && s@ == t,
            None => r is None,
        },
{
    match newest {
        None => None,
        Some(t) => match parse_rfc3339(t.as_str()) {
            None => None,
            Some(p) => {
                let age = seconds_since(now, p.at);
                let threshold = schedule.interval_seconds() * STALE_MULTIPLIER;
                if age > threshold as i128 {
                    let mut s = String::new();
                    s.append("самый свежий файл в бэкапе от ");
                    push_day_month_year(&mut s, p.year, p.month, p.day);
                    s.append(" — дольше ожидаемого периода");
                    proof {
                        assert(s@ =~= "самый свежий файл в бэкапе от "@ + day_month_year(
                            p.year as int,
                            p.month as nat,
                            p.day as nat,
                        ) + " — дольше ожидаемого периода"@);
                    }
                    Some(s)
                } else {
                    None
                }
            },
        },
    }
}

/// Whether a re-hash reveals silent corruption: the modification time is
/// what the baseline recorded, but the contents hash differently.
pub open spec fn silently_changed(prev_mtime: Seq<char>, prev_hash: Seq<char>, mtime: Seq<char>, hash: Seq<char>) -> bool {
    prev_mtime == mtime && prev_hash != hash
}

/// Whether too many of the files tracked before this run went missing:
/// more than a fifth of them.
pub open spec fn too_many_missing(missing: int, tracked_before: int) -> bool {
    tracked_before > 0 && missing * 5 > tracked_before
}

/// The status a run ends with. Files changed under an unchanged modification
/// time make it an error; failing that, a stale backup or too many missing
/// files make it a warning; else it is healthy.
pub open spec fn verdict(stale: bool, changed: int, missing_alarm: bool) -> CheckStatus {
    if changed > 0 {
        CheckStatus::Error
    } else if stale || missing_alarm {
        CheckStatus::Warning
    } else {
        CheckStatus::Healthy
    }
}

/// The message of a run that found nothing wrong.
pub open spec fn all_well_message(files: int, hashed: int) -> Seq<char> {
    "Всё в порядке: "@ + int_decimal(files) + " файлов, проверено выборочно "@ + int_decimal(hashed)
}

/// The reason given for files that changed without a new modification time.
pub open spec fn changed_reason(changed: int) -> Seq<char> {
    int_decimal(changed) + " файл(ов) изменились без изменения даты — похоже на повреждение данных"@
}

/// The reason given for missing files; `percent` is the share already written out.
pub open spec fn missing_reason(missing: int, tracked_before: int, percent: Seq<char>) -> Seq<char> {
    "пропало "@ + int_decimal(missing) + " из "@ + int_decimal(tracked_before)
        + " ранее отслеженных файлов ("@ + percent + "%)"@
}

/// The reasons of a run, in the order they are reported.
pub open spec fn reasons(
    stale: Option<Seq<char>>,
    changed: int,
    missing: int,
    tracked_before: int,
    percent: Seq<char>,
) -> Seq<Seq<char>> {
    (match stale {
        Some(r) => seq![r],
        None => Seq::<Seq<char>>::empty(),
    }) + (if changed > 0 {
        seq![changed_reason(changed)]
    } else {
        Seq::<Seq<char>>::empty()
    }) + (if too_many_missing(missing, tracked_before) {
        seq![missing_reason(missing, tracked_before, percent)]
    } else {
        Seq::<Seq<char>>::empty()
    })
}

/// The message of a run: its reasons joined by `"; "`, or the all-well line.
pub open spec fn run_message(rs: Seq<Seq<char>>, files: int, hashed: int) -> Seq<char> {
    if rs.len() == 0 {
        all_well_message(files, hashed)
    } else {
        joined(rs, "; "@)
    }
}

/// A run is healthy exactly when it has nothing to report, and an error
/// exactly when files changed silently, whatever else it found.
pub proof fn status_matches_reasons(
    stale: Option<Seq<char>>,
    changed: int,
    missing: int,
    tracked_before: int,
    percent: Seq<char>,
)
    requires
        changed >= 0,
    ensures
        verdict(stale is Some, changed, too_many_missing(missing, tracked_before))
            == CheckStatus::Healthy <==> reasons(stale, changed, missing, tracked_before, percent).len()
            == 0,
        verdict(stale is Some, changed, too_many_missing(missing, tracked_before))
            == CheckStatus::Error <==> changed > 0,
{
}

/// Staleness goes by the backup's own schedule: the newest file is reported
/// too old exactly when its time reads and more whole seconds than two of the
/// schedule's periods (one, seven or thirty days each) have passed since it.
pub proof fn stale_after_two_own_periods(newest: Option<Seq<char>>, schedule: Schedule, now: Instant)
    ensures
        stale_reason(newest, schedule, now) is Some <==> match newest {
            Some(t) => match parsed_view(t) {
                Some(p) => seconds_between(now, p.0) > 2 * days_in_period(schedule) * 86400,
                None => false,
            },
            None => false,
        },
{
}

/// What staleness does to a finished run: when the newest file is more than
/// two of the backup's own periods old the run is not healthy; when it is
/// within them (or its time does not read), nothing changed silently and few
/// files went missing, the run is healthy.
pub proof fn staleness_follows_own_schedule(
    check: FolderCheck,
    run: CheckRun,
    stored_paths: Seq<String>,
    percent: Seq<char>,
    now: Instant,
)
    requires
        check.wf(),
        check.outcome(run, stored_paths, percent, now),
    ensures
        ({
            let newest = newest_of(check.files@, check.files@.len() as int);
            let missing = missing_of(stored_paths, check.seen@, stored_paths.len() as int).len() as int;
            let old_enough = match newest {
                Some(t) => match parsed_view(t) {
                    Some(p) => seconds_between(now, p.0) > 2 * days_in_period(check.schedule) * 86400,
                    None => false,
                },
                None => false,
            };
            &&& old_enough ==> run.status != CheckStatus::Healthy
            &&& !old_enough && check.files_changed_unexpectedly == 0 && !too_many_missing(
                missing,
                check.known + missing,
            ) ==> run.status == CheckStatus::Healthy
        }),
{
    let newest = newest_of(check.files@, check.files@.len() as int);
    stale_after_two_own_periods(newest, check.schedule, now);
}

/// The missing-files alarm is raised exactly when more than 20% of the
/// files tracked before the run went missing.
pub proof fn missing_alarm_above_twenty_percent(missing: int, tracked_before: int)
    requires
        0 <= missing <= tracked_before,
    ensures
        too_many_missing(missing, tracked_before) <==> 100 * missing > 20 * tracked_before,
{
}

/// Telling corruption from an edit: a re-hash counts as a silent change
/// only when the modification time is the baseline's. A file whose
/// modification time moved was edited, whatever its hashes; a file whose
/// hash is the baseline's is intact; and a file whose hash changed under
/// the same modification time is always counted.
pub proof fn edits_are_not_silent_changes(prev_mtime: Seq<char>, prev_hash: Seq<char>, mtime: Seq<char>, hash: Seq<char>)
    ensures
        prev_mtime != mtime ==> !silently_changed(prev_mtime, prev_hash, mtime, hash),
        prev_hash == hash ==> !silently_changed(prev_mtime, prev_hash, mtime, hash),
        prev_mtime == mtime && prev_hash != hash ==> silently_changed(prev_mtime, prev_hash, mtime, hash),
{
}

/// Every known file is either re-hashed or marked as seen, and only new
/// files are hashed as new or left for a later run.
pub proof fn known_files_are_never_skipped(records: Seq<Option<FileRecord>>, picked: Seq<int>, i: int)
    requires
        0 <= i < records.len(),
    ensures
        records[i] is Some <==> (planned_action(records, picked, i) == FileAction::Resample
            || planned_action(records, picked, i) == FileAction::Touch),
{
}

/// In a folder whose files all have baselines, the plan samples the
/// least recently verified of all of them: the run that `every_file_is_reverified`
/// speaks of, over the run numbers the baselines carry.
pub proof fn plan_samples_whole_folder(records: Seq<Option<FileRecord>>, sample: int, plan: Seq<FileAction>)
    requires
        plan_for(records, sample, plan),
        forall|i: int| 0 <= i < records.len() ==> (#[trigger] records[i]) is Some,
    ensures
        exists|picked: Seq<int>|
            #[trigger] crate::sampling::least_first(stamps_of(records), crate::sampling::all_eligible(records.len()), sample, picked)
                && forall|i: int| 0 <= i < plan.len() ==> (plan[i] == FileAction::Resample <==> picked.contains(i)),
{
    assert(known_of(records) =~= crate::sampling::all_eligible(records.len()));
    let picked = choose|picked: Seq<int>|
        #[trigger] crate::sampling::least_first(stamps_of(records), known_of(records), sample, picked)
            && forall|i: int| 0 <= i < plan.len() ==> plan[i] == planned_action(records, picked, i);
    assert(crate::sampling::least_first(stamps_of(records), crate::sampling::all_eligible(records.len()), sample, picked));
}

/// A silent change is reported once: the record stored after it carries the
/// new hash, so re-hashing the unchanged file again finds nothing.
pub proof fn silent_change_is_flagged_once(stored_mtime: Seq<char>, stored_hash: Seq<char>, mtime: Seq<char>, hash: Seq<char>)
    requires
        stored_mtime == mtime,
        stored_hash == hash,
    ensures
        !silently_changed(stored_mtime, stored_hash, mtime, hash),
{
}

/// The message of a backup whose path does not exist.
pub open spec fn unreachable_message() -> Seq<char> {
    "Путь недоступен — диск отключён или папка перемещена/удалена"@
}

/// The message of a backup whose path is not a folder.
pub open spec fn not_a_folder_message() -> Seq<char> {
    "Указанный путь — не папка"@
}

/// The message of a backup folder with no files in it.
pub open spec fn empty_folder_message() -> Seq<char> {
    "Папка пуста — проверьте, что путь указывает на правильное место"@
}

/// How many of the first `n` files planned as `a` have been handled.
pub open spec fn count_done(plan: Seq<FileAction>, handled: Seq<bool>, a: FileAction, n: int) -> nat
    decreases n,
{
    if n <= 0 {
        0
    } else {
        count_done(plan, handled, a, n - 1) + if plan[n - 1] == a && handled[n - 1] {
            1nat
        } else {
            0nat
        }
    }
}

proof fn lemma_count_done_bounds(plan: Seq<FileAction>, handled: Seq<bool>, n: int)
    requires
        0 <= n <= plan.len(),
        n <= handled.len(),
    ensures
        count_done(plan, handled, FileAction::Resample, n) <= count_action(plan, FileAction::Resample, n),
        count_done(plan, handled, FileAction::HashNew, n) <= count_action(plan, FileAction::HashNew, n),
        count_done(plan, handled, FileAction::Resample, n) + count_done(plan, handled, FileAction::HashNew, n) <= n,
    decreases n,
{
    if n > 0 {
        lemma_count_done_bounds(plan, handled, n - 1);
    }
}

proof fn lemma_count_done_mark(plan: Seq<FileAction>, handled: Seq<bool>, i: int, a: FileAction, n: int)
    requires
        0 <= i < plan.len(),
        plan.len() == handled.len(),
        0 <= n <= plan.len(),
        !handled[i],
    ensures
        count_done(plan, handled.update(i, true), a, n) == count_done(plan, handled, a, n) + if plan[i] == a && i < n { 1int } else { 0int },
    decreases n,
{
    if n > 0 {
        lemma_count_done_mark(plan, handled, i, a, n - 1);
    }
}

proof fn lemma_count_done_none(plan: Seq<FileAction>, handled: Seq<bool>, a: FileAction, n: int)
    requires
        0 <= n <= handled.len(),
        forall|k: int| 0 <= k < handled.len() ==> !handled[k],
    ensures
        count_done(plan, handled, a, n) == 0,
    decreases n,
{
    if n > 0 {
        lemma_count_done_none(plan, handled, a, n - 1);
    }
}

/// The recorded paths, in order, that were not stored again in this run:
/// the files that went missing.
pub open spec fn missing_of(stored_paths: Seq<String>, seen: Set<Seq<char>>, n: int) -> Seq<Seq<char>>
    decreases n,
{
    if n <= 0 {
        Seq::empty()
    } else {
        let rest = missing_of(stored_paths, seen, n - 1);
        if seen.contains(stored_paths[n - 1]@) {
            rest
        } else {
            rest.push(stored_paths[n - 1]@)
        }
    }
}

/// One check of one backup folder, from start to verdict. The caller walks
/// the folder, looks baselines up, hashes files and writes the store; each
/// step here takes what that produced and says what comes next.
pub struct FolderCheck {
    pub backup_id: String,
    pub schedule: Schedule,
    pub started_at: String,
    /// The files the walk found.
    pub files: Vec<WalkedFile>,
    /// What this run does with each of them.
    pub plan: Vec<FileAction>,
    /// Which re-hashes and new-file hashes have been taken in.
    pub handled: Vec<bool>,
    /// Files that had a baseline before this run.
    pub known: usize,
    /// How many known files this run re-hashes.
    pub sample_size: usize,
    /// The number of this run, above every baseline's.
    pub run_stamp: u64,
    /// Files sampled for re-hashing so far.
    pub files_sampled: i64,
    /// New files hashed so far.
    pub new_files_hashed: i64,
    /// Re-hashed files whose contents changed under an unchanged modification time.
    pub files_changed_unexpectedly: i64,
    /// Paths whose baseline was stored again in this run.
    pub seen: StringHashSet,
}

impl FolderCheck {
    /// The counters are exactly what the plan and the steps taken allow.
    pub open spec fn wf(self) -> bool {
        let n = self.files@.len() as int;
        &&& self.plan@.len() == n
        &&& self.handled@.len() == n
        &&& n <= i64::MAX
        &&& self.files_sampled == count_done(self.plan@, self.handled@, FileAction::Resample, n)
        &&& 0 <= self.new_files_hashed <= count_done(self.plan@, self.handled@, FileAction::HashNew, n)
        &&& 0 <= self.files_changed_unexpectedly <= self.files_sampled
        &&& count_action(self.plan@, FileAction::Resample, n) <= self.sample_size
        &&& count_action(self.plan@, FileAction::HashNew, n) <= 3000
        &&& self.sample_size == sample_size(self.known as int)
    }

    /// Starts a check of `backup`, noting the time it started.
    pub fn start(backup: &BackupTarget) -> (c: FolderCheck)
        ensures
            c.wf(),
            c.backup_id@ == backup.id@,
            c.schedule == backup.schedule,
            exists|at: Instant| utc_rfc3339(at.secs, at.nanos) == Some(c.started_at@),
            c.files@.len() == 0,
            c.known == 0,
            c.files_sampled == 0,
            c.new_files_hashed == 0,
            c.files_changed_unexpectedly == 0,
            c.seen@ == Set::<Seq<char>>::empty(),
    {
        FolderCheck {
            backup_id: backup.id.clone(),
            schedule: backup.schedule,
            started_at: now_rfc3339(),
            files: Vec::new(),
            plan: Vec::new(),
            handled: Vec::new(),
            known: 0,
            sample_size: 0,
            run_stamp: 1,
            files_sampled: 0,
            new_files_hashed: 0,
            files_changed_unexpectedly: 0,
            seen: StringHashSet::new(),
        }
    }

    /// Whether `run` reports this check with the given verdict, message and
    /// counts (its finishing time aside).
    pub open spec fn reports(
        self,
        run: CheckRun,
        status: CheckStatus,
        message: Seq<char>,
        scanned: int,
        sampled: int,
        changed: int,
        missing: int,
        newest: Option<Seq<char>>,
    ) -> bool {
        &&& run.id == 0
        &&& run.backup_id@ == self.backup_id@
        &&& run.started_at@ == self.started_at@
        &&& run.status == status
        &&& run.message@ == message
        &&& run.files_scanned == scanned
        &&& run.files_sampled == sampled
        &&& run.files_changed_unexpectedly == changed
        &&& run.files_missing == missing
        &&& match newest {
            Some(t) => run.newest_file_at matches Some(s) && s@ == t,
            None => run.newest_file_at is None,
        }
    }

    fn early_run(&self, status: CheckStatus, message: String) -> (run: CheckRun)
        ensures
            self.reports(run, status, message@, 0, 0, 0, 0, None),
            exists|at: Instant| utc_rfc3339(at.secs, at.nanos) == Some(run.finished_at@),
    {
        CheckRun {
            id: 0,
            backup_id: self.backup_id.clone(),
            started_at: self.started_at.clone(),
            finished_at: now_rfc3339(),
            status,
            message,
            files_scanned: 0,
            files_sampled: 0,
            files_changed_unexpectedly: 0,
            files_missing: 0,
            newest_file_at: None,
        }
    }

    /// Ends the check early when the backup path is not a reachable folder:
    /// an error run when it does not exist or is not a directory, else `None`.
    pub fn path_problem(&self, exists: bool, is_dir: bool) -> (r: Option<CheckRun>)
        ensures
            !exists ==> (r matches Some(run) && self.reports(
                run,
                CheckStatus::Error,
                unreachable_message(),
                0,
                0,
                0,
                0,
                None,
            )),
            exists && !is_dir ==> (r matches Some(run) && self.reports(
                run,
                CheckStatus::Error,
                not_a_folder_message(),
                0,
                0,
                0,
                0,
                None,
            )),
            exists && is_dir ==> r is None,
    {
        if !exists {
            Some(
                self.early_run(
                    CheckStatus::Error,
                    String::from_str("Путь недоступен — диск отключён или папка перемещена/удалена"),
                ),
            )
        } else if !is_dir {
            Some(self.early_run(CheckStatus::Error, String::from_str("Указанный путь — не папка")))
        } else {
            None
        }
    }

    /// Ends the check early when the folder holds no files: a warning run
    /// when `files` is empty, else `None`.
    pub fn empty_folder(&self, files: &Vec<WalkedFile>) -> (r: Option<CheckRun>)
        ensures
            files@.len() == 0 ==> (r matches Some(run) && self.reports(
                run,
                CheckStatus::Warning,
                empty_folder_message(),
                0,
                0,
                0,
                0,
                None,
            )),
            files@.len() > 0 ==> r is None,
    {
        if files.len() == 0 {
            Some(
                self.early_run(
                    CheckStatus::Warning,
                    String::from_str(
                        "Папка пуста — проверьте, что путь указывает на правильное место",
                    ),
                ),
            )
        } else {
            None
        }
    }

    /// Takes the walked files and their baseline lookups (`records[i]` for
    /// `files[i]`) and plans the run: how many known files to sample, which
    /// (see `plan_files`), and the run's number, one above every baseline's.
    pub fn begin(&mut self, files: Vec<WalkedFile>, records: &Vec<Option<FileRecord>>)
        requires
            old(self).files@.len() == 0,
            old(self).files_sampled == 0,
            old(self).new_files_hashed == 0,
            old(self).files_changed_unexpectedly == 0,
            files@.len() == records@.len(),
            files@.len() <= i64::MAX,
            forall|i: int|
                0 <= i < records@.len() && (#[trigger] records@[i]) is Some ==> records@[i]->0.verified_run < u64::MAX,
        ensures
            final(self).wf(),
            final(self).backup_id == old(self).backup_id,
            final(self).schedule == old(self).schedule,
            final(self).started_at == old(self).started_at,
            final(self).seen == old(self).seen,
            final(self).files@ == files@,
            final(self).known == count_known(records@, records@.len() as int),
            plan_for(records@, final(self).sample_size as int, final(self).plan@),
            forall|i: int|
                0 <= i < records@.len() && (#[trigger] records@[i]) is Some ==> records@[i]->0.verified_run < final(self).run_stamp,
            forall|i: int| 0 <= i < files@.len() ==> !final(self).handled@[i],
            final(self).files_sampled == 0,
            final(self).new_files_hashed == 0,
            final(self).files_changed_unexpectedly == 0,
    {
        let known = known_count(records);
        let sample = sample_target(known);
        let plan = plan_files(records, sample);
        let mut top: u64 = 0;
        let mut i: usize = 0;
        while i < records.len()
            invariant
                i <= records@.len(),
                forall|k: int| 0 <= k < records@.len() && (#[trigger] records@[k]) is Some ==> records@[k]->0.verified_run < u64::MAX,
                forall|k: int| 0 <= k < i && (#[trigger] records@[k]) is Some ==> records@[k]->0.verified_run <= top,
                top < u64::MAX,
            decreases records@.len() - i,
        {
            match &records[i] {
                Some(r) => {
                    if r.verified_run > top {
                        top = r.verified_run;
                    }
                },
                None => {},
            }
            i += 1;
        }
        let n = files.len();
        let mut handled: Vec<bool> = Vec::new();
        let mut j: usize = 0;
        while j < n
            invariant
                j <= n,
                handled@.len() == j,
                forall|k: int| 0 <= k < j ==> !handled@[k],
            decreases n - j,
        {
            handled.push(false);
            j += 1;
        }
        proof {
            lemma_count_done_none(plan@, handled@, FileAction::Resample, n as int);
            lemma_count_done_none(plan@, handled@, FileAction::HashNew, n as int);
        }
        self.files = files;
        self.plan = plan;
        self.handled = handled;
        self.known = known;
        self.sample_size = sample;
        self.run_stamp = top + 1;
    }

    /// Takes the outcome of re-hashing the sampled file `i`: `hash` is the new
    /// hash (`None` when hashing failed) and `prev` the baseline read back
    /// for it. The file counts as sampled either way. With both present, a
    /// silent change is counted, and the record to store is returned: the
    /// file as it is now, verified in this run, with the new hash adopted so
    /// the same change is reported once.
    pub fn record_resample(&mut self, i: usize, hash: Option<String>, prev: Option<FileRecord>) -> (upsert: Option<FileRecord>)
        requires
            old(self).wf(),
            i < old(self).files@.len(),
            old(self).plan@[i as int] == FileAction::Resample,
            !old(self).handled@[i as int],
        ensures
            final(self).wf(),
            final(self).backup_id == old(self).backup_id,
            final(self).schedule == old(self).schedule,
            final(self).started_at == old(self).started_at,
            final(self).files == old(self).files,
            final(self).plan == old(self).plan,
            final(self).handled@ == old(self).handled@.update(i as int, true),
            final(self).known == old(self).known,
            final(self).sample_size == old(self).sample_size,
            final(self).run_stamp == old(self).run_stamp,
            final(self).seen == old(self).seen,
            final(self).new_files_hashed == old(self).new_files_hashed,
            final(self).files_sampled == old(self).files_sampled + 1,
            match (hash, prev) {
                (Some(h), Some(p)) => {
                    let file = old(self).files@[i as int];
                    &&& upsert matches Some(rec) && rec.rel_path@ == file.rel_path@ && rec.size
                        == file.size && rec.mtime@ == file.mtime@ && rec.hash@ == h@
                        && rec.verified_run == old(self).run_stamp
                    &&& final(self).files_changed_unexpectedly == old(self).files_changed_unexpectedly + if silently_changed(p.mtime@, p.hash@, file.mtime@, h@) {
                        1int
                    } else {
                        0int
                    }
                },
                _ => upsert is None && final(self).files_changed_unexpectedly == old(
                    self,
                ).files_changed_unexpectedly,
            },
            match (hash, prev) {
                (Some(h), Some(p)) => {
                    let file = old(self).files@[i as int];
                    &&& p.mtime@ != file.mtime@ ==> final(self).files_changed_unexpectedly
                        == old(self).files_changed_unexpectedly
                    &&& p.hash@ == h@ ==> final(self).files_changed_unexpectedly
                        == old(self).files_changed_unexpectedly
                    &&& p.mtime@ == file.mtime@ && p.hash@ != h@ ==> final(self).files_changed_unexpectedly
                        == old(self).files_changed_unexpectedly + 1
                },
                _ => true,
            },
    {
        let n = self.files.len();
        proof {
            lemma_count_done_mark(self.plan@, self.handled@, i as int, FileAction::Resample, n as int);
            lemma_count_done_mark(self.plan@, self.handled@, i as int, FileAction::HashNew, n as int);
            lemma_count_done_bounds(self.plan@, self.handled@.update(i as int, true), n as int);
        }
        self.handled.set(i, true);
        self.files_sampled = self.files_sampled + 1;
        match (hash, prev) {
            (Some(h), Some(p)) => {
                let file = &self.files[i];
                let same_mtime = crate::text::str_eq(p.mtime.as_str(), file.mtime.as_str());
                let same_hash = crate::text::str_eq(p.hash.as_str(), h.as_str());
                let rec = FileRecord {
                    rel_path: file.rel_path.clone(),
                    size: file.size,
                    mtime: file.mtime.clone(),
                    hash: h,
                    verified_run: self.run_stamp,
                };
                if same_mtime && !same_hash {
                    self.files_changed_unexpectedly = self.files_changed_unexpectedly + 1;
                }
                Some(rec)
            },
            _ => None,
        }
    }

    /// Takes the outcome of hashing the new file `i`: with a hash, the file
    /// counts as hashed and its baseline record, verified in this run, is
    /// returned to be stored.
    pub fn record_new(&mut self, i: usize, hash: Option<String>) -> (insert: Option<FileRecord>)
        requires
            old(self).wf(),
            i < old(self).files@.len(),
            old(self).plan@[i as int] == FileAction::HashNew,
            !old(self).handled@[i as int],
        ensures
            final(self).wf(),
            final(self).backup_id == old(self).backup_id,
            final(self).schedule == old(self).schedule,
            final(self).started_at == old(self).started_at,
            final(self).files == old(self).files,
            final(self).plan == old(self).plan,
            final(self).handled@ == old(self).handled@.update(i as int, true),
            final(self).known == old(self).known,
            final(self).sample_size == old(self).sample_size,
            final(self).run_stamp == old(self).run_stamp,
            final(self).seen == old(self).seen,
            final(self).files_sampled == old(self).files_sampled,
            final(self).files_changed_unexpectedly == old(self).files_changed_unexpectedly,
            match hash {
                Some(h) => {
                    let file = old(self).files@[i as int];
                    &&& insert matches Some(rec) && rec.rel_path@ == file.rel_path@ && rec.size
                        == file.size && rec.mtime@ == file.mtime@ && rec.hash@ == h@
                        && rec.verified_run == old(self).run_stamp
                    &&& final(self).new_files_hashed == old(self).new_files_hashed + 1
                },
                None => insert is None && final(self).new_files_hashed == old(
                    self,
                ).new_files_hashed,
            },
    {
        let n = self.files.len();
        proof {
            lemma_count_done_mark(self.plan@, self.handled@, i as int, FileAction::Resample, n as int);
            lemma_count_done_mark(self.plan@, self.handled@, i as int, FileAction::HashNew, n as int);
            lemma_count_done_bounds(self.plan@, self.handled@.update(i as int, true), n as int);
        }
        self.handled.set(i, true);
        match hash {
            Some(h) => {
                self.new_files_hashed = self.new_files_hashed + 1;
                let file = &self.files[i];
                Some(
                    FileRecord {
                        rel_path: file.rel_path.clone(),
                        size: file.size,
                        mtime: file.mtime.clone(),
                        hash: h,
                        verified_run: self.run_stamp,
                    },
                )
            },
            None => None,
        }
    }

    /// Notes that file `i`'s baseline was stored again in this run (marked as
    /// seen, or written after hashing). Files left for a later run, and
    /// files not yet hashed, cannot be noted.
    pub fn stored(&mut self, i: usize)
        requires
            old(self).wf(),
            i < old(self).files@.len(),
            old(self).plan@[i as int] != FileAction::Leave,
            old(self).plan@[i as int] != FileAction::Touch ==> old(self).handled@[i as int],
        ensures
            final(self).wf(),
            final(self).seen@ == old(self).seen@.insert(old(self).files@[i as int].rel_path@),
            final(self).backup_id == old(self).backup_id,
            final(self).schedule == old(self).schedule,
            final(self).started_at == old(self).started_at,
            final(self).files == old(self).files,
            final(self).plan == old(self).plan,
            final(self).handled == old(self).handled,
            final(self).known == old(self).known,
            final(self).sample_size == old(self).sample_size,
            final(self).run_stamp == old(self).run_stamp,
            final(self).files_sampled == old(self).files_sampled,
            final(self).new_files_hashed == old(self).new_files_hashed,
            final(self).files_changed_unexpectedly == old(self).files_changed_unexpectedly,
    {
        let path = self.files[i].rel_path.clone();
        self.seen.insert(path);
    }

    /// The recorded paths (one per baseline of this backup) not stored again in
    /// this run: the files that went missing, whose baselines are dropped.
    pub fn missing_paths(&self, stored_paths: &Vec<String>) -> (missing: Vec<String>)
        ensures
            views(missing@) == missing_of(stored_paths@, self.seen@, stored_paths@.len() as int),
    {
        let mut missing: Vec<String> = Vec::new();
        let mut i: usize = 0;
        while i < stored_paths.len()
            invariant
                i <= stored_paths@.len(),
                views(missing@) == missing_of(stored_paths@, self.seen@, i as int),
            decreases stored_paths@.len() - i,
        {
            if !self.seen.contains(stored_paths[i].as_str()) {
                missing.push(stored_paths[i].clone());
            }
            assert(views(missing@) =~= missing_of(stored_paths@, self.seen@, i + 1));
            i += 1;
        }
        missing
    }

    /// The run this check reports, given the recorded paths and the missing
    /// share written as a percentage, judged at `now`.
    pub open spec fn outcome(self, run: CheckRun, stored_paths: Seq<String>, percent: Seq<char>, now: Instant) -> bool {
        let files = self.files@;
        let newest = newest_of(files, files.len() as int);
        let stale = stale_reason(newest, self.schedule, now);
        let changed = self.files_changed_unexpectedly as int;
        let missing = missing_of(stored_paths, self.seen@, stored_paths.len() as int).len() as int;
        let tracked_before = self.known + missing;
        let hashed = self.files_sampled + self.new_files_hashed;
        let rs = reasons(stale, changed, missing, tracked_before, percent);
        let status = verdict(stale is Some, changed, too_many_missing(missing, tracked_before));
        self.reports(
            run,
            status,
            run_message(rs, files.len() as int, hashed),
            files.len() as int,
            hashed,
            changed,
            missing,
            newest,
        )
    }

    /// The bounds every finished run keeps: no more files hashed than
    /// scanned, no more known files re-hashed than the sample size, no more
    /// new files hashed than `NEW_FILE_HASH_CAP`, and no more silent changes
    /// than re-hashed files.
    pub open spec fn bounded(self, run: CheckRun) -> bool {
        &&& 0 <= run.files_changed_unexpectedly <= self.files_sampled
        &&& 0 <= self.files_sampled <= self.sample_size
        &&& self.sample_size == sample_size(self.known as int)
        &&& 0 <= self.new_files_hashed <= 3000
        &&& run.files_sampled == self.files_sampled + self.new_files_hashed
        &&& run.files_sampled <= run.files_scanned
    }

    /// Finishes the check as judged at `now`; see `outcome` and `bounded`.
    pub fn finish_at(&self, stored_paths: &Vec<String>, missing_percent: &str, now: Instant, finished_at: String) -> (run: CheckRun)
        requires
            self.wf(),
            self.known + stored_paths@.len() <= i64::MAX,
        ensures
            self.outcome(run, stored_paths@, missing_percent@, now),
            self.bounded(run),
            run.finished_at@ == finished_at@,
    {
        let files = &self.files;
        proof {
            lemma_count_done_bounds(self.plan@, self.handled@, files@.len() as int);
            lemma_missing_len(stored_paths@, self.seen@, stored_paths@.len() as int);
        }
        let missing_list = self.missing_paths(stored_paths);
        assert(missing_list@.len() == views(missing_list@).len());
        let missing = missing_list.len();
        let newest = newest_mtime(files);
        let stale = stale_reason_at(&newest, self.schedule, now);
        let changed = self.files_changed_unexpectedly;
        let files_missing = missing as i64;
        let tracked_before = self.known as i64 + files_missing;
        let hashed = self.files_sampled + self.new_files_hashed;
        let missing_alarm = tracked_before > 0 && files_missing as i128 * 5 > tracked_before as i128;
        let status = if changed > 0 {
            CheckStatus::Error
        } else if stale.is_some() || missing_alarm {
            CheckStatus::Warning
        } else {
            CheckStatus::Healthy
        };
        let ghost stale_view = match &stale {
            Some(r) => Some(r@),
            None => None::<Seq<char>>,
        };
        let ghost rs = reasons(stale_view, changed as int, missing as int, tracked_before as int, missing_percent@);
        let mut parts: Vec<String> = Vec::new();
        match stale {
            Some(r) => parts.push(r),
            None => {},
        }
        assert(views(parts@) =~= match stale_view {
            Some(r) => seq![r],
            None => Seq::<Seq<char>>::empty(),
        });
        let ghost p1 = views(parts@);
        if changed > 0 {
            let mut r = String::new();
            push_i64(&mut r, changed);
            r.append(" файл(ов) изменились без изменения даты — похоже на повреждение данных");
            assert(r@ =~= changed_reason(changed as int));
            parts.push(r);
        }
        assert(views(parts@) =~= p1 + (if changed > 0 {
            seq![changed_reason(changed as int)]
        } else {
            Seq::<Seq<char>>::empty()
        }));
        let ghost p2 = views(parts@);
        if missing_alarm {
            let mut r = String::new();
            r.append("пропало ");
            push_i64(&mut r, files_missing);
            r.append(" из ");
            push_i64(&mut r, tracked_before);
            r.append(" ранее отслеженных файлов (");
            r.append(missing_percent);
            r.append("%)");
            assert(r@ =~= missing_reason(files_missing as int, tracked_before as int, missing_percent@));
            parts.push(r);
        }
        assert(views(parts@) =~= p2 + (if too_many_missing(missing as int, tracked_before as int) {
            seq![missing_reason(missing as int, tracked_before as int, missing_percent@)]
        } else {
            Seq::<Seq<char>>::empty()
        }));
        assert(views(parts@) =~= rs);
        let message = if parts.len() == 0 {
            let mut m = String::new();
            m.append("Всё в порядке: ");
            push_i64(&mut m, files.len() as i64);
            m.append(" файлов, проверено выборочно ");
            push_i64(&mut m, hashed);
            assert(m@ =~= all_well_message(files@.len() as int, hashed as int));
            m
        } else {
            join(&parts, "; ")
        };
        CheckRun {
            id: 0,
            backup_id: self.backup_id.clone(),
            started_at: self.started_at.clone(),
            finished_at,
            status,
            message,
            files_scanned: files.len() as i64,
            files_sampled: hashed,
            files_changed_unexpectedly: changed,
            files_missing,
            newest_file_at: newest,
        }
    }

    /// Finishes the check now: there is an instant, the one written as the
    /// finishing time, at which the run is judged as `outcome` says; the run
    /// keeps the bounds of `bounded`.
    pub fn finish(&self, stored_paths: &Vec<String>, missing_percent: &str) -> (run: CheckRun)
        requires
            self.wf(),
            self.known + stored_paths@.len() <= i64::MAX,
        ensures
            self.bounded(run),
            exists|now: Instant|
                #![trigger utc_rfc3339(now.secs, now.nanos)]
                self.outcome(run, stored_paths@, missing_percent@, now)
                    && utc_rfc3339(now.secs, now.nanos) == Some(run.finished_at@),
    {
        let at = now();
        let finished_at = instant_to_rfc3339(at).unwrap();
        self.finish_at(stored_paths, missing_percent, at, finished_at)
    }
}

proof fn lemma_missing_len(stored_paths: Seq<String>, seen: Set<Seq<char>>, n: int)
    requires
        0 <= n <= stored_paths.len(),
    ensures
        missing_of(stored_paths, seen, n).len() <= n,
    decreases n,
{
    if n > 0 {
        lemma_missing_len(stored_paths, seen, n - 1);
    }
}

} // verus!
