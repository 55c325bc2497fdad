use backup_verify::checker::{
    mtime_to_rfc3339, newest_mtime, plan_files, sample_target, FileAction, FolderCheck, WalkedFile,
};
use backup_verify::db::new_backup_target;
use backup_verify::hashing::{to_lower_hex, ContentHasher};
use backup_verify::models::{BackupTarget, CheckStatus, FileRecord, NewBackup, Schedule};
use backup_verify::time::Instant;

fn backup() -> BackupTarget {
    new_backup_target(
        "b1".to_string(),
        NewBackup { name: "n".into(), path: "/p".into(), schedule: Schedule::Daily },
        "2024-01-01T00:00:00+00:00".to_string(),
    )
}

fn file(path: &str, mtime: &str) -> WalkedFile {
    WalkedFile { rel_path: path.to_string(), size: 10, mtime: mtime.to_string() }
}

fn record(path: &str, mtime: &str, hash: &str, run: u64) -> FileRecord {
    FileRecord { rel_path: path.into(), size: 10, mtime: mtime.into(), hash: hash.into(), verified_run: run }
}

fn paths(list: &[&str]) -> Vec<String> {
    list.iter().map(|s| s.to_string()).collect()
}

#[test]
fn sample_size_is_a_tenth_clamped() {
    assert_eq!(sample_target(0), 0);
    assert_eq!(sample_target(10), 10);
    assert_eq!(sample_target(25), 25);
    assert_eq!(sample_target(100), 25);
    assert_eq!(sample_target(251), 26);
    assert_eq!(sample_target(5000), 500);
    assert_eq!(sample_target(100_000), 1000);
}

#[test]
fn plan_rehashes_the_least_recently_verified_and_caps_new_ones() {
    let records = vec![
        Some(record("a", "t", "h", 5)),
        Some(record("b", "t", "h", 2)),
        None,
        Some(record("c", "t", "h", 2)),
        None,
    ];
    let plan = plan_files(&records, 2);
    assert_eq!(
        plan,
        vec![FileAction::Touch, FileAction::Resample, FileAction::HashNew, FileAction::Resample, FileAction::HashNew]
    );
    let plan = plan_files(&records, 1);
    assert_eq!(plan[1], FileAction::Resample);
    assert_eq!(plan[3], FileAction::Touch);
    let none: Vec<Option<FileRecord>> = (0..3002).map(|_| None).collect();
    let plan = plan_files(&none, 0);
    assert_eq!(plan.iter().filter(|a| **a == FileAction::HashNew).count(), 3000);
    assert_eq!(plan[2999], FileAction::HashNew);
    assert_eq!(plan[3000], FileAction::Leave);
}

#[test]
fn sampling_rotates_through_every_file() {
    // 60 known files, 25 re-hashed per run: everyone within ceil(60 / 25) = 3 runs.
    let mut runs: Vec<u64> = vec![0; 60];
    let mut verified = vec![false; 60];
    for _ in 0..3 {
        let records: Vec<Option<FileRecord>> =
            runs.iter().enumerate().map(|(i, r)| Some(record(&format!("f{i}"), "t", "h", *r))).collect();
        let mut check = FolderCheck::start(&backup());
        let files: Vec<WalkedFile> = (0..60).map(|i| file(&format!("f{i}"), "t")).collect();
        check.begin(files, &records);
        for i in 0..60 {
            if check.plan[i] == FileAction::Resample {
                let rec = check.record_resample(i, Some("h".into()), records[i].clone()).unwrap();
                runs[i] = rec.verified_run;
                verified[i] = true;
            }
        }
    }
    assert!(verified.iter().all(|v| *v));
}

#[test]
fn unreachable_and_empty_folders_end_early() {
    let check = FolderCheck::start(&backup());
    let run = check.path_problem(false, false).unwrap();
    assert_eq!(run.status, CheckStatus::Error);
    assert_eq!(run.message, "Путь недоступен — диск отключён или папка перемещена/удалена");
    assert_eq!(run.backup_id, "b1");
    let run = check.path_problem(true, false).unwrap();
    assert_eq!(run.message, "Указанный путь — не папка");
    assert!(check.path_problem(true, true).is_none());
    let run = check.empty_folder(&Vec::new()).unwrap();
    assert_eq!(run.status, CheckStatus::Warning);
    assert_eq!(run.message, "Папка пуста — проверьте, что путь указывает на правильное место");
    assert!(check.empty_folder(&vec![file("a", "t")]).is_none());
}

#[test]
fn silent_changes_are_errors_and_adopt_the_new_hash() {
    let now = chrono::Utc::now().to_rfc3339();
    let mut check = FolderCheck::start(&backup());
    let files = vec![file("a", &now), file("b", &now), file("c", &now)];
    let records = vec![Some(record("a", &now, "h1", 3)), Some(record("b", "older", "h2", 7)), None];
    check.begin(files, &records);
    assert_eq!(check.sample_size, 2);
    assert_eq!(check.run_stamp, 8);
    assert_eq!(check.plan, vec![FileAction::Resample, FileAction::Resample, FileAction::HashNew]);
    let same = check.record_resample(0, Some("changed".into()), Some(record("a", &now, "h1", 3))).unwrap();
    assert_eq!(same.hash, "changed");
    assert_eq!(same.verified_run, 8);
    check.stored(0);
    assert!(check.record_resample(1, None, None).is_none());
    let fresh = check.record_new(2, Some("h3".into())).unwrap();
    assert_eq!(fresh.verified_run, 8);
    check.stored(2);
    assert_eq!(check.files_sampled, 2);
    assert_eq!(check.new_files_hashed, 1);
    assert_eq!(check.files_changed_unexpectedly, 1);
    let recorded = paths(&["a", "b", "c"]);
    assert_eq!(check.missing_paths(&recorded), paths(&["b"]));
    let run = check.finish(&recorded, "33");
    assert_eq!(run.status, CheckStatus::Error);
    assert_eq!(
        run.message,
        "1 файл(ов) изменились без изменения даты — похоже на повреждение данных; \
пропало 1 из 3 ранее отслеженных файлов (33%)"
    );
    assert_eq!(run.files_scanned, 3);
    assert_eq!(run.files_sampled, 3);
    assert_eq!(run.files_changed_unexpectedly, 1);
    assert_eq!(run.files_missing, 1);
    assert_eq!(run.newest_file_at.as_deref(), Some(now.as_str()));
    // Flagged once: the adopted record finds nothing on the next run.
    let mut again = FolderCheck::start(&backup());
    again.begin(vec![file("a", &now)], &vec![Some(same.clone())]);
    again.record_resample(0, Some("changed".into()), Some(same));
    assert_eq!(again.files_changed_unexpectedly, 0);
}

#[test]
fn a_fresh_intact_folder_is_healthy() {
    let now = chrono::Utc::now().to_rfc3339();
    let mut check = FolderCheck::start(&backup());
    let files = vec![file("a", &now), file("b", "2020-01-01T00:00:00+00:00")];
    check.begin(files, &vec![None, None]);
    check.record_new(0, Some("h".into()));
    check.stored(0);
    check.record_new(1, Some("h".into()));
    check.stored(1);
    let run = check.finish(&paths(&["a", "b"]), "0");
    assert_eq!(run.status, CheckStatus::Healthy);
    assert_eq!(run.message, "Всё в порядке: 2 файлов, проверено выборочно 2");
    assert_eq!(run.started_at.len(), now.len());
}

#[test]
fn stale_backups_and_missing_files_are_warnings() {
    let old = "2020-03-05T10:00:00+00:00";
    let mut check = FolderCheck::start(&backup());
    check.begin(vec![file("a", old)], &vec![Some(record("a", old, "h", 1))]);
    check.record_resample(0, Some("h".into()), Some(record("a", old, "h", 1)));
    check.stored(0);
    let run = check.finish(&paths(&["a", "gone"]), "50");
    assert_eq!(run.status, CheckStatus::Warning);
    assert_eq!(
        run.message,
        "самый свежий файл в бэкапе от 05.03.2020 — дольше ожидаемого периода; \
пропало 1 из 2 ранее отслеженных файлов (50%)"
    );
    assert_eq!(run.files_missing, 1);
    let run = check.finish(&paths(&["a"]), "0");
    assert_eq!(run.message, "самый свежий файл в бэкапе от 05.03.2020 — дольше ожидаемого периода");
}

#[test]
fn a_fifth_missing_is_not_yet_a_warning() {
    let now = chrono::Utc::now().to_rfc3339();
    let names: Vec<String> = (0..4).map(|i| format!("f{i}")).collect();
    let files: Vec<WalkedFile> = names.iter().map(|n| file(n, &now)).collect();
    let records: Vec<Option<FileRecord>> = names.iter().map(|n| Some(record(n, &now, "h", 0))).collect();
    let mut check = FolderCheck::start(&backup());
    check.begin(files.clone(), &records);
    for i in 0..4 {
        check.record_resample(i, Some("h".into()), records[i].clone());
        check.stored(i);
    }
    let mut recorded = names.clone();
    recorded.push("gone".to_string());
    assert_eq!(check.finish(&recorded, "20").status, CheckStatus::Healthy);
    let mut check = FolderCheck::start(&backup());
    check.begin(files[..3].to_vec(), &records[..3].to_vec());
    for i in 0..3 {
        check.record_resample(i, Some("h".into()), records[i].clone());
        check.stored(i);
    }
    let recorded = paths(&["f0", "f1", "f2", "gone"]);
    assert_eq!(check.finish(&recorded, "25").status, CheckStatus::Warning);
}

#[test]
fn newest_is_the_greatest_mtime_text() {
    let files = vec![file("a", "2024-01-02"), file("b", "2024-03-01"), file("c", "2024-02-28")];
    assert_eq!(newest_mtime(&files).as_deref(), Some("2024-03-01"));
    assert_eq!(newest_mtime(&Vec::new()), None);
}

#[test]
fn mtimes_are_written_as_chrono_does() {
    let t = chrono::DateTime::parse_from_rfc3339("2023-07-01T12:30:45.5+00:00").unwrap();
    let instant = Instant { secs: t.timestamp(), nanos: t.timestamp_subsec_nanos() };
    assert_eq!(mtime_to_rfc3339(Some(instant)), t.with_timezone(&chrono::Utc).to_rfc3339());
    let epoch = chrono::DateTime::<chrono::Utc>::from_timestamp(0, 0).unwrap().to_rfc3339();
    assert_eq!(mtime_to_rfc3339(None), epoch);
}

#[test]
fn streamed_hash_is_blake3_of_the_whole_contents() {
    let data: Vec<u8> = (0..5000u32).map(|i| (i % 251) as u8).collect();
    let mut hasher = ContentHasher::new();
    assert!(hasher.absorb(&data[..1234]));
    assert!(hasher.absorb(&data[1234..]));
    assert!(!hasher.absorb(&[]));
    let text = hasher.finish_hex();
    assert_eq!(text, blake3::hash(&data).to_hex().to_string());
    assert_eq!(text.len(), 64);
    assert_eq!(to_lower_hex(&[0x00, 0xab, 0x7f]), "00ab7f");
}
