use backup_verify::commands::{add_backup_allowed, check_now_allowed, mark_locked};
use backup_verify::db::{backup_from_row, entitled_backup_ids, new_backup_target};
use backup_verify::models::{BackupTarget, CheckStatus, NewBackup, Schedule};
use backup_verify::scheduler::{due_backup_ids, is_due};

fn rows(list: &[(&str, &str)]) -> Vec<(String, String)> {
    list.iter().map(|(a, b)| (a.to_string(), b.to_string())).collect()
}

#[test]
fn entitled_backup_ids_returns_only_the_first_n_by_creation_order() {
    let all = rows(&[("a", "2024-01-01"), ("b", "2024-01-02"), ("c", "2024-01-03")]);
    assert_eq!(entitled_backup_ids(&all, 2), vec!["a", "b"]);
    assert_eq!(entitled_backup_ids(&all, 0), Vec::<String>::new());
    assert_eq!(entitled_backup_ids(&all, 99), vec!["a", "b", "c"]);
}

#[test]
fn entitlement_follows_creation_time_not_listing_order() {
    let all = rows(&[("c", "2024-01-03"), ("a", "2024-01-01"), ("x", "2024-01-02"), ("y", "2024-01-02")]);
    assert_eq!(entitled_backup_ids(&all, 3), vec!["a", "x", "y"]);
    assert_eq!(entitled_backup_ids(&all, -5), Vec::<String>::new());
    assert_eq!(entitled_backup_ids(&Vec::new(), 3), Vec::<String>::new());
}

#[test]
fn a_larger_quota_extends_a_smaller_one() {
    let all = rows(&[("c", "2024-01-03"), ("a", "2024-01-01"), ("b", "2024-01-02")]);
    let two = entitled_backup_ids(&all, 2);
    let three = entitled_backup_ids(&all, 3);
    assert_eq!(three[..2].to_vec(), two);
}

#[test]
fn adding_is_refused_exactly_at_the_quota() {
    assert!(add_backup_allowed(0, 1).is_ok());
    assert_eq!(
        add_backup_allowed(1, 1).unwrap_err(),
        "Бесплатная версия отслеживает 1 бэкап. Введите лицензионный ключ, чтобы добавить ещё."
    );
    assert_eq!(
        add_backup_allowed(5, 5).unwrap_err(),
        "Текущая лицензия разрешает отслеживать до 5 бэкапов."
    );
    assert!(add_backup_allowed(4, 5).is_ok());
    assert!(add_backup_allowed(0, 0).is_err());
}

fn target(id: &str, last_check_at: Option<String>) -> BackupTarget {
    let mut b = new_backup_target(
        id.to_string(),
        NewBackup { name: format!("backup {id}"), path: format!("/b/{id}"), schedule: Schedule::Daily },
        "2024-01-01T00:00:00+00:00".to_string(),
    );
    b.last_check_at = last_check_at;
    b
}

#[test]
fn backups_outside_the_quota_are_locked() {
    let mut list = vec![target("a", None), target("b", None), target("c", None)];
    mark_locked(&mut list, &vec!["a".to_string(), "c".to_string()]);
    assert!(!list[0].locked);
    assert!(list[1].locked);
    assert!(!list[2].locked);
    assert_eq!(list[1].id, "b");
}

#[test]
fn manual_checks_need_entitlement() {
    let entitled = vec!["a".to_string()];
    assert!(check_now_allowed(&entitled, "a").is_ok());
    assert_eq!(
        check_now_allowed(&entitled, "b").unwrap_err(),
        "Эта проверка недоступна — превышен лимит бесплатной версии или срок действия лицензии истёк."
    );
}

#[test]
fn due_checks_are_due_and_entitled() {
    let recent = chrono::Utc::now().to_rfc3339();
    let old = (chrono::Utc::now() - chrono::Duration::days(2)).to_rfc3339();
    let list = vec![
        target("never", None),
        target("recent", Some(recent)),
        target("old", Some(old)),
        target("garbled", Some("yesterday".to_string())),
        target("locked", None),
    ];
    assert!(is_due(&list[0]));
    assert!(!is_due(&list[1]));
    assert!(is_due(&list[2]));
    assert!(is_due(&list[3]));
    let entitled: Vec<String> =
        ["never", "recent", "old", "garbled"].iter().map(|s| s.to_string()).collect();
    assert_eq!(due_backup_ids(&list, &entitled), vec!["never", "old", "garbled"]);
}

#[test]
fn stored_rows_read_back_their_schedule_and_status() {
    let b = backup_from_row(
        "id".into(),
        "n".into(),
        "/p".into(),
        "weekly",
        "2024".into(),
        None,
        "warning",
        Some("m".into()),
    );
    assert_eq!(b.schedule, Schedule::Weekly);
    assert_eq!(b.last_status, CheckStatus::Warning);
    assert!(!b.locked);
    let odd = backup_from_row("i".into(), "n".into(), "/p".into(), "hourly", "t".into(), None, "??", None);
    assert_eq!(odd.schedule, Schedule::Daily);
    assert_eq!(odd.last_status, CheckStatus::Pending);
}
