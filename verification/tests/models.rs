use backup_verify::activation::{interpret_reply, license_request_body, translate_server_error, StoredReceipt};
use backup_verify::models::{BackupTarget, CheckStatus, Schedule};
use backup_verify::notify::problem_notification_title;

#[test]
fn schedule_names_round_trip() {
    for s in [Schedule::Daily, Schedule::Weekly, Schedule::Monthly] {
        assert_eq!(Schedule::from_str(s.as_str()), s);
    }
    assert_eq!(Schedule::from_str("yearly"), Schedule::Daily);
    assert_eq!(Schedule::Daily.interval_seconds(), 86_400);
    assert_eq!(Schedule::Weekly.interval_seconds(), 604_800);
    assert_eq!(Schedule::Monthly.interval_seconds(), 2_592_000);
}

#[test]
fn status_names_round_trip() {
    for s in [CheckStatus::Healthy, CheckStatus::Warning, CheckStatus::Error, CheckStatus::Pending] {
        assert_eq!(CheckStatus::from_str(s.as_str()), s);
    }
    assert_eq!(CheckStatus::Healthy.as_str(), "ok");
    assert_eq!(CheckStatus::from_str("bogus"), CheckStatus::Pending);
}

#[test]
fn server_errors_are_translated() {
    assert_eq!(translate_server_error("unknown key"), "Ключ не найден");
    assert_eq!(translate_server_error("key revoked"), "Ключ отозван");
    assert_eq!(
        translate_server_error("activation limit reached for this key"),
        "Этот ключ уже активирован на максимальном числе устройств"
    );
    assert_eq!(
        translate_server_error("machine not activated for this key"),
        "Устройство не было активировано этим ключом — активируйте его заново"
    );
    assert_eq!(translate_server_error("boom"), "Сервер лицензий отклонил запрос: boom");
}

#[test]
fn server_replies_are_interpreted() {
    let ok = interpret_reply(
        true,
        None,
        Some(StoredReceipt { receipt_b64: "r".into(), signature_b64: "s".into() }),
    )
    .unwrap();
    assert_eq!(ok.receipt_b64, "r");
    assert_eq!(ok.signature_b64, "s");
    assert_eq!(interpret_reply(false, Some("key revoked".into()), None).err().unwrap(), "Ключ отозван");
    assert_eq!(
        interpret_reply(false, None, None).err().unwrap(),
        "Сервер лицензий вернул непонятный ответ"
    );
    assert_eq!(
        interpret_reply(true, None, None).err().unwrap(),
        "Сервер лицензий вернул непонятный ответ"
    );
}

#[test]
fn only_problems_raise_notifications() {
    let b = BackupTarget {
        id: "1".into(),
        name: "Фото".into(),
        path: "/p".into(),
        schedule: Schedule::Daily,
        created_at: "t".into(),
        last_check_at: None,
        last_status: CheckStatus::Pending,
        last_message: None,
        locked: false,
    };
    assert_eq!(problem_notification_title(&b, CheckStatus::Error).unwrap(), "Проблема с бэкапом «Фото»");
    assert_eq!(problem_notification_title(&b, CheckStatus::Warning).unwrap(), "Стоит проверить бэкап «Фото»");
    assert!(problem_notification_title(&b, CheckStatus::Healthy).is_none());
    assert!(problem_notification_title(&b, CheckStatus::Pending).is_none());
}

#[test]
fn license_requests_carry_key_and_machine() {
    let body = license_request_body("BVPR-1", "machine-7");
    let value: serde_json::Value = serde_json::from_slice(&body).unwrap();
    assert_eq!(value["key"], "BVPR-1");
    assert_eq!(value["machine_id"], "machine-7");
    assert_eq!(value.as_object().unwrap().len(), 2);
}
