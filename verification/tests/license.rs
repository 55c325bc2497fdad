use backup_verify::db::current_max_backups;
use backup_verify::license::{
    is_expired, needs_revalidation, status_from_stored, verify_receipt, verify_receipt_with_key,
    Receipt, FREE_TIER_BACKUP_LIMIT, SERVER_PUBLIC_KEY,
};
use base64::{engine::general_purpose::STANDARD, Engine};
use ed25519_dalek::{Signer, SigningKey};

fn receipt_json(expires_in_days: i64) -> Vec<u8> {
    let mut m = serde_json::Map::new();
    m.insert("key".to_string(), serde_json::Value::String("BVPR-TEST".to_string()));
    m.insert("tier".to_string(), serde_json::Value::String("pro".to_string()));
    m.insert("max_backups".to_string(), serde_json::Value::from(999));
    m.insert("machine_id".to_string(), serde_json::Value::String("machine-1".to_string()));
    m.insert("issued_at".to_string(), serde_json::Value::String(chrono::Utc::now().to_rfc3339()));
    m.insert(
        "expires_at".to_string(),
        serde_json::Value::String((chrono::Utc::now() + chrono::Duration::days(expires_in_days)).to_rfc3339()),
    );
    serde_json::to_vec(&serde_json::Value::Object(m)).unwrap()
}

fn sign(bytes: &[u8]) -> (String, String, SigningKey) {
    let signing_key = SigningKey::from_bytes(&[7u8; 32]);
    let signature = signing_key.sign(bytes);
    (STANDARD.encode(bytes), STANDARD.encode(signature.to_bytes()), signing_key)
}

fn sample_receipt(expires_in_days: i64) -> Receipt {
    Receipt {
        key: "BVPR-TEST".into(),
        tier: "pro".into(),
        max_backups: 999,
        machine_id: "machine-1".into(),
        issued_at: chrono::Utc::now().to_rfc3339(),
        expires_at: (chrono::Utc::now() + chrono::Duration::days(expires_in_days)).to_rfc3339(),
    }
}

#[test]
fn a_genuine_signature_verifies_and_round_trips_fields() {
    let bytes = receipt_json(30);
    let (b64, sig, signing_key) = sign(&bytes);
    let verified = verify_receipt_with_key(&b64, &sig, signing_key.verifying_key().as_bytes())
        .expect("must verify");
    let fields: serde_json::Value = serde_json::from_slice(&verified).unwrap();
    assert_eq!(fields["max_backups"], 999);
    assert_eq!(fields["machine_id"], "machine-1");
}

#[test]
fn a_signature_from_the_wrong_key_is_rejected() {
    let bytes = receipt_json(30);
    let (b64, sig, _) = sign(&bytes);
    assert!(verify_receipt(&b64, &sig).is_err());
}

#[test]
fn garbage_input_is_rejected() {
    assert!(verify_receipt("not-base64!!", "also-not-base64!!").is_err());
}

#[test]
fn an_expired_receipt_is_detected() {
    assert!(is_expired(&sample_receipt(-1)));
    assert!(!is_expired(&sample_receipt(30)));
}

#[test]
fn revalidation_is_due_inside_the_window_but_not_before_it() {
    let far_away = (chrono::Utc::now() + chrono::Duration::days(20)).to_rfc3339();
    let soon = (chrono::Utc::now() + chrono::Duration::days(3)).to_rfc3339();
    let past = (chrono::Utc::now() - chrono::Duration::days(1)).to_rfc3339();
    assert!(!needs_revalidation(&far_away));
    assert!(needs_revalidation(&soon));
    assert!(needs_revalidation(&past));
}

#[test]
fn no_row_means_unlicensed() {
    assert!(status_from_stored(None).is_none());
    assert_eq!(current_max_backups(&status_from_stored(None)), FREE_TIER_BACKUP_LIMIT);
}

#[test]
fn a_row_with_a_garbage_receipt_does_not_count_as_licensed() {
    let verified = verify_receipt("not-a-real-receipt", "not-a-real-signature");
    assert!(verified.is_err());
    // Nothing verified, so nothing is read and nothing is granted.
    let status = status_from_stored(None);
    assert!(status.is_none());
    assert_eq!(current_max_backups(&status), FREE_TIER_BACKUP_LIMIT);
}

#[test]
fn verification_errors_name_the_first_problem() {
    let bytes = receipt_json(30);
    let (b64, sig, signing_key) = sign(&bytes);
    let key = signing_key.verifying_key().to_bytes();
    assert_eq!(verify_receipt_with_key("%%%", &sig, &key).unwrap_err(), "corrupt receipt");
    assert_eq!(verify_receipt_with_key(&b64, "%%%", &key).unwrap_err(), "corrupt signature");
    assert_eq!(
        verify_receipt_with_key(&b64, &STANDARD.encode([1u8; 63]), &key).unwrap_err(),
        "signature has the wrong length"
    );
    let mut tampered = bytes.clone();
    tampered[2] ^= 1;
    assert_eq!(
        verify_receipt_with_key(&STANDARD.encode(&tampered), &sig, &key).unwrap_err(),
        "signature does not match — the receipt was tampered with or is forged"
    );
    assert_eq!(verify_receipt_with_key(&b64, &sig, &key).unwrap(), bytes);
}

#[test]
fn the_embedded_server_key_is_a_valid_point() {
    assert!(ed25519_dalek::VerifyingKey::from_bytes(&SERVER_PUBLIC_KEY).is_ok());
}

#[test]
fn a_valid_receipt_grants_its_quota_and_an_expired_one_nothing() {
    let info = status_from_stored(Some(sample_receipt(30))).expect("valid");
    assert_eq!(info.tier, "pro");
    assert_eq!(info.license_ref, "BVPR-TEST");
    assert_eq!(info.max_backups, 999);
    assert_eq!(current_max_backups(&Some(info)), 999);
    assert!(status_from_stored(Some(sample_receipt(-1))).is_none());
    let mut garbled = sample_receipt(30);
    garbled.expires_at = "soon".to_string();
    assert!(status_from_stored(Some(garbled)).is_none());
}
