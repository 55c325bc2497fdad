//! License verification against signed receipts from the license server.
//!
//! The server holds the only signing key (Ed25519); the app embeds only the
//! server's public key, which can verify a receipt but never forge one. A
//! receipt is re-verified from scratch (signature, then expiry) on every read
//! of the license status; nothing about a stored row is trusted on its own.

use vstd::prelude::*;
use base64::Engine;
use ed25519_dalek::Verifier;
use crate::time::{Instant, now, rfc3339_instant, parse_rfc3339, precedes};

verus! {

/// The server's public key. Safe to publish: verify-only, it cannot mint a receipt.
pub const SERVER_PUBLIC_KEY: [u8; 32] = [
    27, 193, 234, 250, 122, 182, 200, 162, 50, 118, 128, 9, 117, 118, 24, 122, 9, 230, 204, 208,
    250, 179, 6, 235, 178, 219, 145, 188, 56, 210, 80, 140,
];

/// Backups an install without a valid license may track.
pub const FREE_TIER_BACKUP_LIMIT: i64 = 1;

/// How many days before a receipt's expiry revalidation is attempted.
/// Receipts live 30 days on the server; a week of headroom keeps a stretch
/// offline from locking a paying customer out of their own backups.
pub const REVALIDATE_WINDOW_DAYS: i64 = 7;

/// The signed payload the server issues on activation or revalidation.
#[derive(Debug, Clone)]
pub struct Receipt {
    pub key: String,
    pub tier: String,
    pub max_backups: i64,
    pub machine_id: String,
    pub issued_at: String,
    pub expires_at: String,
}

/// What a verified, still-valid receipt means for the UI and for enforcement.
#[derive(Debug, Clone)]
pub struct LicenseInfo {
    pub tier: String,
    /// Short reference for support requests: the key itself, not a secret.
    pub license_ref: String,
    pub max_backups: i64,
    pub expires_at: String,
}

/// What decoding `text` with base64's standard engine (`STANDARD.decode`)
/// gives: the bytes, or `None` when it reports an error.
pub uninterp spec fn base64_standard_decode(text: Seq<char>) -> Option<Seq<u8>>;

/// Whether ed25519-dalek accepts `signature` as a signature of `message`
/// under the public key `public_key`: the key bytes decompress to a curve
/// point (`VerifyingKey::from_bytes`) and `Verifier::verify` returns `Ok`.
pub uninterp spec fn ed25519_accepts(public_key: Seq<u8>, message: Seq<u8>, signature: Seq<u8>) -> bool;

/// Calls `base64::engine::general_purpose::STANDARD.decode`. Trusted: the
/// result is `base64_standard_decode` of the text (the error dropped).
#[verifier::external_body]
fn decode_base64(text: &str) -> (r: Option<Vec<u8>>)
    ensures
        match base64_standard_decode(text@) {
            Some(b) => r matches Some(v) && v@ == b,
            None => r is None,
        },
{
    base64::engine::general_purpose::STANDARD.decode(text).ok()
}

/// Calls `ed25519_dalek::VerifyingKey::from_bytes` on the key, then
/// `Verifier::verify` on the message with `Signature::from_bytes` of the 64
/// signature bytes. Trusted: the result is `ed25519_accepts` of the three.
#[verifier::external_body]
fn ed25519_verify(public_key: &[u8; 32], message: &[u8], signature: &[u8]) -> (ok: bool)
    requires
        signature@.len() == 64,
    ensures
        ok == ed25519_accepts(public_key@, message@, signature@),
{
    let signature: &[u8; 64] = signature.try_into().unwrap();
    match ed25519_dalek::VerifyingKey::from_bytes(public_key) {
        Ok(key) => key.verify(message, &ed25519_dalek::Signature::from_bytes(signature)).is_ok(),
        Err(_) => false,
    }
}

/// The error for a receipt that is not valid base64.
pub open spec fn corrupt_receipt_message() -> Seq<char> {
    "corrupt receipt"@
}

/// The error for a signature that is not valid base64.
pub open spec fn corrupt_signature_message() -> Seq<char> {
    "corrupt signature"@
}

/// The error for a signature that does not decode to 64 bytes.
pub open spec fn signature_length_message() -> Seq<char> {
    "signature has the wrong length"@
}

/// The error for a signature that does not verify.
pub open spec fn forged_message() -> Seq<char> {
    "signature does not match — the receipt was tampered with or is forged"@
}

/// The outcome of checking a stored receipt against `public_key`: the raw
/// receipt bytes when both parts decode and the signature verifies over
/// exactly those bytes, else the first problem found.
pub open spec fn receipt_check(receipt_b64: Seq<char>, signature_b64: Seq<char>, public_key: Seq<u8>) -> Result<Seq<u8>, Seq<char>> {
    match base64_standard_decode(receipt_b64) {
        None => Err(corrupt_receipt_message()),
        Some(receipt) => match base64_standard_decode(signature_b64) {
            None => Err(corrupt_signature_message()),
            Some(signature) => if signature.len() != 64 {
                Err(signature_length_message())
            } else if !ed25519_accepts(public_key, receipt, signature) {
                Err(forged_message())
            } else {
                Ok(receipt)
            },
        },
    }
}

/// The view of a byte result.
pub open spec fn bytes_result_view(r: Result<Vec<u8>, String>) -> Result<Seq<u8>, Seq<char>> {
    match r {
        Ok(v) => Ok(v@),
        Err(e) => Err(e@),
    }
}

/// Decodes a stored receipt and its signature (both base64) and verifies the
/// signature over the raw receipt bytes under `public_key`. Only on success
/// are the receipt bytes handed back to be read: a tampered byte anywhere
/// fails the signature check before the receipt's contents are looked at.
pub fn verify_receipt_with_key(receipt_b64: &str, signature_b64: &str, public_key: &[u8; 32]) -> (r: Result<Vec<u8>, String>)
    ensures
        bytes_result_view(r) == receipt_check(receipt_b64@, signature_b64@, public_key@),
{
    let receipt = match decode_base64(receipt_b64) {
        Some(b) => b,
        None => return Err(String::from_str("corrupt receipt")),
    };
    let signature = match decode_base64(signature_b64) {
        Some(b) => b,
        None => return Err(String::from_str("corrupt signature")),
    };
    if signature.len() != 64 {
        return Err(String::from_str("signature has the wrong length"));
    }
    if !ed25519_verify(public_key, receipt.as_slice(), signature.as_slice()) {
        return Err(
            String::from_str(
                "signature does not match — the receipt was tampered with or is forged",
            ),
        );
    }
    Ok(receipt)
}

/// `verify_receipt_with_key` under the server's own public key.
pub fn verify_receipt(receipt_b64: &str, signature_b64: &str) -> (r: Result<Vec<u8>, String>)
    ensures
        bytes_result_view(r) == receipt_check(receipt_b64@, signature_b64@, SERVER_PUBLIC_KEY@),
{
    verify_receipt_with_key(receipt_b64, signature_b64, &SERVER_PUBLIC_KEY)
}

/// Whether a receipt expiring at `expires_at` has expired by `now`: its
/// expiry is before `now`, or does not parse (an unparseable expiry is not a
/// valid receipt).
pub open spec fn expired_at(expires_at: Seq<char>, now: Instant) -> bool {
    match rfc3339_instant(expires_at) {
        Some(t) => t.precedes(now),
        None => true,
    }
}

/// Whether a receipt expiring at `expires_at` is due for revalidation at
/// `now`: its expiry comes before `now` plus `REVALIDATE_WINDOW_DAYS` days,
/// or does not parse.
pub open spec fn revalidation_due_at(expires_at: Seq<char>, now: Instant) -> bool {
    match rfc3339_instant(expires_at) {
        Some(t) => {
            let horizon = now.secs + 7 * 86400;
            t.secs < horizon || (t.secs == horizon && t.nanos < now.nanos)
        },
        None => true,
    }
}

/// The revalidation window is seven days: an expiry that reads is due when
/// it falls less than seven days (604800 seconds) after `now` and not due
/// when it falls more than that after it; an expiry that does not read is
/// always due. Once due, a receipt stays due as time goes on.
pub proof fn due_within_seven_days(expires_at: Seq<char>, now: Instant, later: Instant)
    requires
        now.secs < later.secs || (now.secs == later.secs && now.nanos <= later.nanos),
    ensures
        match rfc3339_instant(expires_at) {
            Some(t) => (t.secs < now.secs + 604800 ==> revalidation_due_at(expires_at, now))
                && (t.secs > now.secs + 604800 ==> !revalidation_due_at(expires_at, now)),
            None => revalidation_due_at(expires_at, now),
        },
        revalidation_due_at(expires_at, now) ==> revalidation_due_at(expires_at, later),
{
}

/// A receipt that has expired is always due for revalidation.
pub proof fn expired_receipts_are_due(expires_at: Seq<char>, now: Instant)
    requires
        expired_at(expires_at, now),
    ensures
        revalidation_due_at(expires_at, now),
{
}

/// Whether the receipt has expired by `now`.
pub fn is_expired_at(receipt: &Receipt, now: Instant) -> (r: bool)
    ensures
        r == expired_at(receipt.expires_at@, now),
{
    match parse_rfc3339(receipt.expires_at.as_str()) {
        Some(p) => precedes(p.at, now),
        None => true,
    }
}

/// Whether the receipt has expired, by the clock. An unparseable expiry
/// always counts as expired.
pub fn is_expired(receipt: &Receipt) -> (r: bool)
    ensures
        exists|now: Instant| r == expired_at(receipt.expires_at@, now),
        rfc3339_instant(receipt.expires_at@) is None ==> r,
{
    is_expired_at(receipt, now())
}

/// Whether a receipt expiring at `expires_at` is due for revalidation at `now`.
pub fn needs_revalidation_at(expires_at: &str, now: Instant) -> (r: bool)
    ensures
        r == revalidation_due_at(expires_at@, now),
{
    match parse_rfc3339(expires_at) {
        Some(p) => {
            let horizon: i128 = now.secs as i128 + REVALIDATE_WINDOW_DAYS as i128 * 86400;
            (p.at.secs as i128) < horizon || ((p.at.secs as i128) == horizon && p.at.nanos < now.nanos)
        },
        None => true,
    }
}

/// Whether a receipt expiring at `expires_at` is due for revalidation, by
/// the clock. An unparseable expiry is always due.
pub fn needs_revalidation(expires_at: &str) -> (r: bool)
    ensures
        exists|now: Instant| r == revalidation_due_at(expires_at@, now),
        rfc3339_instant(expires_at@) is None ==> r,
{
    needs_revalidation_at(expires_at, now())
}

/// Whether `info` carries exactly the receipt's tier, key, quota and expiry.
pub open spec fn describes(info: LicenseInfo, receipt: Receipt) -> bool {
    &&& info.tier@ == receipt.tier@
    &&& info.license_ref@ == receipt.key@
    &&& info.max_backups == receipt.max_backups
    &&& info.expires_at@ == receipt.expires_at@
}

/// What a verified receipt grants.
pub fn license_info(receipt: Receipt) -> (info: LicenseInfo)
    ensures
        describes(info, receipt),
{
    LicenseInfo {
        tier: receipt.tier,
        license_ref: receipt.key,
        max_backups: receipt.max_backups,
        expires_at: receipt.expires_at,
    }
}

/// Whether `r` is the license status at `now` for the stored receipt as
/// verified and read: nothing for a missing or expired receipt, else what
/// the receipt grants.
pub open spec fn status_matches(receipt: Option<Receipt>, now: Instant, r: Option<LicenseInfo>) -> bool {
    match receipt {
        None => r is None,
        Some(rc) => if expired_at(rc.expires_at@, now) {
            r is None
        } else {
            r matches Some(info) && describes(info, rc)
        },
    }
}

/// The license status at `now` given the stored receipt as verified and
/// read (`None` when it failed verification or could not be read): nothing
/// for a missing or expired receipt, else what the receipt grants.
pub fn status_from_stored_at(receipt: Option<Receipt>, now: Instant) -> (r: Option<LicenseInfo>)
    ensures
        status_matches(receipt, now, r),
{
    match receipt {
        None => None,
        Some(rc) => {
            if is_expired_at(&rc, now) {
                None
            } else {
                Some(license_info(rc))
            }
        },
    }
}

/// Re-derives the license status from the stored receipt as verified and
/// read, checking expiry fresh by the clock rather than trusting that a
/// row exists at all. An invalid or unreadable receipt and an expired one
/// both fall back to unlicensed.
pub fn status_from_stored(receipt: Option<Receipt>) -> (r: Option<LicenseInfo>)
    ensures
        receipt is None ==> r is None,
        exists|now: Instant| #[trigger] status_matches(receipt, now, r),
{
    status_from_stored_at(receipt, now())
}

} // verus!
