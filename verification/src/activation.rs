//! What the app makes of the license server's replies. The HTTP exchange
//! itself happens outside the library; this only decides what a reply means.

use vstd::prelude::*;
use crate::text::str_eq;

verus! {

/// A receipt and its signature, both base64, exactly as the server sent them.
#[derive(Debug, Clone)]
pub struct StoredReceipt {
    pub receipt_b64: String,
    pub signature_b64: String,
}

/// The bytes `serde_json::to_vec` writes for a JSON object holding the
/// string `first_value` under `first_key` and `second_value` under
/// `second_key` (a `serde_json::Map` of two `Value::String`s).
pub uninterp spec fn json_object_bytes(
    first_key: Seq<char>,
    first_value: Seq<char>,
    second_key: Seq<char>,
    second_value: Seq<char>,
) -> Seq<u8>;

/// Builds a `serde_json::Map` of two string values and writes it with
/// `serde_json::to_vec`. Trusted: the bytes are `json_object_bytes` of the
/// four texts. Writing a map of strings cannot fail.
#[verifier::external_body]
fn encode_json_object(first_key: &str, first_value: &str, second_key: &str, second_value: &str) -> (body: Vec<u8>)
    ensures
        body@ == json_object_bytes(first_key@, first_value@, second_key@, second_value@),
{
    let mut map = serde_json::Map::new();
    map.insert(first_key.to_string(), serde_json::Value::String(first_value.to_string()));
    map.insert(second_key.to_string(), serde_json::Value::String(second_value.to_string()));
    serde_json::to_vec(&serde_json::Value::Object(map)).unwrap()
}

/// The body of an activation or revalidation request: the key and this
/// install's machine id, as a JSON object.
pub fn license_request_body(key: &str, machine_id: &str) -> (body: Vec<u8>)
    ensures
        body@ == json_object_bytes("key"@, key@, "machine_id"@, machine_id@),
{
    encode_json_object("key", key, "machine_id", machine_id)
}

/// The user-facing text for an error code the server returned.
pub open spec fn server_error_text(code: Seq<char>) -> Seq<char> {
    if code == "unknown key"@ {
        "Ключ не найден"@
    } else if code == "key revoked"@ {
        "Ключ отозван"@
    } else if code == "activation limit reached for this key"@ {
        "Этот ключ уже активирован на максимальном числе устройств"@
    } else if code == "machine not activated for this key"@ {
        "Устройство не было активировано этим ключом — активируйте его заново"@
    } else {
        "Сервер лицензий отклонил запрос: "@ + code
    }
}

/// Translates an error code from the license server for the user; an
/// unknown code is shown as the server sent it.
pub fn translate_server_error(code: &str) -> (r: String)
    ensures
        r@ == server_error_text(code@),
{
    if str_eq(code, "unknown key") {
        String::from_str("Ключ не найден")
    } else if str_eq(code, "key revoked") {
        String::from_str("Ключ отозван")
    } else if str_eq(code, "activation limit reached for this key") {
        String::from_str("Этот ключ уже активирован на максимальном числе устройств")
    } else if str_eq(code, "machine not activated for this key") {
        String::from_str("Устройство не было активировано этим ключом — активируйте его заново")
    } else {
        let mut r = String::from_str("Сервер лицензий отклонил запрос: ");
        r.append(code);
        r
    }
}

/// The error for a reply the app cannot make sense of.
pub open spec fn unintelligible_reply_text() -> Seq<char> {
    "Сервер лицензий вернул непонятный ответ"@
}

/// What a reply from the license server means. `success` is whether its
/// HTTP status was a success; `error_code` is the `error` field of its body
/// when that reads as an error object; `receipt` is its receipt and
/// signature when the body reads as such. A failed request yields the
/// translated error (or the unintelligible-reply error when the body names
/// none); a successful one yields the receipt, verbatim, if the body holds
/// one. Nothing here decides whether the receipt is genuine.
pub fn interpret_reply(success: bool, error_code: Option<String>, receipt: Option<StoredReceipt>) -> (r: Result<StoredReceipt, String>)
    ensures
        !success ==> match error_code {
            Some(c) => r matches Err(e) && e@ == server_error_text(c@),
            None => r matches Err(e) && e@ == unintelligible_reply_text(),
        },
        success ==> match receipt {
            Some(s) => r matches Ok(t) && t.receipt_b64@ == s.receipt_b64@ && t.signature_b64@
                == s.signature_b64@,
            None => r matches Err(e) && e@ == unintelligible_reply_text(),
        },
{
    if !success {
        return match error_code {
            Some(c) => Err(translate_server_error(c.as_str())),
            None => Err(String::from_str("Сервер лицензий вернул непонятный ответ")),
        };
    }
    match receipt {
        Some(s) => Ok(s),
        None => Err(String::from_str("Сервер лицензий вернул непонятный ответ")),
    }
}

} // verus!
