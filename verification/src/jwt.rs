//! Token verification. The cryptographic decode/verify primitive is an
//! outside library; everything downstream of its result is verified.

use vstd::prelude::*;

use crate::auth_state::AuthToken;

verus! {

/// Relies on jsonwebtoken::decode: verifies the token's HS256 signature and
/// its expiry against the secret, returning the embedded claims on success
/// and an error on any failure (malformed structure, bad signature, expiry).
/// Because expiry is checked against the current time, nothing is promised of
/// the outcome; claims whose values are JSON strings are kept, in the key
/// order the decoder hands back.
#[verifier::external_body]
pub(crate) fn validate_and_decode_jwt(token: &str, secret: &Vec<u8>) -> Option<AuthToken> {
    let key = jsonwebtoken::DecodingKey::from_secret(secret.as_slice());
    let validation = jsonwebtoken::Validation::new(jsonwebtoken::Algorithm::HS256);
    let decoded = jsonwebtoken::decode::<std::collections::BTreeMap<String, serde_json::Value>>(token, &key, &validation);
    let data = match decoded {
        Ok(data) => data,
        Err(_) => return None,
    };
    let mut claims: Vec<(String, String)> = Vec::new();
    for (k, v) in data.claims {
        if let serde_json::Value::String(s) = v {
            claims.push((k, s));
        }
    }
    Some(AuthToken { claims })
}

} // verus!
