//! Behavioural tests of credential extraction, classification, claim
//! matching, and the admission policy truth table, run with the real JWT
//! library linked.

use std::collections::BTreeMap;

use diana::auth_state::{AuthState, AuthToken};
use diana::errors::DianaError;
use diana::graphql_utils::{get_auth_data_from_ctx, GqlContext};
use diana::middleware::{
    apply_policy, extract_bearer_token, get_token_state_from_req, AuthCheck, AuthCheckBlockState,
    MiddlewareOutcome, Request,
};

fn make_request(headers: Vec<(&str, &str)>, body: &str) -> Request {
    Request {
        headers: headers
            .into_iter()
            .map(|(k, v)| (k.to_string(), v.to_string()))
            .collect(),
        body: body.to_string(),
    }
}

fn sign_token(secret: &[u8], string_claims: Vec<(&str, &str)>, exp: u64) -> String {
    let mut claims: BTreeMap<String, serde_json::Value> = BTreeMap::new();
    for (k, v) in string_claims {
        claims.insert(k.to_string(), serde_json::Value::String(v.to_string()));
    }
    claims.insert(
        "exp".to_string(),
        serde_json::Value::Number(serde_json::Number::from(exp)),
    );
    jsonwebtoken::encode(
        &jsonwebtoken::Header::default(),
        &claims,
        &jsonwebtoken::EncodingKey::from_secret(secret),
    )
    .unwrap()
}

const FAR_FUTURE: u64 = 33_000_000_000;

#[test]
fn extract_simple_token() {
    let token = extract_bearer_token("Bearer abc123");
    assert_eq!(token.unwrap(), "abc123");
}

#[test]
fn extract_trims_whitespace() {
    let token = extract_bearer_token("Bearer \t my-token \t ");
    assert_eq!(token.unwrap(), "my-token");
}

#[test]
fn extract_without_marker_is_absent() {
    assert!(extract_bearer_token("garbage").is_none());
    assert!(extract_bearer_token("Basic dXNlcjpwdw==").is_none());
    assert!(extract_bearer_token("bearer lowercase-marker").is_none());
    assert!(extract_bearer_token("").is_none());
}

#[test]
fn extract_bare_marker_gives_empty_token() {
    let token = extract_bearer_token("Bearer");
    assert_eq!(token.unwrap(), "");
}

#[test]
fn extract_takes_text_after_first_marker() {
    let token = extract_bearer_token("xxBearer tail");
    assert_eq!(token.unwrap(), "tail");
}

#[test]
fn classification_without_header_is_no_token() {
    let req = make_request(vec![("content-type", "application/json")], "{}");
    let state = get_token_state_from_req(&req, &Some(b"s3cr3t".to_vec())).unwrap();
    assert!(matches!(state, AuthState::NoToken));
}

#[test]
fn classification_header_without_marker_is_no_token() {
    let req = make_request(vec![("Authorization", "garbage")], "");
    let state = get_token_state_from_req(&req, &Some(b"s3cr3t".to_vec())).unwrap();
    assert!(matches!(state, AuthState::NoToken));
}

#[test]
fn classification_header_name_is_case_insensitive() {
    let token = sign_token(b"s3cr3t", vec![("role", "admin")], FAR_FUTURE);
    let value = format!("Bearer {}", token);
    let req = make_request(vec![("AUTHORIZATION", value.as_str())], "");
    let state = get_token_state_from_req(&req, &Some(b"s3cr3t".to_vec())).unwrap();
    assert!(matches!(state, AuthState::Authorised(_)));
}

#[test]
fn classification_wrong_signature_is_invalid() {
    let token = sign_token(b"other-secret", vec![("role", "admin")], FAR_FUTURE);
    let value = format!("Bearer {}", token);
    let req = make_request(vec![("Authorization", value.as_str())], "");
    let state = get_token_state_from_req(&req, &Some(b"s3cr3t".to_vec())).unwrap();
    assert!(matches!(state, AuthState::InvalidToken));
}

#[test]
fn classification_expired_token_is_invalid() {
    let token = sign_token(b"s3cr3t", vec![("role", "admin")], 1_000);
    let value = format!("Bearer {}", token);
    let req = make_request(vec![("Authorization", value.as_str())], "");
    let state = get_token_state_from_req(&req, &Some(b"s3cr3t".to_vec())).unwrap();
    assert!(matches!(state, AuthState::InvalidToken));
}

#[test]
fn classification_malformed_token_is_invalid() {
    let req = make_request(vec![("Authorization", "Bearer not.a.jwt")], "");
    let state = get_token_state_from_req(&req, &Some(b"s3cr3t".to_vec())).unwrap();
    assert!(matches!(state, AuthState::InvalidToken));
}

#[test]
fn classification_valid_token_carries_exact_claims() {
    let token = sign_token(
        b"s3cr3t",
        vec![("role", "graphql_server"), ("tier", "gold")],
        FAR_FUTURE,
    );
    let value = format!("Bearer {}", token);
    let req = make_request(vec![("Authorization", value.as_str())], "");
    let state = get_token_state_from_req(&req, &Some(b"s3cr3t".to_vec())).unwrap();
    match state {
        AuthState::Authorised(auth_token) => {
            assert_eq!(
                auth_token.get_claim("role").cloned(),
                Some("graphql_server".to_string())
            );
            assert_eq!(
                auth_token.get_claim("tier").cloned(),
                Some("gold".to_string())
            );
            assert!(auth_token.get_claim("missing").is_none());
        }
        _ => panic!("expected an authorised state"),
    }
}

#[test]
fn classification_missing_secret_is_an_error() {
    let req = make_request(vec![("Authorization", "Bearer something")], "");
    let err = get_token_state_from_req(&req, &None).unwrap_err();
    assert_eq!(err, DianaError::SecretUnavailable);
}

#[test]
fn claim_matching_is_conjunctive() {
    let state = AuthState::Authorised(AuthToken {
        claims: vec![
            ("role".to_string(), "admin".to_string()),
            ("tier".to_string(), "gold".to_string()),
        ],
    });
    assert!(state.has_claims(&vec![("role".to_string(), "admin".to_string())]));
    assert!(state.has_claims(&vec![
        ("role".to_string(), "admin".to_string()),
        ("tier".to_string(), "gold".to_string()),
    ]));
    let narrow = AuthState::Authorised(AuthToken {
        claims: vec![("role".to_string(), "admin".to_string())],
    });
    assert!(!narrow.has_claims(&vec![
        ("role".to_string(), "admin".to_string()),
        ("tier".to_string(), "gold".to_string()),
    ]));
    assert!(!state.has_claims(&vec![("role".to_string(), "user".to_string())]));
}

#[test]
fn claim_matching_rejects_non_authorised_states() {
    let required = vec![("role".to_string(), "admin".to_string())];
    assert!(!AuthState::NoToken.has_claims(&required));
    assert!(!AuthState::InvalidToken.has_claims(&required));
}

#[test]
fn policy_truth_table_all_nine_combinations() {
    let authorised = || {
        Ok(AuthState::Authorised(AuthToken {
            claims: vec![("role".to_string(), "admin".to_string())],
        }))
    };
    let invalid = || Ok(AuthState::InvalidToken);
    let missing = || Ok(AuthState::NoToken);
    let req = || make_request(vec![], "payload");

    for policy in [
        AuthCheckBlockState::AllowAll,
        AuthCheckBlockState::BlockUnauthenticated,
        AuthCheckBlockState::AllowMissing,
    ] {
        assert!(matches!(
            apply_policy(policy, authorised(), req()),
            MiddlewareOutcome::Forward(AuthState::Authorised(_), _)
        ));
    }
    assert!(matches!(
        apply_policy(AuthCheckBlockState::AllowAll, invalid(), req()),
        MiddlewareOutcome::Forward(AuthState::InvalidToken, _)
    ));
    assert!(matches!(
        apply_policy(AuthCheckBlockState::BlockUnauthenticated, invalid(), req()),
        MiddlewareOutcome::Reject(401)
    ));
    assert!(matches!(
        apply_policy(AuthCheckBlockState::AllowMissing, invalid(), req()),
        MiddlewareOutcome::Reject(401)
    ));
    assert!(matches!(
        apply_policy(AuthCheckBlockState::AllowAll, missing(), req()),
        MiddlewareOutcome::Forward(AuthState::NoToken, _)
    ));
    assert!(matches!(
        apply_policy(AuthCheckBlockState::BlockUnauthenticated, missing(), req()),
        MiddlewareOutcome::Reject(401)
    ));
    assert!(matches!(
        apply_policy(AuthCheckBlockState::AllowMissing, missing(), req()),
        MiddlewareOutcome::Forward(AuthState::NoToken, _)
    ));
}

#[test]
fn policy_classification_error_rejects_fail_closed() {
    for policy in [
        AuthCheckBlockState::AllowAll,
        AuthCheckBlockState::BlockUnauthenticated,
        AuthCheckBlockState::AllowMissing,
    ] {
        let outcome = apply_policy(
            policy,
            Err(DianaError::SecretUnavailable),
            make_request(vec![], "payload"),
        );
        assert!(matches!(outcome, MiddlewareOutcome::Reject(500)));
    }
}

#[test]
fn policy_is_independent_of_payload() {
    for body in ["", "short", "a much longer request payload body"] {
        let outcome = apply_policy(
            AuthCheckBlockState::BlockUnauthenticated,
            Ok(AuthState::NoToken),
            make_request(vec![], body),
        );
        assert!(matches!(outcome, MiddlewareOutcome::Reject(401)));
    }
}

#[test]
fn rejection_discards_the_payload() {
    let middleware = AuthCheck::block_unauthenticated().new_transform();
    let req = make_request(vec![], "sensitive payload that must not be forwarded");
    let outcome = middleware.call(req, &Some(b"s3cr3t".to_vec()));
    // A rejection carries only the status code: the request, its body
    // included, is gone and can never reach an inner handler.
    match outcome {
        MiddlewareOutcome::Reject(status) => assert_eq!(status, 401),
        MiddlewareOutcome::Forward(_, _) => panic!("request should have been rejected"),
    }
}

#[test]
fn forwarding_keeps_the_payload_untouched() {
    let middleware = AuthCheck::allow_all().new_transform();
    let req = make_request(vec![], "the payload");
    let outcome = middleware.call(req, &Some(b"s3cr3t".to_vec()));
    match outcome {
        MiddlewareOutcome::Forward(state, forwarded) => {
            assert!(matches!(state, AuthState::NoToken));
            assert_eq!(forwarded.body, "the payload");
        }
        MiddlewareOutcome::Reject(_) => panic!("allow-all must forward"),
    }
}

#[test]
fn authorised_request_flows_to_resolver_context() {
    // A token signed with the configured secret under BlockUnauthenticated:
    // forwarded, and the resolver sees the exact claims through the context.
    let secret = Some(b"s3cr3t".to_vec());
    let token = sign_token(b"s3cr3t", vec![("role", "graphql_server")], FAR_FUTURE);
    let value = format!("Bearer {}", token);
    let req = make_request(vec![("Authorization", value.as_str())], "{\"query\":\"...\"}");

    let middleware = AuthCheck::block_unauthenticated().new_transform();
    let outcome = middleware.call(req, &secret);
    let (state, _forwarded) = match outcome {
        MiddlewareOutcome::Forward(state, forwarded) => (state, forwarded),
        MiddlewareOutcome::Reject(status) => panic!("rejected with {}", status),
    };

    let ctx = GqlContext {
        auth_state: Some(state),
        pubsub: None,
        pubsub_poisoned: false,
    };
    let looked_up = get_auth_data_from_ctx(&ctx).unwrap();
    assert!(looked_up.has_claims(&vec![(
        "role".to_string(),
        "graphql_server".to_string()
    )]));
    assert!(!looked_up.has_claims(&vec![("role".to_string(), "other".to_string())]));
}

#[test]
fn garbage_header_under_allow_missing_is_forwarded() {
    // No Bearer marker means no token at all, and AllowMissing permits that.
    let middleware = AuthCheck::allow_missing().new_transform();
    let req = make_request(vec![("Authorization", "garbage")], "");
    let outcome = middleware.call(req, &Some(b"s3cr3t".to_vec()));
    match outcome {
        MiddlewareOutcome::Forward(state, _) => assert!(matches!(state, AuthState::NoToken)),
        MiddlewareOutcome::Reject(status) => panic!("rejected with {}", status),
    }
}

#[test]
fn invalid_token_under_allow_missing_is_rejected() {
    let middleware = AuthCheck::allow_missing().new_transform();
    let req = make_request(vec![("Authorization", "Bearer bad.token.here")], "");
    let outcome = middleware.call(req, &Some(b"s3cr3t".to_vec()));
    assert!(matches!(outcome, MiddlewareOutcome::Reject(401)));
}

#[test]
fn missing_context_entry_is_reported() {
    let ctx = GqlContext {
        auth_state: None,
        pubsub: None,
        pubsub_poisoned: false,
    };
    let err = get_auth_data_from_ctx(&ctx).unwrap_err();
    assert_eq!(
        err,
        DianaError::GraphQLContextNotFound("auth_state".to_string())
    );
}

#[test]
fn error_messages_name_the_condition() {
    assert!(DianaError::SecretUnavailable.message().contains("secret"));
    assert!(DianaError::Unauthorised.message().contains("authentication"));
    assert!(DianaError::MutexPoisoned("pubsub".to_string())
        .message()
        .contains("poisoned"));
}
