//! Admission-policy middleware: extracts a bearer credential from a request's
//! headers, classifies it into an `AuthState`, and either forwards the
//! request (with the state attached for downstream consumption) or
//! short-circuits with a rejection response that discards the payload.

use vstd::prelude::*;

use crate::auth_state::{AuthState, AuthToken};
use crate::errors::DianaError;
use crate::jwt::validate_and_decode_jwt;
use crate::strutil::{seq_eq_ci, str_eq_ignore_ascii_case, trim_spec, trim_str};

verus! {

/// An inbound request as the middleware sees it: a header mapping with
/// case-insensitive names, and an opaque payload.
pub struct Request {
    pub headers: Vec<(String, String)>,
    pub body: String,
}

/// The value of the first header named `authorization` up to ASCII case.
pub open spec fn auth_header_value(headers: Seq<(String, String)>) -> Option<Seq<char>>
    decreases headers.len(),
{
    if headers.len() == 0 {
        None
    } else if seq_eq_ci(headers[0].0@, "authorization"@) {
        Some(headers[0].1@)
    } else {
        auth_header_value(headers.drop_first())
    }
}

/// Everything after the first occurrence of the literal `Bearer` marker, or
/// nothing when no marker is present.
pub open spec fn after_bearer(value: Seq<char>) -> Option<Seq<char>>
    decreases value.len(),
{
    if value.len() < 6 {
        None
    } else if value.subrange(0, 6) == "Bearer"@ {
        Some(value.subrange(6, value.len() as int))
    } else {
        after_bearer(value.drop_first())
    }
}

/// The token carried by a header value: everything after the first literal
/// `Bearer` marker, trimmed of surrounding whitespace. A value with no
/// `Bearer` marker carries no token (deliberately permissive, not an error).
pub open spec fn extracted_token(value: Seq<char>) -> Option<Seq<char>> {
    match after_bearer(value) {
        Some(rest) => Some(trim_spec(rest)),
        None => None,
    }
}

/// The bearer token of a request, if any: the token extracted from its
/// `authorization` header.
pub open spec fn request_token(headers: Seq<(String, String)>) -> Option<Seq<char>> {
    match auth_header_value(headers) {
        Some(value) => extracted_token(value),
        None => None,
    }
}

fn get_auth_header(headers: &Vec<(String, String)>) -> (r: Option<&String>)
    ensures
        match r {
            Some(v) => auth_header_value(headers@) == Some(v@),
            None => auth_header_value(headers@) is None,
        },
{
    let n = headers.len();
    let mut i: usize = 0;
    proof {
        assert(headers@.skip(0) =~= headers@);
    }
    while i < n
        invariant
            n == headers@.len(),
            i <= n,
            auth_header_value(headers@) == auth_header_value(headers@.skip(i as int)),
        decreases n - i,
    {
        if str_eq_ignore_ascii_case(headers[i].0.as_str(), "authorization") {
            return Some(&headers[i].1);
        }
        proof {
            assert(headers@.skip(i as int).drop_first() =~= headers@.skip(i as int + 1));
        }
        i += 1;
    }
    None
}

/// Pulls the bearer token out of one header value: the text after the first
/// `Bearer` marker, trimmed. Yields nothing when no marker is present.
pub fn extract_bearer_token(value: &str) -> (r: Option<String>)
    ensures
        match r {
            Some(t) => extracted_token(value@) == Some(t@),
            None => extracted_token(value@) is None,
        },
{
    let len = value.unicode_len();
    if len < 6 {
        return None;
    }
    let mut i: usize = 0;
    proof {
        assert(value@.skip(0) =~= value@);
        reveal_strlit("Bearer");
    }
    while i <= len - 6
        invariant
            len == value@.len(),
            6 <= len,
            i <= len - 6 + 1,
            after_bearer(value@) == after_bearer(value@.skip(i as int)),
        decreases len - i,
    {
        let found = value.get_char(i) == 'B' && value.get_char(i + 1) == 'e' && value.get_char(
            i + 2,
        ) == 'a' && value.get_char(i + 3) == 'r' && value.get_char(i + 4) == 'e' && value.get_char(
            i + 5,
        ) == 'r';
        if found {
            proof {
                reveal_strlit("Bearer");
                assert(value@.skip(i as int).subrange(0, 6) =~= "Bearer"@);
                assert(value@.skip(i as int).subrange(6, len - i) =~= value@.subrange(
                    i as int + 6,
                    len as int,
                ));
            }
            let rest = value.substring_char(i + 6, len);
            let trimmed = trim_str(rest);
            return Some(trimmed);
        }
        proof {
            reveal_strlit("Bearer");
            assert(value@.skip(i as int).subrange(0, 6) != "Bearer"@) by {
                if value@.skip(i as int).subrange(0, 6) == "Bearer"@ {
                    assert(value@.skip(i as int).subrange(0, 6)[0] == 'B');
                    assert(value@.skip(i as int).subrange(0, 6)[1] == 'e');
                    assert(value@.skip(i as int).subrange(0, 6)[2] == 'a');
                    assert(value@.skip(i as int).subrange(0, 6)[3] == 'r');
                    assert(value@.skip(i as int).subrange(0, 6)[4] == 'e');
                    assert(value@.skip(i as int).subrange(0, 6)[5] == 'r');
                }
            }
            assert(value@.skip(i as int).drop_first() =~= value@.skip(i as int + 1));
        }
        i += 1;
    }
    proof {
        assert(value@.skip(i as int).len() < 6);
    }
    None
}

/// Turns the validator's outcome into the definitive `AuthState`: decoded
/// claims are `Authorised` with exactly those claims, a failed verification
/// is `InvalidToken`.
pub fn classify_validation(decoded: Option<AuthToken>) -> (state: AuthState)
    ensures
        match decoded {
            Some(token) => state == AuthState::Authorised(token),
            None => state == AuthState::InvalidToken,
        },
{
    match decoded {
        Some(token) => AuthState::Authorised(token),
        None => AuthState::InvalidToken,
    }
}

/// Classifies a request's credential status. A request without a bearer
/// token is `NoToken` without consulting the secret; with a token, a missing
/// secret is the sole error path (`SecretUnavailable`, a server
/// misconfiguration), and otherwise the validator's outcome decides between
/// `Authorised` and `InvalidToken`.
pub fn get_token_state_from_req(req: &Request, secret: &Option<Vec<u8>>) -> (r: Result<
    AuthState,
    DianaError,
>)
    ensures
        request_token(req.headers@) is None ==> r == Ok::<AuthState, DianaError>(
            AuthState::NoToken,
        ),
        request_token(req.headers@) is Some && secret is None ==> r == Err::<
            AuthState,
            DianaError,
        >(DianaError::SecretUnavailable),
        request_token(req.headers@) is Some && secret is Some ==> (r matches Ok(state) && (
        state matches AuthState::Authorised(_) || state is InvalidToken)),
{
    let raw_auth_header = get_auth_header(&req.headers);
    let bearer_token = match raw_auth_header {
        Some(header) => extract_bearer_token(header.as_str()),
        None => None,
    };
    match bearer_token {
        Some(token) => {
            match secret {
                Some(jwt_secret) => {
                    let decoded_jwt = validate_and_decode_jwt(token.as_str(), jwt_secret);
                    Ok(classify_validation(decoded_jwt))
                },
                None => Err(DianaError::SecretUnavailable),
            }
        },
        None => Ok(AuthState::NoToken),
    }
}

/// The admission rule configured once at server-setup time.
#[derive(Debug, Clone, Copy, PartialEq, Eq, Structural)]
pub enum AuthCheckBlockState {
    /// Every `AuthState` outcome is forwarded.
    AllowAll,
    /// Only `Authorised` is forwarded.
    BlockUnauthenticated,
    /// `Authorised` and `NoToken` are forwarded; `InvalidToken` is rejected.
    AllowMissing,
}

/// Whether `policy` forwards a request classified as `state`.
pub open spec fn allows(policy: AuthCheckBlockState, state: AuthState) -> bool {
    match policy {
        AuthCheckBlockState::AllowAll => true,
        AuthCheckBlockState::BlockUnauthenticated => state matches AuthState::Authorised(_),
        AuthCheckBlockState::AllowMissing => state matches AuthState::Authorised(_) || state
            is NoToken,
    }
}

/// What the middleware does with one request: forward it to the inner
/// handler with the computed state attached, or short-circuit with a
/// terminal response. A rejection carries only a status code — the request
/// and its payload are discarded and never reach the inner handler.
pub enum MiddlewareOutcome {
    /// Forward to the inner handler: the computed state and the request,
    /// payload untouched.
    Forward(AuthState, Request),
    /// Short-circuit with a terminal response of this status code.
    Reject(u16),
}

fn allows_state(policy: AuthCheckBlockState, state: &AuthState) -> (r: bool)
    ensures
        r == allows(policy, *state),
{
    match policy {
        AuthCheckBlockState::AllowAll => true,
        AuthCheckBlockState::BlockUnauthenticated => state.is_authorised(),
        AuthCheckBlockState::AllowMissing => {
            match state {
                AuthState::Authorised(_) => true,
                AuthState::NoToken => true,
                AuthState::InvalidToken => false,
            }
        },
    }
}

/// The admission truth table, for every classification outcome and policy,
/// independent of the request's payload: a classified state is forwarded
/// exactly when the policy allows it and rejected with 401 otherwise, and a
/// classification error is rejected fail-closed with 500.
pub fn apply_policy(policy: AuthCheckBlockState, classification: Result<AuthState, DianaError>, req: Request) -> (out: MiddlewareOutcome)
    ensures
        match classification {
            Ok(state) => {
                if allows(policy, state) {
                    out == MiddlewareOutcome::Forward(state, req)
                } else {
                    out == MiddlewareOutcome::Reject(401u16)
                }
            },
            Err(_) => out == MiddlewareOutcome::Reject(500u16),
        },
{
    match classification {
        Ok(state) => {
            if allows_state(policy, &state) {
                MiddlewareOutcome::Forward(state, req)
            } else {
                MiddlewareOutcome::Reject(401)
            }
        },
        Err(_) => MiddlewareOutcome::Reject(500),
    }
}

/// Law: the admission truth table over every policy and classified state.
/// `AllowAll` forwards every outcome; `BlockUnauthenticated` forwards exactly
/// the authorised ones; `AllowMissing` rejects exactly the invalid tokens.
pub proof fn lemma_policy_truth_table(state: AuthState)
    ensures
        allows(AuthCheckBlockState::AllowAll, state),
        allows(AuthCheckBlockState::BlockUnauthenticated, state) <==> (
        state matches AuthState::Authorised(_)),
        allows(AuthCheckBlockState::AllowMissing, state) <==> !(state is InvalidToken),
{
}

/// Factory for the admission middleware; one of the three constructors picks
/// the policy, and the factory is immutable from then on.
pub struct AuthCheck {
    pub block_state: AuthCheckBlockState,
}

impl AuthCheck {
    /// A factory whose middleware blocks missing and invalid tokens: all
    /// requests must be authenticated.
    pub fn block_unauthenticated() -> (r: Self)
        ensures
            r.block_state == AuthCheckBlockState::BlockUnauthenticated,
    {
        Self { block_state: AuthCheckBlockState::BlockUnauthenticated }
    }

    /// A factory whose middleware blocks only invalid tokens: requests
    /// without any token are let through.
    pub fn allow_missing() -> (r: Self)
        ensures
            r.block_state == AuthCheckBlockState::AllowMissing,
    {
        Self { block_state: AuthCheckBlockState::AllowMissing }
    }

    /// A factory whose middleware lets every outcome through, attaching the
    /// computed state for later processing.
    pub fn allow_all() -> (r: Self)
        ensures
            r.block_state == AuthCheckBlockState::AllowAll,
    {
        Self { block_state: AuthCheckBlockState::AllowAll }
    }

    /// The factory for a given block state, as a server picks it from its
    /// configured options at construction time.
    pub fn for_block_state(block_state: AuthCheckBlockState) -> (r: Self)
        ensures
            r.block_state == block_state,
    {
        match block_state {
            AuthCheckBlockState::AllowAll => Self::allow_all(),
            AuthCheckBlockState::AllowMissing => Self::allow_missing(),
            AuthCheckBlockState::BlockUnauthenticated => Self::block_unauthenticated(),
        }
    }

    /// Creates the middleware itself, carrying the factory's policy.
    pub fn new_transform(&self) -> (m: AuthCheckMiddleware)
        ensures
            m.block_state == self.block_state,
    {
        AuthCheckMiddleware { block_state: self.block_state }
    }
}

/// The admission middleware, invoked once per inbound request before the
/// inner handler.
pub struct AuthCheckMiddleware {
    pub block_state: AuthCheckBlockState,
}

impl AuthCheckMiddleware {
    /// Classifies the request and applies the configured policy: without a
    /// bearer token the outcome follows the truth table for `NoToken`; with
    /// one but no secret available, the request is rejected fail-closed with
    /// 500; with both, the request is forwarded exactly when the policy
    /// allows the validator's verdict, payload untouched, and rejected with
    /// 401 otherwise.
    pub fn call(&self, req: Request, secret: &Option<Vec<u8>>) -> (out: MiddlewareOutcome)
        ensures
            request_token(req.headers@) is None ==> (if allows(
                self.block_state,
                AuthState::NoToken,
            ) {
                out == MiddlewareOutcome::Forward(AuthState::NoToken, req)
            } else {
                out == MiddlewareOutcome::Reject(401u16)
            }),
            request_token(req.headers@) is Some && secret is None ==> out
                == MiddlewareOutcome::Reject(500u16),
            request_token(req.headers@) is Some && secret is Some ==> match out {
                MiddlewareOutcome::Forward(state, request) => request == req && allows(
                    self.block_state,
                    state,
                ) && !(state is NoToken),
                MiddlewareOutcome::Reject(status) => status == 401 && self.block_state
                    != AuthCheckBlockState::AllowAll,
            },
    {
        let token_state = get_token_state_from_req(&req, secret);
        apply_policy(self.block_state, token_state, req)
    }
}

} // verus!
