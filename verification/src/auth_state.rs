//! The three-way classification of a request's credential status and the
//! claim-matching predicate over it. Exactly one `AuthState` is computed per
//! request by the admission middleware and attached to the request's context.

use vstd::prelude::*;

use crate::strutil::str_eq;

verus! {

/// The claims embedded in a verified token: a mapping from string key to
/// string value, represented as an association list looked up by first match.
#[derive(Debug)]
pub struct AuthToken {
    pub claims: Vec<(String, String)>,
}

/// The value of the first claim named `key`, if any.
pub open spec fn claim_value(claims: Seq<(String, String)>, key: Seq<char>) -> Option<Seq<char>>
    decreases claims.len(),
{
    if claims.len() == 0 {
        None
    } else if claims[0].0@ == key {
        Some(claims[0].1@)
    } else {
        claim_value(claims.drop_first(), key)
    }
}

impl AuthToken {
    /// The value recorded for the claim named `key`, if any.
    pub fn get_claim(&self, key: &str) -> (r: Option<&String>)
        ensures
            match r {
                Some(v) => claim_value(self.claims@, key@) == Some(v@),
                None => claim_value(self.claims@, key@) is None,
            },
    {
        let n = self.claims.len();
        let mut i: usize = 0;
        proof {
            assert(self.claims@.skip(0) =~= self.claims@);
        }
        while i < n
            invariant
                n == self.claims@.len(),
                i <= n,
                claim_value(self.claims@, key@) == claim_value(self.claims@.skip(i as int), key@),
            decreases n - i,
        {
            if str_eq(self.claims[i].0.as_str(), key) {
                return Some(&self.claims[i].1);
            }
            proof {
                assert(self.claims@.skip(i as int).drop_first() =~= self.claims@.skip(
                    i as int + 1,
                ));
            }
            i += 1;
        }
        None
    }
}

/// The classification of one request's credential status.
#[derive(Debug)]
pub enum AuthState {
    /// A bearer token was present and verified; its claims are attached.
    Authorised(AuthToken),
    /// A bearer token was present but failed verification.
    InvalidToken,
    /// No bearer token was present at all.
    NoToken,
}

/// Conjunctive claim matching: true only for an `Authorised` state whose
/// claims contain every required key with an exactly matching value.
pub open spec fn matches_claims(state: AuthState, required: Seq<(String, String)>) -> bool {
    match state {
        AuthState::Authorised(token) => forall|i: int|
            0 <= i < required.len() ==> claim_value(token.claims@, required[i].0@) == Some(
                required[i].1@,
            ),
        AuthState::InvalidToken => false,
        AuthState::NoToken => false,
    }
}

impl AuthState {
    /// Whether this state carries claims matching every `(key, value)` pair
    /// in `test_claims`. Any non-`Authorised` state, and any missing or
    /// mismatched key, yields `false`; matching is conjunctive, with no
    /// partial credit.
    pub fn has_claims(&self, test_claims: &Vec<(String, String)>) -> (r: bool)
        ensures
            r == matches_claims(*self, test_claims@),
    {
        let token = match self {
            AuthState::Authorised(token) => token,
            AuthState::InvalidToken => {
                return false;
            },
            AuthState::NoToken => {
                return false;
            },
        };
        let n = test_claims.len();
        let mut i: usize = 0;
        while i < n
            invariant
                n == test_claims@.len(),
                i <= n,
                self matches AuthState::Authorised(t) && t == token,
                forall|j: int|
                    0 <= j < i ==> claim_value(token.claims@, test_claims@[j].0@) == Some(
                        test_claims@[j].1@,
                    ),
            decreases n - i,
        {
            match token.get_claim(test_claims[i].0.as_str()) {
                Some(value) => {
                    if !str_eq(value.as_str(), test_claims[i].1.as_str()) {
                        return false;
                    }
                },
                None => {
                    return false;
                },
            }
            i += 1;
        }
        true
    }

    /// Whether this state is `Authorised`.
    pub fn is_authorised(&self) -> (r: bool)
        ensures
            r == (self matches AuthState::Authorised(_)),
    {
        match self {
            AuthState::Authorised(_) => true,
            AuthState::InvalidToken => false,
            AuthState::NoToken => false,
        }
    }
}

} // verus!
