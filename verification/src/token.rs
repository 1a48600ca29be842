//! The bearer token: its request-guard decision, its generated shape, and
//! the wrapper around the random generator.

use crate::model::token_wf;
use rand::Rng;
use vstd::prelude::*;

verus! {

/// The bearer credential as presented by a caller: the raw header value,
/// with no format validation.
pub struct Token {
    pub token: String,
}

/// Why a request is rejected before reaching a handler: the `token` header
/// is absent.
#[derive(Debug, PartialEq, Eq, Structural)]
pub enum ApiTokenError {
    Missing,
}

impl Token {
    /// The request-guard decision: a present `token` header value yields a
    /// token wrapping that raw string; an absent header is rejected as
    /// unauthorized, and nothing of the request reaches a handler.
    pub fn from_request(header: Option<String>) -> (r: Result<Token, ApiTokenError>)
        ensures
            header matches Some(v) ==> (r matches Ok(t) && t.token == v),
            header is None ==> (r matches Err(e) && e is Missing),
    {
        match header {
            Some(value) => Ok(Token { token: value }),
            None => Err(ApiTokenError::Missing),
        }
    }
}

impl Default for Token {
    /// The token a failed login yields: the empty string.
    fn default() -> (t: Token)
        ensures
            t.token@.len() == 0,
    {
        Token { token: String::new() }
    }
}

/// Relies on rand's `thread_rng` sampled through the `Alphanumeric`
/// distribution: every sampled byte is one of the 62 ASCII letters and
/// digits, so thirty samples mapped through `char::from` collect into a
/// 30-character alphanumeric string. Nothing more is assumed of the draw.
#[verifier::external_body]
pub(crate) fn get_hash() -> (r: String)
    ensures
        token_wf(r@),
{
    let rand_string: String = rand::thread_rng()
        .sample_iter(&rand::distributions::Alphanumeric)
        .take(30)
        .map(char::from)
        .collect();
    rand_string
}

} // verus!
