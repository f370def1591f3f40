//! Authentication: one decision per request over the configured
//! policy.
//!
//! A bearer token is valid when the session store holds a value under the
//! configured key prefix followed by the token. The check itself never
//! talks to the store: `check` says which key is to be looked up, and
//! `conclude` turns the store's reply into the final answer.

use crate::config::BEARER_PREFIX_LEN;
use crate::headers::{first_value, HeaderSeq, Headers};
use crate::text::{chars_of, join, has_prefix, slice, str_eq};
use vstd::prelude::*;
use vstd::string::*;

verus! {

/// The replies with which a request is turned away.
#[derive(Debug, Clone, Copy, PartialEq, Eq, Structural)]
pub enum ErrorReply {
    /// The caller is not authorized.
    Unauthorized,
    /// No presigned link could be had for the tenant.
    MinioInvalid,
    /// The storage backend could not be reached with the presigned link.
    BadGateway,
}

/// The authentication policy.
#[derive(Debug)]
pub enum AuthType {
    /// Bearer tokens, looked up in the session store under this key prefix.
    Bearer(String),
    /// A named request header that must carry exactly this value.
    Basic(String, String),
    /// No authentication.
    Disabled,
}

/// What the check decides from the policy and the request headers.
#[derive(Debug)]
pub enum AuthDecision {
    /// The request may pass.
    Authorized,
    /// The request is turned away.
    Unauthorized,
    /// The request may pass if the session store holds this key.
    Lookup(String),
}

/// What the session store answered to a lookup.
#[derive(Debug, Clone, Copy, PartialEq, Eq, Structural)]
pub enum SessionReply {
    /// A value is stored under the key.
    Present,
    /// Nothing is stored under the key.
    Absent,
    /// The store could not be asked, or the lookup failed.
    Failed,
}

/// A status code and a body.
#[derive(Debug)]
pub struct Reply {
    pub status: u16,
    pub body: String,
}

/// The model of an `AuthDecision`.
pub enum Verdict {
    Authorized,
    Unauthorized,
    Lookup(Seq<char>),
}

impl View for AuthDecision {
    type V = Verdict;

    open spec fn view(&self) -> Verdict {
        match self {
            AuthDecision::Authorized => Verdict::Authorized,
            AuthDecision::Unauthorized => Verdict::Unauthorized,
            AuthDecision::Lookup(key) => Verdict::Lookup(key@),
        }
    }
}

/// The token of a header value `Bearer <token>`.
pub open spec fn token_of(value: Seq<char>) -> Option<Seq<char>> {
    if "Bearer "@.is_prefix_of(value) {
        Some(value.skip(BEARER_PREFIX_LEN as int))
    } else {
        None
    }
}

/// The bearer token that the headers carry, if any.
pub open spec fn bearer_token(headers: HeaderSeq) -> Option<Seq<char>> {
    match first_value(headers, "authorization"@) {
        Some(value) => token_of(value),
        None => None,
    }
}

/// The decision under the bearer policy with key prefix `prefix`.
pub open spec fn bearer_verdict(headers: HeaderSeq, prefix: Seq<char>) -> Verdict {
    match bearer_token(headers) {
        Some(token) => Verdict::Lookup(prefix + token),
        None => Verdict::Unauthorized,
    }
}

/// The decision under the basic policy: the header `name` must be present
/// with exactly the value `expected`.
pub open spec fn basic_verdict(headers: HeaderSeq, name: Seq<char>, expected: Seq<char>) -> bool {
    first_value(headers, name) == Some(expected)
}

/// The decision on a request.
pub open spec fn verdict(auth: Option<AuthType>, headers: HeaderSeq) -> Verdict {
    match auth {
        None => Verdict::Authorized,
        Some(AuthType::Disabled) => Verdict::Authorized,
        Some(AuthType::Bearer(prefix)) => bearer_verdict(headers, prefix@),
        Some(AuthType::Basic(name, expected)) => if basic_verdict(headers, name@, expected@) {
            Verdict::Authorized
        } else {
            Verdict::Unauthorized
        },
    }
}

/// Whether a request passes, given the decision and, for a lookup, the
/// session store's reply. Only a present value lets a lookup pass.
pub open spec fn passes(v: Verdict, reply: SessionReply) -> bool {
    match v {
        Verdict::Authorized => true,
        Verdict::Unauthorized => false,
        Verdict::Lookup(_) => reply == SessionReply::Present,
    }
}

/// The token behind the `"Bearer "` prefix of a header value.
pub fn trim_bearer_prefix(auth_header: &str) -> (r: Option<&str>)
    ensures
        match r {
            Some(token) => token_of(auth_header@) == Some(token@),
            None => token_of(auth_header@) is None,
        },
{
    proof {
        reveal_strlit("Bearer ");
    }
    let value = chars_of(auth_header);
    let scheme = chars_of("Bearer ");
    if has_prefix(&value, &scheme) {
        Some(auth_header.substring_char(BEARER_PREFIX_LEN, value.len()))
    } else {
        None
    }
}

/// The session-store key of a token.
pub fn session_key(prefix: &str, token: &str) -> (key: String)
    ensures
        key@ == prefix@ + token@,
{
    join(prefix, token)
}

/// The basic policy: the header `params_key` carries exactly
/// `params_value`.
pub fn auth_header_basic(headers: &Headers, params_key: &str, params_value: &str) -> (r: bool)
    ensures
        r == basic_verdict(headers@, params_key@, params_value@),
{
    match headers.get(params_key) {
        Some(value) => str_eq(value.as_str(), params_value),
        None => false,
    }
}

/// The bearer policy: turns the request away unless it carries a bearer
/// token, and else names the session key that decides.
pub fn auth_header_bearer(headers: &Headers, redis_key: &str) -> (r: AuthDecision)
    ensures
        r@ == bearer_verdict(headers@, redis_key@),
{
    let value = match headers.get("authorization") {
        Some(value) => value,
        None => {
            return AuthDecision::Unauthorized;
        },
    };
    match trim_bearer_prefix(value.as_str()) {
        Some(token) => AuthDecision::Lookup(session_key(redis_key, token)),
        None => AuthDecision::Unauthorized,
    }
}

/// One dispatch over the policy.
pub fn check(auth: &Option<AuthType>, headers: &Headers) -> (r: AuthDecision)
    ensures
        r@ == verdict(*auth, headers@),
{
    match auth {
        None => AuthDecision::Authorized,
        Some(AuthType::Disabled) => AuthDecision::Authorized,
        Some(AuthType::Bearer(redis_key)) => auth_header_bearer(headers, redis_key.as_str()),
        Some(AuthType::Basic(params_key, params_value)) => {
            if auth_header_basic(headers, params_key.as_str(), params_value.as_str()) {
                AuthDecision::Authorized
            } else {
                AuthDecision::Unauthorized
            }
        },
    }
}

/// The final answer once the session store has replied. Without a lookup
/// the reply plays no part.
pub fn conclude(decision: &AuthDecision, reply: SessionReply) -> (r: bool)
    ensures
        r == passes(decision@, reply),
{
    match decision {
        AuthDecision::Authorized => true,
        AuthDecision::Unauthorized => false,
        AuthDecision::Lookup(_) => match reply {
            SessionReply::Present => true,
            SessionReply::Absent => false,
            SessionReply::Failed => false,
        },
    }
}

/// The status code of an error reply.
pub open spec fn error_status(error_type: ErrorReply) -> u16 {
    match error_type {
        ErrorReply::Unauthorized => 401,
        ErrorReply::MinioInvalid => 500,
        ErrorReply::BadGateway => 502,
    }
}

/// The body of an error reply.
pub open spec fn error_body(error_type: ErrorReply) -> Seq<char> {
    match error_type {
        ErrorReply::Unauthorized => "{\"error\": \"Unauthorized\"}"@,
        ErrorReply::MinioInvalid => "{\"error\": \"Config error\"}"@,
        ErrorReply::BadGateway => "{\"error\": \"Bad gateway\"}"@,
    }
}

/// The status and the fixed body of an error reply.
pub fn error_reply(error_type: ErrorReply) -> (r: Reply)
    ensures
        r.status == error_status(error_type),
        r.body@ == error_body(error_type),
{
    match error_type {
        ErrorReply::Unauthorized => Reply {
            status: 401,
            body: "{\"error\": \"Unauthorized\"}".to_owned(),
        },
        ErrorReply::MinioInvalid => Reply {
            status: 500,
            body: "{\"error\": \"Config error\"}".to_owned(),
        },
        ErrorReply::BadGateway => Reply {
            status: 502,
            body: "{\"error\": \"Bad gateway\"}".to_owned(),
        },
    }
}

impl AuthType {
    /// The text that names the policy.
    pub open spec fn text(&self) -> Seq<char> {
        match self {
            AuthType::Bearer(_) => "Bearer"@,
            AuthType::Basic(name, value) => "Basic: "@ + name@ + ", "@ + value@,
            AuthType::Disabled => "None"@,
        }
    }

    /// The name of the policy, with the header name and value of a basic
    /// policy.
    pub fn to_string(&self) -> (r: String)
        ensures
            r@ == self.text(),
    {
        match self {
            AuthType::Bearer(_) => "Bearer".to_owned(),
            AuthType::Basic(name, value) => {
                let mut r = join("Basic: ", name.as_str());
                r.append(", ");
                r.append(value.as_str());
                r
            },
            AuthType::Disabled => "None".to_owned(),
        }
    }
}

/// Under a bearer policy a request passes exactly when it carries
/// `Bearer <token>` and the session store holds the prefix followed by the
/// token. A missing header, a value without the `"Bearer "` prefix, an
/// absent key and a failed lookup all turn the request away.
pub proof fn law_bearer(headers: HeaderSeq, prefix: String, reply: SessionReply)
    ensures
        passes(verdict(Some(AuthType::Bearer(prefix)), headers), reply) <==> (bearer_token(
            headers,
        ) is Some && reply == SessionReply::Present),
        bearer_token(headers) is Some ==> verdict(Some(AuthType::Bearer(prefix)), headers)
            == Verdict::Lookup(prefix@ + bearer_token(headers).unwrap()),
        first_value(headers, "authorization"@) is None ==> verdict(
            Some(AuthType::Bearer(prefix)),
            headers,
        ) == Verdict::Unauthorized,
{
}

/// A header value `Bearer <token>` carries exactly `<token>`.
pub proof fn law_bearer_token(token: Seq<char>)
    ensures
        token_of("Bearer "@ + token) == Some(token),
{
    reveal_strlit("Bearer ");
    let value = "Bearer "@ + token;
    assert(value.subrange(0, 7) =~= "Bearer "@);
    assert(value.skip(7) =~= token);
}

/// Under a basic policy a request passes exactly when the named header is
/// present and its value equals the configured one, whatever the session
/// store would say.
pub proof fn law_basic(headers: HeaderSeq, name: String, expected: String, reply: SessionReply)
    ensures
        passes(verdict(Some(AuthType::Basic(name, expected)), headers), reply) <==> first_value(
            headers,
            name@,
        ) == Some(expected@),
{
}

/// Without a policy, or with authentication switched off, every request
/// passes.
pub proof fn law_disabled(headers: HeaderSeq, reply: SessionReply)
    ensures
        passes(verdict(None, headers), reply),
        passes(verdict(Some(AuthType::Disabled), headers), reply),
{
}

} // verus!
