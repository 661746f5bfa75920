//! The authorization gateway's decisions.
//!
//! Every control-plane call carries a bearer token. The gateway
//! extracts it from the authorization header, has an external
//! validation endpoint judge it, and then decides from the endpoint's
//! answer whether the caller may proceed. The network call itself is
//! made by the surrounding process; both decisions around it live here.

use vstd::prelude::*;
use vstd::string::*;
use crate::strutil::{has_prefix, str_eq, trimmed, trim_spec};

verus! {

/// Why a control-plane call was refused authorization.
#[derive(Clone, Copy, PartialEq, Eq, Structural, Debug)]
pub enum AuthError {
    /// The token is missing, malformed, invalid or expired.
    Unauthenticated,
    /// The token is valid, but for a different service identity.
    Forbidden,
    /// The validation endpoint could not be consulted.
    UpstreamUnavailable,
}

impl AuthError {
    /// The HTTP status code this error is reported with.
    pub fn status_code(&self) -> (r: u16)
        ensures
            r == self.spec_status_code(),
    {
        match self {
            AuthError::Unauthenticated => 401,
            AuthError::Forbidden => 403,
            AuthError::UpstreamUnavailable => 502,
        }
    }

    pub open spec fn spec_status_code(&self) -> u16 {
        match self {
            AuthError::Unauthenticated => 401,
            AuthError::Forbidden => 403,
            AuthError::UpstreamUnavailable => 502,
        }
    }
}

/// The body sent to the validation endpoint.
pub struct TokenValidateReq {
    pub access_token: String,
}

/// The validation endpoint's answer: whether the token is valid, and
/// for which service it was issued.
pub struct TokenValidateResp {
    pub valid: bool,
    pub service: Option<String>,
}

/// What came back from the validation endpoint, as the surrounding
/// process observed it.
pub enum UpstreamOutcome {
    /// The request itself failed: the endpoint is unreachable.
    TransportError,
    /// The endpoint answered with the given non-success HTTP status.
    HttpFailure(u16),
    /// The endpoint answered success but the body was not decodable.
    InvalidBody,
    /// The endpoint answered success with a decoded body.
    Answer(TokenValidateResp),
}

/// The bearer token carried by an authorization header value, if any:
/// the value after a `Bearer ` or `bearer ` prefix, trimmed, when that
/// leaves something non-empty.
pub open spec fn bearer_token_of(h: Seq<char>) -> Option<Seq<char>> {
    if h.len() >= 7 && h.subrange(0, 7) == "Bearer "@ {
        nonempty_or_none(trim_spec(h.skip(7)))
    } else if h.len() >= 7 && h.subrange(0, 7) == "bearer "@ {
        nonempty_or_none(trim_spec(h.skip(7)))
    } else {
        None
    }
}

pub open spec fn nonempty_or_none(t: Seq<char>) -> Option<Seq<char>> {
    if t.len() > 0 {
        Some(t)
    } else {
        None
    }
}

/// Extracts the bearer token from the authorization header, or refuses
/// the request as unauthenticated: exactly the headers that carry a
/// non-empty bearer token pass.
pub fn parse_bearer_token(header: Option<&str>) -> (r: Result<String, AuthError>)
    ensures
        match header {
            Some(h) => match r {
                Ok(t) => bearer_token_of(h@) == Some(t@),
                Err(e) => bearer_token_of(h@) is None && e == AuthError::Unauthenticated,
            },
            None => r == Err::<String, AuthError>(AuthError::Unauthenticated),
        },
{
    proof {
        reveal_strlit("Bearer ");
        reveal_strlit("bearer ");
    }
    let h = match header {
        Some(h) => h,
        None => {
            return Err(AuthError::Unauthenticated);
        },
    };
    let rest: &str = if has_prefix(h, "Bearer ") {
        h.substring_char(7, h.unicode_len())
    } else if has_prefix(h, "bearer ") {
        h.substring_char(7, h.unicode_len())
    } else {
        return Err(AuthError::Unauthenticated);
    };
    proof {
        assert(rest@ =~= h@.skip(7));
    }
    let token = trimmed(rest);
    if token.as_str().unicode_len() == 0 {
        return Err(AuthError::Unauthenticated);
    }
    Ok(token)
}

/// The gateway's verdict on what the validation endpoint answered,
/// given the service identity this instance requires.
pub open spec fn auth_decision(outcome: UpstreamOutcome, required_service: Seq<char>) -> Result<
    (),
    AuthError,
> {
    match outcome {
        UpstreamOutcome::TransportError => Err(AuthError::UpstreamUnavailable),
        UpstreamOutcome::HttpFailure(code) => if code >= 500 {
            Err(AuthError::UpstreamUnavailable)
        } else {
            Err(AuthError::Unauthenticated)
        },
        UpstreamOutcome::InvalidBody => Err(AuthError::UpstreamUnavailable),
        UpstreamOutcome::Answer(body) => {
            if !body.valid {
                Err(AuthError::Unauthenticated)
            } else {
                match body.service {
                    Some(s) => if s@ == required_service {
                        Ok(())
                    } else {
                        Err(AuthError::Forbidden)
                    },
                    None => Err(AuthError::Forbidden),
                }
            }
        },
    }
}

/// Decides `auth_decision`: a token is accepted only when the endpoint
/// reports it valid and issued for exactly the required service. An
/// endpoint that is unreachable, broken (a server-error status) or
/// incoherent is a gateway-class failure; everything else it refuses
/// is an authentication failure.
pub fn evaluate_validation(outcome: &UpstreamOutcome, required_service: &str) -> (r: Result<
    (),
    AuthError,
>)
    ensures
        r == auth_decision(*outcome, required_service@),
{
    match outcome {
        UpstreamOutcome::TransportError => Err(AuthError::UpstreamUnavailable),
        UpstreamOutcome::HttpFailure(code) => if *code >= 500 {
            Err(AuthError::UpstreamUnavailable)
        } else {
            Err(AuthError::Unauthenticated)
        },
        UpstreamOutcome::InvalidBody => Err(AuthError::UpstreamUnavailable),
        UpstreamOutcome::Answer(body) => {
            if !body.valid {
                Err(AuthError::Unauthenticated)
            } else {
                match &body.service {
                    Some(s) => if str_eq(s.as_str(), required_service) {
                        Ok(())
                    } else {
                        Err(AuthError::Forbidden)
                    },
                    None => Err(AuthError::Forbidden),
                }
            }
        },
    }
}

} // verus!
