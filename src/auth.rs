//! Authentication: the bearer credential is taken from the `Authorization`
//! header, or from the `access_token` query parameter where that header is
//! absent, then checked by a token verifier; the principal it yields is
//! attached to the request's context.
use vstd::prelude::*;

verus! {

/// The authenticated identity of a request.
#[derive(Debug, Clone, PartialEq, Eq)]
pub struct User {
    pub id: i64,
    pub ws_id: i64,
    pub fullname: String,
    pub email: String,
}

/// What one request carries through the pipeline.
#[derive(Debug, Clone, PartialEq, Eq)]
pub struct RequestContext {
    pub principal: Option<User>,
    pub request_id: Option<String>,
}

impl RequestContext {
    pub fn new() -> (r: Self)
        ensures
            r.principal is None,
            r.request_id is None,
    {
        RequestContext { principal: None, request_id: None }
    }
}

/// Checks a bearer credential and yields the principal it stands for.
pub trait TokenVerify {
    type Error: std::fmt::Debug;

    fn verify(&self, token: &str) -> Result<User, Self::Error>;
}

/// What the `Authorization` header of a request holds.
#[derive(Debug, Clone, PartialEq, Eq)]
pub enum AuthHeader {
    /// No `Authorization` header.
    Missing,
    /// A header that is not a well-formed `Bearer` credential.
    Invalid,
    /// `Authorization: Bearer <token>`.
    Bearer(String),
}

/// Why a request was refused before it reached its handler.
#[derive(Debug, Clone, Copy, PartialEq, Eq)]
pub enum AuthRejection {
    /// The `Authorization` header is malformed.
    Malformed,
    /// Neither the header nor the query parameter holds a credential.
    Unauthenticated,
    /// The credential did not verify.
    Forbidden,
}

impl AuthRejection {
    pub open spec fn status_spec(self) -> u16 {
        match self {
            AuthRejection::Malformed => 400,
            AuthRejection::Unauthenticated => 401,
            AuthRejection::Forbidden => 403,
        }
    }

    pub fn status_code(self) -> (r: u16)
        ensures
            r == self.status_spec(),
    {
        match self {
            AuthRejection::Malformed => 400,
            AuthRejection::Unauthenticated => 401,
            AuthRejection::Forbidden => 403,
        }
    }
}

/// The credential of a request: the header's, else (only where the header
/// is missing) the query parameter's.
pub open spec fn credential_spec(header: AuthHeader, query_token: Option<String>) -> Result<
    String,
    AuthRejection,
> {
    match header {
        AuthHeader::Bearer(t) => Ok(t),
        AuthHeader::Invalid => Err(AuthRejection::Malformed),
        AuthHeader::Missing => match query_token {
            Some(t) => Ok(t),
            None => Err(AuthRejection::Unauthenticated),
        },
    }
}

pub fn extract_token(header: AuthHeader, query_token: Option<String>) -> (r: Result<
    String,
    AuthRejection,
>)
    ensures
        r == credential_spec(header, query_token),
{
    match header {
        AuthHeader::Bearer(t) => Ok(t),
        AuthHeader::Invalid => Err(AuthRejection::Malformed),
        AuthHeader::Missing => match query_token {
            Some(t) => Ok(t),
            None => Err(AuthRejection::Unauthenticated),
        },
    }
}

/// Records the outcome of verifying a credential: a principal is attached
/// to the context, a failure forbids the request and leaves the context
/// as it was.
pub fn attach_principal<E>(ctx: &mut RequestContext, verified: Result<User, E>) -> (r: Result<
    (),
    AuthRejection,
>)
    ensures
        match verified {
            Ok(u) => r is Ok && final(ctx).principal == Some(u) && final(ctx).request_id == old(
                ctx,
            ).request_id,
            Err(_) => r == Err::<(), AuthRejection>(AuthRejection::Forbidden) && *final(ctx)
                == *old(ctx),
        },
{
    match verified {
        Ok(u) => {
            ctx.principal = Some(u);
            Ok(())
        },
        Err(_) => Err(AuthRejection::Forbidden),
    }
}

/// Authenticates a request: takes its credential, has `state` verify it and
/// attaches the principal. A request without a usable credential is
/// refused with the extraction's rejection and the verifier is not asked.
pub fn verify_token<T: TokenVerify>(
    state: &T,
    header: AuthHeader,
    query_token: Option<String>,
    ctx: &mut RequestContext,
) -> (r: Result<(), AuthRejection>)
    ensures
        match credential_spec(header, query_token) {
            Err(e) => r == Err::<(), AuthRejection>(e) && *final(ctx) == *old(ctx),
            Ok(_) => match r {
                Ok(_) => final(ctx).principal is Some && final(ctx).request_id == old(
                    ctx,
                ).request_id,
                Err(e) => e == AuthRejection::Forbidden && *final(ctx) == *old(ctx),
            },
        },
{
    let token = match extract_token(header, query_token) {
        Ok(t) => t,
        Err(e) => {
            return Err(e);
        },
    };
    let verified = state.verify(token.as_str());
    attach_principal(ctx, verified)
}

} // verus!
