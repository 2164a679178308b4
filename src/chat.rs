//! Chat authorization: the chat named in the request path must have the
//! request's principal among its members.
use vstd::prelude::*;
use vstd::string::*;

use crate::auth::RequestContext;
use crate::error::AppError;
use crate::text::{dec, parse_u64, parse_u64_spec, signed_dec, decimal_string, signed_decimal_string};

verus! {

/// Reads the chat id segment of a request path.
pub fn parse_chat_id(segment: &str) -> (r: Result<u64, AppError>)
    ensures
        match parse_u64_spec(segment@) {
            Some(v) => r == Ok::<u64, AppError>(v),
            None => r matches Err(AppError::ParseUrlPathError(m)) && m@
                == "chat_id should be a number"@,
        },
{
    match parse_u64(segment) {
        Some(v) => Ok(v),
        None => Err(AppError::ParseUrlPathError(String::from_str("chat_id should be a number"))),
    }
}

/// The message that refuses `user_id` access to `chat_id`.
pub open spec fn not_member_message(user_id: i64, chat_id: u64) -> Seq<char> {
    "User "@ + signed_dec(user_id as int) + " are not a member of chat "@ + dec(chat_id as nat)
}

/// Decides on a request for chat `chat_id`, given what the membership
/// lookup for the context's principal returned: only a lookup that
/// succeeded and found the principal a member lets the request on; a
/// failed lookup counts as no membership.
pub fn verify_chat(ctx: &RequestContext, chat_id: u64, is_member: Result<bool, AppError>) -> (r:
    Result<(), AppError>)
    requires
        ctx.principal is Some,
    ensures
        is_member == Ok::<bool, AppError>(true) ==> r is Ok,
        is_member != Ok::<bool, AppError>(true) ==> (r matches Err(AppError::CreateMessageError(m))
            && m@ == not_member_message(ctx.principal->Some_0.id, chat_id)),
{
    let user = match &ctx.principal {
        Some(u) => u,
        None => {
            return Err(AppError::CreateMessageError(String::from_str("no authenticated user")));
        },
    };
    let member = match is_member {
        Ok(b) => b,
        Err(_) => false,
    };
    if member {
        return Ok(());
    }
    let msg = String::from_str("User ").concat(signed_decimal_string(user.id).as_str()).concat(
        " are not a member of chat ",
    ).concat(decimal_string(chat_id as u128).as_str());
    proof {
        assert(msg@ =~= not_member_message(user.id, chat_id));
    }
    Err(AppError::CreateMessageError(msg))
}

} // verus!
