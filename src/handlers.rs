//! Decisions of the request handlers that stand apart from their I/O.
use vstd::prelude::*;
use vstd::string::*;

use crate::auth::RequestContext;
use crate::error::AppError;
use std::path::Path;
use crate::file::{address_of, ChatFile};

verus! {

/// The body of a successful sign-in or sign-up: the issued token.
#[derive(Debug, Clone, PartialEq, Eq)]
pub struct AuthOutput {
    token: String,
}

impl AuthOutput {
    pub closed spec fn token_spec(&self) -> Seq<char> {
        self.token@
    }

    pub fn new(token: String) -> (r: Self)
        ensures
            r.token_spec() == token@,
    {
        AuthOutput { token }
    }

    pub fn token(&self) -> (r: &String)
        ensures
            r@ == self.token_spec(),
    {
        &self.token
    }
}

/// Files of a workspace are served only to principals of that workspace;
/// to anyone else they do not exist.
pub fn check_file_access(ctx: &RequestContext, ws_id: i64) -> (r: Result<(), AppError>)
    requires
        ctx.principal is Some,
    ensures
        ctx.principal->Some_0.ws_id == ws_id ==> r is Ok,
        ctx.principal->Some_0.ws_id != ws_id ==> (r matches Err(AppError::NotFound(m)) && m@
            == "File doesn't exist or you don't have permission"@),
{
    let same = match &ctx.principal {
        Some(u) => u.ws_id == ws_id,
        None => false,
    };
    if same {
        Ok(())
    } else {
        Err(AppError::NotFound(String::from_str("File doesn't exist or you don't have permission")))
    }
}

/// The file that an uploaded form field is stored as: a field is stored
/// only where both its file name and its bytes could be read.
pub fn upload_entry(ws_id: u64, filename: Option<&str>, data: Option<&[u8]>) -> (r: Option<
    ChatFile,
>)
    ensures
        match (filename, data) {
            (Some(n), Some(d)) => r matches Some(f) && f.address() == address_of(ws_id, n@, d@)
                && f.hash@.len() == 40,
            _ => r is None,
        },
{
    match (filename, data) {
        (Some(n), Some(d)) => Some(ChatFile::new(ws_id, n, d)),
        _ => None,
    }
}

/// A requested file is served only where it is stored.
pub fn check_file_present(exists: bool) -> (r: Result<(), AppError>)
    ensures
        exists ==> r is Ok,
        !exists ==> (r matches Err(AppError::NotFound(m)) && m@ == "File doesn't exist"@),
{
    if exists {
        Ok(())
    } else {
        Err(AppError::NotFound(String::from_str("File doesn't exist")))
    }
}

/// The media type guessed from a file path's extension.
pub uninterp spec fn media_type_of(path: Seq<char>) -> Seq<char>;

/// Relies on `mime_guess::from_path(..).first_or_octet_stream()`: the first
/// media type known for the path's extension, `application/octet-stream`
/// where none is; the guess depends on the path alone.
#[verifier::external_body]
fn guess_media_type(path: &str) -> (r: String)
    ensures
        r@ == media_type_of(path@),
{
    mime_guess::from_path(Path::new(path)).first_or_octet_stream().to_string()
}

/// The `content-type` under which a stored file is served.
pub fn file_content_type(path: &str) -> (r: String)
    ensures
        r@ == media_type_of(path@),
{
    guess_media_type(path)
}

} // verus!
