//! The service's error kinds, their status codes and their messages.
use vstd::prelude::*;
use vstd::string::*;

verus! {

/// An error of the service. Errors that come from a collaborator (token
/// signing, the database, the file system, password hashing) carry that
/// collaborator's message.
#[derive(Debug, Clone, PartialEq, Eq)]
pub enum AppError {
    EmailAlreadyExists(String),
    CreateChatError(String),
    ChatFileError(String),
    ParseUrlPathError(String),
    CreateMessageError(String),
    JwtError(String),
    SqlxError(String),
    IoError(String),
    WorkspaceAlreadyExists(String),
    PasswordHashError(String),
    UploadFileError(String),
    NotFound(String),
}

/// The body of an error response: `{"error": "<message>"}`.
#[derive(Debug, Clone, PartialEq, Eq)]
pub struct ErrorOutput {
    pub error: String,
}

impl ErrorOutput {
    pub fn new(error: &str) -> (r: Self)
        ensures
            r.error@ == error@,
    {
        ErrorOutput { error: String::from_str(error) }
    }
}

/// `prefix` followed by `detail`.
fn prefixed(prefix: &str, detail: &String) -> (r: String)
    ensures
        r@ == prefix@ + detail@,
{
    String::from_str(prefix).concat(detail.as_str())
}

impl AppError {
    /// The HTTP status class of the error.
    pub open spec fn status_spec(&self) -> u16 {
        match self {
            AppError::EmailAlreadyExists(_) => 409,
            AppError::CreateChatError(_) => 400,
            AppError::ChatFileError(_) => 400,
            AppError::ParseUrlPathError(_) => 400,
            AppError::CreateMessageError(_) => 400,
            AppError::UploadFileError(_) => 400,
            AppError::JwtError(_) => 403,
            AppError::SqlxError(_) => 500,
            AppError::IoError(_) => 500,
            AppError::NotFound(_) => 404,
            AppError::WorkspaceAlreadyExists(_) => 409,
            AppError::PasswordHashError(_) => 422,
        }
    }

    /// The human-readable message of the error.
    pub open spec fn message_spec(&self) -> Seq<char> {
        match self {
            AppError::EmailAlreadyExists(m) => "email already exists: "@ + m@,
            AppError::CreateChatError(m) => "create chat error: "@ + m@,
            AppError::ChatFileError(m) => m@,
            AppError::ParseUrlPathError(m) => "parse url path param error: "@ + m@,
            AppError::CreateMessageError(m) => "create message error: "@ + m@,
            AppError::JwtError(m) => "jwt error: "@ + m@,
            AppError::SqlxError(m) => "sql error: "@ + m@,
            AppError::IoError(m) => "io error: "@ + m@,
            AppError::WorkspaceAlreadyExists(m) => "workspace already exists: "@ + m@,
            AppError::PasswordHashError(m) => "password hash error: "@ + m@,
            AppError::UploadFileError(m) => "upload file error: "@ + m@,
            AppError::NotFound(m) => "Not found: "@ + m@,
        }
    }

    pub fn status_code(&self) -> (r: u16)
        ensures
            r == self.status_spec(),
    {
        match self {
            AppError::EmailAlreadyExists(_) => 409,
            AppError::CreateChatError(_) => 400,
            AppError::ChatFileError(_) => 400,
            AppError::ParseUrlPathError(_) => 400,
            AppError::CreateMessageError(_) => 400,
            AppError::UploadFileError(_) => 400,
            AppError::JwtError(_) => 403,
            AppError::SqlxError(_) => 500,
            AppError::IoError(_) => 500,
            AppError::NotFound(_) => 404,
            AppError::WorkspaceAlreadyExists(_) => 409,
            AppError::PasswordHashError(_) => 422,
        }
    }

    pub fn message(&self) -> (r: String)
        ensures
            r@ == self.message_spec(),
    {
        match self {
            AppError::EmailAlreadyExists(m) => prefixed("email already exists: ", m),
            AppError::CreateChatError(m) => prefixed("create chat error: ", m),
            AppError::ChatFileError(m) => m.clone(),
            AppError::ParseUrlPathError(m) => prefixed("parse url path param error: ", m),
            AppError::CreateMessageError(m) => prefixed("create message error: ", m),
            AppError::JwtError(m) => prefixed("jwt error: ", m),
            AppError::SqlxError(m) => prefixed("sql error: ", m),
            AppError::IoError(m) => prefixed("io error: ", m),
            AppError::WorkspaceAlreadyExists(m) => prefixed("workspace already exists: ", m),
            AppError::PasswordHashError(m) => prefixed("password hash error: ", m),
            AppError::UploadFileError(m) => prefixed("upload file error: ", m),
            AppError::NotFound(m) => prefixed("Not found: ", m),
        }
    }

    /// The error turned into a response: its status and the body that
    /// carries its message.
    pub fn to_output(&self) -> (r: (u16, ErrorOutput))
        ensures
            r.0 == self.status_spec(),
            r.1.error@ == self.message_spec(),
    {
        (self.status_code(), ErrorOutput { error: self.message() })
    }
}

} // verus!
