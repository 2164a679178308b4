use chat_core::auth::{
    extract_token, verify_token, AuthHeader, AuthRejection, RequestContext, TokenVerify, User,
};
use chat_core::chat::{parse_chat_id, verify_chat};
use chat_core::error::{AppError, ErrorOutput};
use chat_core::handlers::{
    check_file_access, check_file_present, file_content_type, upload_entry, AuthOutput,
};
use chat_core::request_id::{assign_request_id, set_request_id, RequestIdSource};
use chat_core::server_time::{server_time_value, ServerTimeLayer};

struct FixedVerifier;

impl TokenVerify for FixedVerifier {
    type Error = String;

    fn verify(&self, token: &str) -> Result<User, String> {
        if token == "good-token" {
            Ok(tester())
        } else {
            Err(format!("bad token {}", token))
        }
    }
}

fn tester() -> User {
    User {
        id: 1,
        ws_id: 1,
        fullname: "tester".to_string(),
        email: "tester@example.com".to_string(),
    }
}

fn authenticated() -> RequestContext {
    let mut ctx = RequestContext::new();
    ctx.principal = Some(tester());
    ctx
}

#[test]
fn header_token_authenticates() {
    let mut ctx = RequestContext::new();
    let r = verify_token(
        &FixedVerifier,
        AuthHeader::Bearer("good-token".to_string()),
        None,
        &mut ctx,
    );
    assert_eq!(r, Ok(()));
    assert_eq!(ctx.principal, Some(tester()));
}

#[test]
fn query_token_authenticates_without_header() {
    let mut ctx = RequestContext::new();
    let r = verify_token(
        &FixedVerifier,
        AuthHeader::Missing,
        Some("good-token".to_string()),
        &mut ctx,
    );
    assert_eq!(r, Ok(()));
    assert_eq!(ctx.principal, Some(tester()));
}

#[test]
fn no_credential_is_unauthenticated() {
    let mut ctx = RequestContext::new();
    let r = verify_token(&FixedVerifier, AuthHeader::Missing, None, &mut ctx);
    assert_eq!(r, Err(AuthRejection::Unauthenticated));
    assert_eq!(AuthRejection::Unauthenticated.status_code(), 401);
    assert_eq!(ctx.principal, None);
}

#[test]
fn bad_header_token_is_forbidden() {
    let mut ctx = RequestContext::new();
    let r = verify_token(
        &FixedVerifier,
        AuthHeader::Bearer("bad-token".to_string()),
        None,
        &mut ctx,
    );
    assert_eq!(r, Err(AuthRejection::Forbidden));
    assert_eq!(AuthRejection::Forbidden.status_code(), 403);
    assert_eq!(ctx.principal, None);
}

#[test]
fn bad_query_token_is_forbidden() {
    let mut ctx = RequestContext::new();
    let r = verify_token(
        &FixedVerifier,
        AuthHeader::Missing,
        Some("bad-token".to_string()),
        &mut ctx,
    );
    assert_eq!(r, Err(AuthRejection::Forbidden));
}

#[test]
fn malformed_header_does_not_fall_back_to_query() {
    let r = extract_token(AuthHeader::Invalid, Some("good-token".to_string()));
    assert_eq!(r, Err(AuthRejection::Malformed));
    assert_eq!(AuthRejection::Malformed.status_code(), 400);
    let r = extract_token(
        AuthHeader::Bearer("from-header".to_string()),
        Some("from-query".to_string()),
    );
    assert_eq!(r, Ok("from-header".to_string()));
}

#[test]
fn non_numeric_chat_id_is_bad_path_parameter() {
    let e = parse_chat_id("invalid_chat_id").unwrap_err();
    assert_eq!(
        e,
        AppError::ParseUrlPathError("chat_id should be a number".to_string())
    );
    assert_eq!(e.status_code(), 400);
    assert_eq!(
        e.message(),
        "parse url path param error: chat_id should be a number"
    );
    assert_eq!(parse_chat_id("5"), Ok(5));
}

#[test]
fn member_proceeds_non_member_is_refused() {
    let ctx = authenticated();
    assert_eq!(verify_chat(&ctx, 1, Ok(true)), Ok(()));
    let e = verify_chat(&ctx, 5, Ok(false)).unwrap_err();
    assert_eq!(
        e,
        AppError::CreateMessageError("User 1 are not a member of chat 5".to_string())
    );
    assert_eq!(e.status_code(), 400);
}

#[test]
fn failed_membership_lookup_counts_as_non_member() {
    let ctx = authenticated();
    let e = verify_chat(&ctx, 9, Err(AppError::SqlxError("pool timed out".to_string())))
        .unwrap_err();
    assert_eq!(
        e,
        AppError::CreateMessageError("User 1 are not a member of chat 9".to_string())
    );
}

#[test]
fn generated_request_ids_are_distinct() {
    let mut a = RequestContext::new();
    let mut b = RequestContext::new();
    let mut ids = RequestIdSource::new();
    let ga = set_request_id(&mut a, None, &mut ids).unwrap();
    let gb = set_request_id(&mut b, None, &mut ids).unwrap();
    assert_eq!(ga.len(), 36);
    assert_eq!(ga.as_bytes()[14], b'7');
    assert_eq!(ga.as_bytes()[8], b'-');
    assert_ne!(ga, gb);
    assert!(ga < gb);
    assert_eq!(a.request_id, Some(ga));
    assert_eq!(b.request_id, Some(gb));
}

#[test]
fn existing_request_id_is_kept() {
    let mut ctx = RequestContext::new();
    let mut ids = RequestIdSource::new();
    let g = set_request_id(&mut ctx, Some("abc".to_string()), &mut ids);
    assert_eq!(g, None);
    assert_eq!(ctx.request_id, Some("abc".to_string()));
}

#[test]
fn server_time_header_value() {
    assert_eq!(server_time_value(842), "842us");
    assert_eq!(server_time_value(0), "0us");
    let m = ServerTimeLayer.layer(5u8);
    assert_eq!(m.inner, 5);
}

#[test]
fn error_statuses_and_messages() {
    let cases = vec![
        (AppError::EmailAlreadyExists("a@b.c".to_string()), 409, "email already exists: a@b.c"),
        (AppError::CreateChatError("x".to_string()), 400, "create chat error: x"),
        (AppError::ChatFileError("x".to_string()), 400, "x"),
        (AppError::CreateMessageError("x".to_string()), 400, "create message error: x"),
        (AppError::JwtError("x".to_string()), 403, "jwt error: x"),
        (AppError::SqlxError("x".to_string()), 500, "sql error: x"),
        (AppError::IoError("x".to_string()), 500, "io error: x"),
        (AppError::WorkspaceAlreadyExists("acme".to_string()), 409, "workspace already exists: acme"),
        (AppError::PasswordHashError("x".to_string()), 422, "password hash error: x"),
        (AppError::UploadFileError("x".to_string()), 400, "upload file error: x"),
        (AppError::NotFound("x".to_string()), 404, "Not found: x"),
    ];
    for (e, status, msg) in cases {
        assert_eq!(e.status_code(), status);
        assert_eq!(e.message(), msg);
        let (s, out) = e.to_output();
        assert_eq!(s, status);
        assert_eq!(out.error, msg);
    }
    assert_eq!(ErrorOutput::new("Invalid email or password").error, "Invalid email or password");
}

#[test]
fn files_of_other_workspaces_are_not_found() {
    let ctx = authenticated();
    assert_eq!(check_file_access(&ctx, 1), Ok(()));
    let e = check_file_access(&ctx, 2).unwrap_err();
    assert_eq!(
        e,
        AppError::NotFound("File doesn't exist or you don't have permission".to_string())
    );
    assert_eq!(e.status_code(), 404);
}

#[test]
fn auth_output_holds_token() {
    let o = AuthOutput::new("tok".to_string());
    assert_eq!(o.token(), "tok");
}

#[test]
fn upload_fields_without_name_or_bytes_are_skipped() {
    let f = upload_entry(1, Some("test.txt"), Some(b"hello world")).unwrap();
    assert_eq!(f.hash, "2aae6c35c94fcfb415dbe95f408b9ce91ee846ed");
    assert_eq!(f.ext, "txt");
    assert!(upload_entry(1, None, Some(b"hello world")).is_none());
    assert!(upload_entry(1, Some("test.txt"), None).is_none());
}

#[test]
fn assigned_request_id_is_the_fresh_one_only_when_missing() {
    let mut ctx = RequestContext::new();
    let g = assign_request_id(&mut ctx, None, "fresh-id".to_string());
    assert_eq!(g, Some("fresh-id".to_string()));
    assert_eq!(ctx.request_id, Some("fresh-id".to_string()));
    let mut ctx = RequestContext::new();
    let g = assign_request_id(&mut ctx, Some("given".to_string()), "fresh-id".to_string());
    assert_eq!(g, None);
    assert_eq!(ctx.request_id, Some("given".to_string()));
}

#[test]
fn content_type_follows_the_extension() {
    assert_eq!(file_content_type("/tmp/chat/1/2aa/e6c/35c9.png"), "image/png");
    assert_eq!(file_content_type("/tmp/chat/1/2aa/e6c/35c9.txt"), "text/plain");
    assert_eq!(file_content_type("/tmp/chat/1/2aa/e6c/35c9"), "application/octet-stream");
}

#[test]
fn missing_file_is_not_found() {
    assert_eq!(check_file_present(true), Ok(()));
    let e = check_file_present(false).unwrap_err();
    assert_eq!(e, AppError::NotFound("File doesn't exist".to_string()));
    assert_eq!(e.status_code(), 404);
}

#[test]
fn parse_through_from_str_matches_parse() {
    let f: chat_core::file::ChatFile = "/files/1/2aa/e6c/35c94fcfb415dbe95f408b9ce91ee846ed.txt"
        .parse()
        .unwrap();
    assert_eq!(f.ws_id, 1);
    assert_eq!(f.hash, "2aae6c35c94fcfb415dbe95f408b9ce91ee846ed");
    assert_eq!(f.ext, "txt");
    let e = "/files/1/2aa/e6c".parse::<chat_core::file::ChatFile>().unwrap_err();
    assert_eq!(e, AppError::ChatFileError("File path 1/2aa/e6c does not valid".to_string()));
    let e = "/files/abc/2aa/e6c/35c.txt".parse::<chat_core::file::ChatFile>().unwrap_err();
    assert_eq!(e, AppError::ChatFileError("Invalid workspace id: abc".to_string()));
}
