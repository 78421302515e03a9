use loadboard::api::auth::models::AuthUser;
use loadboard::headers::RequestHeaders;
use loadboard::middleware::auth::{
    authenticate, bearer_token_segment, jwt_payload, payload_result, split_bytes, AuthError,
    JWTClaims,
};

fn with_authorization(value: &[u8]) -> RequestHeaders {
    RequestHeaders { host: None, forwarded_proto: None, authorization: Some(value.to_vec()) }
}

const PAYLOAD_B64: &str = "eyJ1c2VyX2lkIjo0MiwidXNlcm5hbWUiOiJhbmEiLCJjb21wYW55X2lkIjo3fQ";
const PAYLOAD: &str = r#"{"user_id":42,"username":"ana","company_id":7}"#;

#[test]
fn split_keeps_empty_pieces() {
    assert_eq!(split_bytes(b"a..b", b'.'), vec![b"a".to_vec(), vec![], b"b".to_vec()]);
    assert_eq!(split_bytes(b"", b'.'), vec![Vec::<u8>::new()]);
    assert_eq!(split_bytes(b".", b'.'), vec![Vec::<u8>::new(), vec![]]);
    assert_eq!(split_bytes(b"abc", b'.'), vec![b"abc".to_vec()]);
}

#[test]
fn split_agrees_with_str_split() {
    for text in ["x.y.z", "..", "a.", ".a", "no-dots", ""] {
        let expected: Vec<Vec<u8>> = text.split('.').map(|p| p.as_bytes().to_vec()).collect();
        assert_eq!(split_bytes(text.as_bytes(), b'.'), expected);
    }
}

#[test]
fn payload_of_bearer_token() {
    let header = format!("Bearer head.{PAYLOAD_B64}.signature");
    let payload = jwt_payload(&with_authorization(header.as_bytes())).unwrap();
    assert_eq!(payload, PAYLOAD.as_bytes());
}

#[test]
fn segment_of_bearer_token() {
    let seg = bearer_token_segment(&with_authorization(b"Bearer a.bc.d")).unwrap();
    assert_eq!(seg, b"bc".to_vec());
}

#[test]
fn repeated_bearer_prefix_is_trimmed() {
    let header = format!("Bearer Bearer Bearer h.{PAYLOAD_B64}.s");
    let payload = jwt_payload(&with_authorization(header.as_bytes())).unwrap();
    assert_eq!(payload, PAYLOAD.as_bytes());
}

#[test]
fn missing_header_is_refused() {
    assert_eq!(jwt_payload(&RequestHeaders::empty()), Err(AuthError::MissingHeader));
}

#[test]
fn non_text_header_is_refused() {
    assert_eq!(
        jwt_payload(&with_authorization("Bearer á.b.c".as_bytes())),
        Err(AuthError::NotText)
    );
}

#[test]
fn other_schemes_are_refused() {
    assert_eq!(jwt_payload(&with_authorization(b"Basic abc")), Err(AuthError::NotBearer));
    assert_eq!(jwt_payload(&with_authorization(b"bearer a.b.c")), Err(AuthError::NotBearer));
    assert_eq!(jwt_payload(&with_authorization(b"Bearer")), Err(AuthError::NotBearer));
}

#[test]
fn tokens_need_three_segments() {
    assert_eq!(jwt_payload(&with_authorization(b"Bearer a.b")), Err(AuthError::MalformedToken));
    assert_eq!(
        jwt_payload(&with_authorization(b"Bearer a.b.c.d")),
        Err(AuthError::MalformedToken)
    );
    assert_eq!(jwt_payload(&with_authorization(b"Bearer ")), Err(AuthError::MalformedToken));
}

#[test]
fn payload_must_be_unpadded_base64() {
    assert_eq!(
        jwt_payload(&with_authorization(b"Bearer a.aGk=.c")),
        Err(AuthError::InvalidPayloadEncoding)
    );
    assert_eq!(
        jwt_payload(&with_authorization(b"Bearer a.a*b.c")),
        Err(AuthError::InvalidPayloadEncoding)
    );
    assert_eq!(jwt_payload(&with_authorization(b"Bearer a.aGk.c")), Ok(b"hi".to_vec()));
    assert_eq!(jwt_payload(&with_authorization(b"Bearer a..c")), Ok(vec![]));
}

#[test]
fn claims_name_the_user() {
    let claims = JWTClaims { user_id: 42, username: "ana".to_string(), company_id: 7 };
    assert_eq!(authenticate(Some(claims)), Ok(AuthUser { id: 42 }));
    assert_eq!(authenticate(None), Err(AuthError::InvalidClaims));
}

#[test]
fn decoded_payload_or_encoding_error() {
    assert_eq!(payload_result(Some(vec![1, 2])), Ok(vec![1, 2]));
    assert_eq!(payload_result(None), Err(AuthError::InvalidPayloadEncoding));
}
