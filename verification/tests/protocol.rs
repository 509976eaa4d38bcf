use patchify::auth::AuthType;
use patchify::config::Config;
use patchify::errors::Errors;
use patchify::request_handler::api::v1::{
    handle_need_auth, is_served, process_request, V1Request, REQUEST_AUTH, REQUEST_NEED_AUTH,
    REQUEST_NONE, REQUEST_VERSION,
};
use patchify::request_handler::api::{
    make_base_response, map_request, too_long_response, ApiError, ApiRoute, Status,
};
use patchify::wire::ResponseBuilder;

const TOO_LONG: [u8; 20] = [12, 0, 0, 0, 8, 0, 8, 0, 7, 0, 6, 0, 8, 0, 0, 0, 0, 0, 1, 0];

const NEED_AUTH_PASSWORD_TOKEN: [u8; 60] = [
    16, 0, 0, 0, 0, 0, 10, 0, 18, 0, 8, 0, 7, 0, 12, 0, 10, 0, 0, 0, 0, 0, 0, 4, 16, 0, 0, 0, 24, 0,
    0, 0, 0, 0, 6, 0, 6, 0, 5, 0, 6, 0, 0, 0, 0, 1, 6, 0, 8, 0, 7, 0, 6, 0, 0, 0, 0, 0, 0, 10,
];

const NEED_AUTH_NOTHING: [u8; 56] = [
    16, 0, 0, 0, 0, 0, 10, 0, 18, 0, 8, 0, 7, 0, 12, 0, 10, 0, 0, 0, 0, 0, 0, 4, 16, 0, 0, 0, 24, 0,
    0, 0, 0, 0, 6, 0, 8, 0, 7, 0, 6, 0, 0, 0, 0, 0, 0, 1, 4, 0, 4, 0, 4, 0, 0, 0,
];

fn config_with(types: Vec<AuthType>) -> Config {
    Config { bind_address: "127.0.0.1:1".to_string(), available_auth_types: types }
}

#[test]
fn version_one_is_routed() {
    assert!(matches!(map_request(&[4, 0, 0, 0, 1]), Ok(ApiRoute::V1)));
    assert!(matches!(map_request(&[5, 0, 0, 0, 9, 1, 7]), Ok(ApiRoute::V1)));
}

#[test]
fn other_versions_are_unsupported() {
    assert!(matches!(
        map_request(&[4, 0, 0, 0, 2]),
        Err(ApiError::Failed(Errors::Unsupported))
    ));
    // A root offset of zero points at the offset's own first byte.
    assert!(matches!(
        map_request(&[0, 0, 0, 0]),
        Err(ApiError::Failed(Errors::Unsupported))
    ));
}

#[test]
fn short_or_dangling_buffers_are_malformed() {
    assert!(matches!(map_request(&[]), Err(ApiError::Malformed(_))));
    assert!(matches!(map_request(&[1, 0, 0]), Err(ApiError::Malformed(_))));
    assert!(matches!(map_request(&[4, 0, 0, 0]), Err(ApiError::Malformed(_))));
    assert!(matches!(map_request(&[0, 1, 0, 0, 1]), Err(ApiError::Malformed(_))));
}

#[test]
fn too_long_response_bytes() {
    let mut builder = ResponseBuilder::new();
    assert_eq!(too_long_response(&mut builder), TOO_LONG.to_vec());
}

#[test]
fn base_response_offset_follows_written_bytes() {
    let mut builder = ResponseBuilder::new();
    assert_eq!(make_base_response(&mut builder, 0, Status::TooLong), 8);
    let mut builder = ResponseBuilder::new();
    assert_eq!(make_base_response(&mut builder, 1, Status::Success), 8);
}

#[test]
fn need_auth_offers_configured_kinds() {
    let c = config_with(vec![AuthType::password(), AuthType::token()]);
    assert_eq!(handle_need_auth(&c), NEED_AUTH_PASSWORD_TOKEN.to_vec());
    let c = config_with(vec![AuthType::token(), AuthType::password(), AuthType::token()]);
    assert_eq!(handle_need_auth(&c), NEED_AUTH_PASSWORD_TOKEN.to_vec());
}

#[test]
fn need_auth_without_kinds() {
    assert_eq!(handle_need_auth(&config_with(vec![])), NEED_AUTH_NOTHING.to_vec());
}

#[test]
fn need_auth_request_is_answered() {
    let c = config_with(vec![AuthType::password(), AuthType::token()]);
    let r = V1Request { request_type: REQUEST_NEED_AUTH, has_body: true };
    assert!(is_served(&r));
    match process_request(&c, &r) {
        Ok(data) => assert_eq!(data, NEED_AUTH_PASSWORD_TOKEN.to_vec()),
        Err(_) => panic!("need-auth request refused"),
    }
}

#[test]
fn unknown_requests_are_invalid() {
    let c = config_with(vec![]);
    for t in [REQUEST_NONE, 8, 200, 255] {
        let r = V1Request { request_type: t, has_body: false };
        assert!(is_served(&r));
        assert!(matches!(
            process_request(&c, &r),
            Err(ApiError::Failed(Errors::InvalidRequest))
        ));
    }
}

#[test]
fn requests_without_handler_are_not_served() {
    for t in REQUEST_AUTH..=REQUEST_VERSION {
        if t != REQUEST_NEED_AUTH {
            assert!(!is_served(&V1Request { request_type: t, has_body: true }));
        }
    }
    assert!(!is_served(&V1Request { request_type: REQUEST_NEED_AUTH, has_body: false }));
}

#[test]
fn base_responses_beyond_a_few_hundred_tables() {
    let mut builder = ResponseBuilder::new();
    let mut last = 0;
    for i in 0..1000u32 {
        let off = make_base_response(&mut builder, (i % 256) as u8, Status::TooLong);
        assert!(off > last);
        last = off;
    }
}

#[test]
fn base_response_after_a_finished_buffer() {
    let mut builder = ResponseBuilder::new();
    assert_eq!(too_long_response(&mut builder), TOO_LONG.to_vec());
    assert!(make_base_response(&mut builder, 1, Status::Success) > 20);
}
