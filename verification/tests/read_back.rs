use flatbuffers::{Verifier, VerifierOptions};
use patchify::auth::AuthType;
use patchify::config::Config;
use patchify::request_handler::api::v1::handle_need_auth;
use patchify::request_handler::api::too_long_response;
use patchify::wire::ResponseBuilder;

/// The table that the uoffset at `pos` points to.
fn table_at(v: &mut Verifier, pos: usize) -> usize {
    pos + v.get_uoffset(pos).unwrap() as usize
}

/// The byte field `slot` of the table at `table`, if it is present.
fn byte_field(v: &mut Verifier, table: usize, slot: u16) -> Option<u8> {
    let mut t = v.visit_table(table).unwrap();
    let pos = t.deref(slot).unwrap();
    let value = pos.map(|p| t.verifier().get_u8(p).unwrap());
    t.finish();
    value
}

/// The position of the table that the offset field `slot` of `table` points to.
fn offset_field(v: &mut Verifier, table: usize, slot: u16) -> Option<usize> {
    let mut t = v.visit_table(table).unwrap();
    let pos = t.deref(slot).unwrap();
    t.finish();
    pos.map(|p| table_at(v, p))
}

#[test]
fn too_long_reads_back() {
    let mut builder = ResponseBuilder::new();
    let data = too_long_response(&mut builder);
    let opts = VerifierOptions::default();
    let mut v = Verifier::new(&opts, &data);
    let root = table_at(&mut v, 0);
    assert_eq!(byte_field(&mut v, root, 4), Some(0));
    assert_eq!(byte_field(&mut v, root, 6), Some(1));
}

#[test]
fn need_auth_reads_back() {
    let config = Config {
        bind_address: "127.0.0.1:1".to_string(),
        available_auth_types: vec![AuthType::password(), AuthType::token()],
    };
    let data = handle_need_auth(&config);
    let opts = VerifierOptions::default();
    let mut v = Verifier::new(&opts, &data);
    let root = table_at(&mut v, 0);
    assert_eq!(byte_field(&mut v, root, 6), Some(4));
    let base = offset_field(&mut v, root, 4).unwrap();
    assert_eq!(byte_field(&mut v, base, 4), Some(1));
    assert_eq!(byte_field(&mut v, base, 6), None);
    let body = offset_field(&mut v, root, 8).unwrap();
    assert_eq!(byte_field(&mut v, body, 4), Some(10));
}
