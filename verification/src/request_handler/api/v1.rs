//! Version 1 of the API: dispatch on the kind of request, and the
//! responses this version writes.

use vstd::prelude::*;
use crate::auth::{
    condensed_bits, law_condense_contains, law_condense_members, law_condense_order_free,
    law_condense_repeat, AuthType,
};
use crate::config::Config;
use crate::errors::Errors;
use crate::request_handler::api::{
    base_response_steps, finish_steps, lemma_base_fields, lemma_base_response, make_base_response,
    ApiError, Status, RESPONSE_BASE_COMMON, RESPONSE_BASE_STATUS,
};
use crate::wire::{
    end_table_offset, finished_bytes, fits_in_buffer, fits_in_table, in_table, is_finished,
    is_table_offset, lemma_end_closes, lemma_push, lemma_push_keeps_table, lemma_start_opens,
    open_slots_valid, open_table_start, start_table_offset, vtable_bound, written_bound,
    BuildStep, ResponseBuilder, ends_table_at, finished_root, lemma_table_in_prefix,
    open_byte_field, open_offset_field, reads_byte, reads_offset, table_byte, table_offset_field,
};

verus! {

pub const API_VERSION: u8 = 1;

/// The kinds of request, as the request union tags them.
pub const REQUEST_NONE: u8 = 0;
pub const REQUEST_AUTH: u8 = 1;
pub const REQUEST_FETCH: u8 = 2;
pub const REQUEST_FETCH_ALL: u8 = 3;
pub const REQUEST_NEED_AUTH: u8 = 4;
pub const REQUEST_PULL: u8 = 5;
pub const REQUEST_STATUS: u8 = 6;
pub const REQUEST_VERSION: u8 = 7;

/// The kinds of response, as the response union tags them.
pub const RESPONSE_NONE: u8 = 0;
pub const RESPONSE_NEED_AUTH: u8 = 4;

/// Field slot of the offered kinds in a need-auth response.
pub const NEED_AUTH_RESPONSE_AUTH_TYPE: u16 = 4;

/// Field slots of a root response: its base, the tag of its body, its body.
pub const ROOT_RESPONSE_BASE: u16 = 4;
pub const ROOT_RESPONSE_TYPE: u16 = 6;
pub const ROOT_RESPONSE_BODY: u16 = 8;

/// What the server reads of a version 1 request: the tag of the request
/// union, and whether the request body is there.
#[derive(Clone, Copy, Debug, PartialEq, Eq, Structural)]
pub struct V1Request {
    pub request_type: u8,
    pub has_body: bool,
}

/// The tag names a kind of request that has a handler.
pub open spec fn has_handler(request_type: u8) -> bool {
    REQUEST_AUTH <= request_type <= REQUEST_VERSION
}

/// The request is one that the server answers or refuses. The other
/// requests name a kind whose handler is not written, or lack their body.
pub open spec fn spec_is_served(request: V1Request) -> bool {
    !has_handler(request.request_type) || (request.request_type == REQUEST_NEED_AUTH
        && request.has_body)
}

/// The calls that open a need-auth response body after `prior` and write
/// the kinds it offers, `auth_bits` (left out when no kind is offered).
pub open spec fn need_auth_fields_steps(prior: Seq<BuildStep>, auth_bits: u8) -> Seq<BuildStep> {
    let opened = prior.push(BuildStep::StartTable);
    if auth_bits != 0 {
        opened.push(BuildStep::PushByte { slot: NEED_AUTH_RESPONSE_AUTH_TYPE, value: auth_bits })
    } else {
        opened
    }
}

/// The calls that write a need-auth response body offering `auth_bits`.
pub open spec fn need_auth_body_steps(prior: Seq<BuildStep>, auth_bits: u8) -> Seq<BuildStep> {
    need_auth_fields_steps(prior, auth_bits).push(
        BuildStep::EndTable { start: start_table_offset(prior) },
    )
}

/// The calls that open a root response after `prior` and write the offsets
/// of its body and of its base (the four-byte fields, latest declared first).
pub open spec fn root_offsets_steps(prior: Seq<BuildStep>, base: u32, body: u32) -> Seq<BuildStep> {
    prior.push(BuildStep::StartTable).push(
        BuildStep::PushOffset { slot: ROOT_RESPONSE_BODY, target: body },
    ).push(BuildStep::PushOffset { slot: ROOT_RESPONSE_BASE, target: base })
}

/// The calls that write all fields of a root response: the offsets, then
/// the tag of the body (left out when it is `NONE`).
pub open spec fn root_fields_steps(
    prior: Seq<BuildStep>,
    base: u32,
    response_type: u8,
    body: u32,
) -> Seq<BuildStep> {
    if response_type != 0 {
        root_offsets_steps(prior, base, body).push(
            BuildStep::PushByte { slot: ROOT_RESPONSE_TYPE, value: response_type },
        )
    } else {
        root_offsets_steps(prior, base, body)
    }
}

/// The calls that write a root response.
pub open spec fn root_response_steps(
    prior: Seq<BuildStep>,
    base: u32,
    response_type: u8,
    body: u32,
) -> Seq<BuildStep> {
    root_fields_steps(prior, base, response_type, body).push(
        BuildStep::EndTable { start: start_table_offset(prior) },
    )
}

/// The calls that write the answer to a need-auth request when the server
/// offers the kinds `auth_bits`.
pub open spec fn need_auth_steps(auth_bits: u8) -> Seq<BuildStep> {
    let body_steps = need_auth_body_steps(Seq::empty(), auth_bits);
    let base_steps = base_response_steps(body_steps, API_VERSION, Status::Success);
    finish_steps(
        root_response_steps(
            base_steps,
            end_table_offset(base_steps),
            RESPONSE_NEED_AUTH,
            end_table_offset(body_steps),
        ),
    )
}

/// The bytes that answer a need-auth request when the server offers `auth_bits`.
pub open spec fn need_auth_response_bytes(auth_bits: u8) -> Seq<u8> {
    finished_bytes(need_auth_steps(auth_bits))
}

/// The answer to a need-auth request does not depend on the order in which
/// the configuration lists the kinds.
pub proof fn law_need_auth_order_free(a: Seq<AuthType>, b: Seq<AuthType>)
    ensures
        need_auth_response_bytes(condensed_bits(a + b)) == need_auth_response_bytes(
            condensed_bits(b + a),
        ),
{
    law_condense_order_free(a, b);
}

/// The answer to a need-auth request does not change when the
/// configuration lists its kinds twice.
pub proof fn law_need_auth_repeat_free(a: Seq<AuthType>)
    ensures
        need_auth_response_bytes(condensed_bits(a + a)) == need_auth_response_bytes(
            condensed_bits(a),
        ),
{
    law_condense_repeat(a);
}

/// The open need-auth body, read where its fields stop, offers `auth_bits`
/// (absent, and so read as the default 0, when no kind is offered).
proof fn lemma_need_auth_fields(prior: Seq<BuildStep>, auth_bits: u8)
    ensures
        match open_byte_field(need_auth_fields_steps(prior, auth_bits), NEED_AUTH_RESPONSE_AUTH_TYPE) {
            Some(v) => v,
            None => 0u8,
        } == auth_bits,
{
    let opened = prior.push(BuildStep::StartTable);
    assert(open_byte_field(opened, NEED_AUTH_RESPONSE_AUTH_TYPE) is None);
    if auth_bits != 0 {
        let fields = need_auth_fields_steps(prior, auth_bits);
        assert(fields.drop_last() =~= opened);
        assert(fields.last() == BuildStep::PushByte {
            slot: NEED_AUTH_RESPONSE_AUTH_TYPE,
            value: auth_bits,
        });
    }
}

/// The open root response, read where its fields stop, points at `base`
/// and `body` and is tagged `response_type`.
proof fn lemma_root_fields(prior: Seq<BuildStep>, base: u32, response_type: u8, body: u32)
    ensures
        open_offset_field(root_fields_steps(prior, base, response_type, body), ROOT_RESPONSE_BASE)
            == Some(base),
        open_offset_field(root_fields_steps(prior, base, response_type, body), ROOT_RESPONSE_BODY)
            == Some(body),
        match open_byte_field(
            root_fields_steps(prior, base, response_type, body),
            ROOT_RESPONSE_TYPE,
        ) {
            Some(v) => v,
            None => 0u8,
        } == response_type,
{
    let opened = prior.push(BuildStep::StartTable);
    let with_body = opened.push(BuildStep::PushOffset { slot: ROOT_RESPONSE_BODY, target: body });
    let offsets = root_offsets_steps(prior, base, body);
    assert(with_body.drop_last() =~= opened);
    assert(offsets.drop_last() =~= with_body);
    assert(open_byte_field(opened, ROOT_RESPONSE_TYPE) is None);
    assert(open_byte_field(with_body, ROOT_RESPONSE_TYPE) is None);
    assert(open_byte_field(offsets, ROOT_RESPONSE_TYPE) is None);
    assert(open_offset_field(with_body, ROOT_RESPONSE_BODY) == Some(body));
    assert(open_offset_field(offsets, ROOT_RESPONSE_BODY) == Some(body));
    assert(open_offset_field(offsets, ROOT_RESPONSE_BASE) == Some(base));
    if response_type != 0 {
        let fields = root_fields_steps(prior, base, response_type, body);
        assert(fields.drop_last() =~= offsets);
        assert(open_offset_field(fields, ROOT_RESPONSE_BODY) == Some(body));
        assert(open_offset_field(fields, ROOT_RESPONSE_BASE) == Some(base));
    }
}

/// A need-auth body offers exactly the kinds it is given, for every set of
/// kinds: the table at the offset it ends with reads `auth_bits` in its
/// auth-type field.
pub proof fn law_need_auth_body_reads_back(prior: Seq<BuildStep>, auth_bits: u8)
    ensures
        ({
            let s = need_auth_body_steps(prior, auth_bits);
            reads_byte(s, end_table_offset(s), NEED_AUTH_RESPONSE_AUTH_TYPE, auth_bits)
        }),
{
    let s = need_auth_body_steps(prior, auth_bits);
    assert(s.take(s.len() as int) =~= s);
    lemma_table_in_prefix(s, s);
    assert(s.drop_last() =~= need_auth_fields_steps(prior, auth_bits));
    lemma_need_auth_fields(prior, auth_bits);
    assert(table_byte(s, s.len() - 1, NEED_AUTH_RESPONSE_AUTH_TYPE) == auth_bits);
}

/// The answer to a need-auth request, for every list of configured kinds:
/// the finished root is tagged as a need-auth response; its base reads API
/// version 1 and status `Success`; and its body offers flags that hold the
/// bit of every configured kind and no bit that no configured kind has.
pub proof fn law_need_auth_offers_configured_kinds(types: Seq<AuthType>)
    ensures
        ({
            let s = need_auth_steps(condensed_bits(types));
            exists|root: u32, base: u32, body: u32, offered: u8|
                #![trigger reads_offset(s, root, ROOT_RESPONSE_BASE, base), reads_offset(s, root, ROOT_RESPONSE_BODY, body), reads_byte(s, body, NEED_AUTH_RESPONSE_AUTH_TYPE, offered)]
                {
                    &&& finished_root(s) == Some(root)
                    &&& reads_byte(s, root, ROOT_RESPONSE_TYPE, RESPONSE_NEED_AUTH)
                    &&& reads_offset(s, root, ROOT_RESPONSE_BASE, base)
                    &&& reads_byte(s, base, RESPONSE_BASE_COMMON, API_VERSION)
                    &&& reads_byte(s, base, RESPONSE_BASE_STATUS, 0)
                    &&& reads_offset(s, root, ROOT_RESPONSE_BODY, body)
                    &&& reads_byte(s, body, NEED_AUTH_RESPONSE_AUTH_TYPE, offered)
                    &&& forall|i: int|
                        0 <= i < types.len() ==> offered & (#[trigger] types[i]).bits
                            == types[i].bits
                    &&& forall|m: u8|
                        #[trigger] (offered & m) != 0 ==> exists|i: int|
                            0 <= i < types.len() && (#[trigger] types[i]).bits & m != 0
                }
        }),
{
    let b = condensed_bits(types);
    let body_steps = need_auth_body_steps(Seq::empty(), b);
    let body = end_table_offset(body_steps);
    let base_steps = base_response_steps(body_steps, API_VERSION, Status::Success);
    let base = end_table_offset(base_steps);
    let root_steps = root_response_steps(base_steps, base, RESPONSE_NEED_AUTH, body);
    let root = end_table_offset(root_steps);
    let s = need_auth_steps(b);
    assert(s == root_steps.push(BuildStep::Finish { root }));
    assert(finished_root(s) == Some(root));

    // Each table ends a prefix of the calls.
    assert(s.take(root_steps.len() as int) =~= root_steps);
    assert(root_steps.take(base_steps.len() as int) =~= base_steps);
    assert(base_steps.take(body_steps.len() as int) =~= body_steps);
    assert(s.take(base_steps.len() as int) =~= base_steps);
    assert(s.take(body_steps.len() as int) =~= body_steps);
    lemma_table_in_prefix(s, root_steps);
    lemma_table_in_prefix(s, base_steps);
    lemma_table_in_prefix(s, body_steps);

    // The root table.
    let r = root_steps.len() - 1;
    assert(root_steps.drop_last() =~= root_fields_steps(
        base_steps,
        base,
        RESPONSE_NEED_AUTH,
        body,
    ));
    lemma_root_fields(base_steps, base, RESPONSE_NEED_AUTH, body);
    assert(table_byte(s, r, ROOT_RESPONSE_TYPE) == RESPONSE_NEED_AUTH);
    assert(table_offset_field(s, r, ROOT_RESPONSE_BASE) == Some(base));
    assert(table_offset_field(s, r, ROOT_RESPONSE_BODY) == Some(body));
    assert(ends_table_at(s, r, root));
    assert(reads_byte(s, root, ROOT_RESPONSE_TYPE, RESPONSE_NEED_AUTH));
    assert(reads_offset(s, root, ROOT_RESPONSE_BASE, base));
    assert(reads_offset(s, root, ROOT_RESPONSE_BODY, body));

    // The base table.
    let k = base_steps.len() - 1;
    assert(base_steps.drop_last() =~= crate::request_handler::api::base_fields_steps(
        body_steps,
        API_VERSION,
        Status::Success,
    ));
    lemma_base_fields(body_steps, API_VERSION, Status::Success);
    assert(table_byte(s, k, RESPONSE_BASE_COMMON) == API_VERSION);
    assert(table_byte(s, k, RESPONSE_BASE_STATUS) == 0);
    assert(ends_table_at(s, k, base));
    assert(reads_byte(s, base, RESPONSE_BASE_COMMON, API_VERSION));
    assert(reads_byte(s, base, RESPONSE_BASE_STATUS, 0));

    // The body table.
    let j = body_steps.len() - 1;
    assert(body_steps.drop_last() =~= need_auth_fields_steps(Seq::empty(), b));
    lemma_need_auth_fields(Seq::empty(), b);
    assert(table_byte(s, j, NEED_AUTH_RESPONSE_AUTH_TYPE) == b);
    assert(ends_table_at(s, j, body));
    assert(reads_byte(s, body, NEED_AUTH_RESPONSE_AUTH_TYPE, b));

    // The offered flags are the union of the configured kinds.
    assert forall|i: int| 0 <= i < types.len() implies b & (#[trigger] types[i]).bits
        == types[i].bits by {
        law_condense_contains(types, i);
    }
    assert forall|m: u8| #[trigger] (b & m) != 0 implies exists|i: int|
        0 <= i < types.len() && (#[trigger] types[i]).bits & m != 0 by {
        law_condense_members(types, m);
    }
}

/// A request whose tag names no kind of request is refused as invalid,
/// whether it carries a body or not: the server serves it, and
/// `process_request` answers it with `InvalidRequest`.
pub proof fn law_unknown_kinds_refused(request_type: u8, has_body: bool)
    requires
        !has_handler(request_type),
    ensures
        spec_is_served(V1Request { request_type, has_body }),
{
}

/// A need-auth request is served exactly when it carries its body; every
/// other kind of request, which has no handler, is not served.
pub proof fn law_handled_kinds(request_type: u8, has_body: bool)
    requires
        has_handler(request_type),
    ensures
        spec_is_served(V1Request { request_type, has_body }) <==> (request_type
            == REQUEST_NEED_AUTH && has_body),
{
}

/// Whether the server answers or refuses `request` (see [`spec_is_served`]).
pub fn is_served(request: &V1Request) -> (r: bool)
    ensures
        r == spec_is_served(*request),
{
    !(REQUEST_AUTH <= request.request_type && request.request_type <= REQUEST_VERSION) || (
    request.request_type == REQUEST_NEED_AUTH && request.has_body)
}

/// What writing a need-auth response body after `prior` does, call by
/// call; the body writes at most 14 bytes.
proof fn lemma_need_auth_body(prior: Seq<BuildStep>, auth_bits: u8)
    requires
        !in_table(prior),
    ensures
        ({
            let opened = prior.push(BuildStep::StartTable);
            let fields = need_auth_fields_steps(prior, auth_bits);
            let body = need_auth_body_steps(prior, auth_bits);
            &&& in_table(opened) && open_table_start(opened) == start_table_offset(prior)
            &&& in_table(fields) && open_table_start(fields) == start_table_offset(prior)
            &&& open_slots_valid(fields) && fits_in_table(
                opened.push(
                    BuildStep::PushByte { slot: NEED_AUTH_RESPONSE_AUTH_TYPE, value: auth_bits },
                ),
            ) && fits_in_table(fields)
            &&& written_bound(prior) <= written_bound(opened) <= written_bound(fields)
                <= written_bound(body) <= written_bound(prior) + 14
            &&& written_bound(
                opened.push(
                    BuildStep::PushByte { slot: NEED_AUTH_RESPONSE_AUTH_TYPE, value: auth_bits },
                ),
            ) <= written_bound(prior) + 14
            &&& !in_table(body)
            &&& is_table_offset(body, end_table_offset(body))
            &&& is_finished(body) == is_finished(prior)
        }),
{
    let step = BuildStep::PushByte { slot: NEED_AUTH_RESPONSE_AUTH_TYPE, value: auth_bits };
    let opened = prior.push(BuildStep::StartTable);
    let fields = need_auth_fields_steps(prior, auth_bits);
    lemma_push(prior, BuildStep::StartTable);
    lemma_start_opens(prior);
    lemma_push(opened, step);
    lemma_push_keeps_table(opened, step);
    lemma_push(fields, BuildStep::EndTable { start: start_table_offset(prior) });
    lemma_end_closes(fields, start_table_offset(prior));
    assert(vtable_bound(fields) <= 6);
}

/// What writing a root response after `prior` does, call by call; the
/// root writes at most 32 bytes, and finishing after it at most 7 more.
proof fn lemma_root_response(prior: Seq<BuildStep>, base: u32, response_type: u8, body: u32)
    requires
        !in_table(prior),
        is_table_offset(prior, base),
        is_table_offset(prior, body),
    ensures
        ({
            let opened = prior.push(BuildStep::StartTable);
            let with_body = opened.push(
                BuildStep::PushOffset { slot: ROOT_RESPONSE_BODY, target: body },
            );
            let offsets = root_offsets_steps(prior, base, body);
            let type_step = BuildStep::PushByte { slot: ROOT_RESPONSE_TYPE, value: response_type };
            let fields = root_fields_steps(prior, base, response_type, body);
            let root = root_response_steps(prior, base, response_type, body);
            &&& in_table(opened) && open_table_start(opened) == start_table_offset(prior)
            &&& in_table(with_body) && in_table(offsets) && in_table(fields)
            &&& open_table_start(fields) == start_table_offset(prior)
            &&& is_table_offset(opened, body) && is_table_offset(with_body, base)
            &&& open_slots_valid(fields)
            &&& fits_in_table(with_body) && fits_in_table(offsets) && fits_in_table(
                offsets.push(type_step),
            ) && fits_in_table(fields)
            &&& written_bound(prior) <= written_bound(opened) <= written_bound(with_body)
                <= written_bound(offsets) <= written_bound(fields) <= written_bound(root)
                <= written_bound(prior) + 32
            &&& written_bound(offsets.push(type_step)) <= written_bound(prior) + 32
            &&& written_bound(root) <= written_bound(finish_steps(root)) <= written_bound(prior)
                + 39
            &&& !in_table(root)
            &&& is_table_offset(root, end_table_offset(root))
            &&& is_finished(root) == is_finished(prior)
        }),
{
    let body_step = BuildStep::PushOffset { slot: ROOT_RESPONSE_BODY, target: body };
    let base_step = BuildStep::PushOffset { slot: ROOT_RESPONSE_BASE, target: base };
    let type_step = BuildStep::PushByte { slot: ROOT_RESPONSE_TYPE, value: response_type };
    let opened = prior.push(BuildStep::StartTable);
    let with_body = opened.push(body_step);
    let offsets = root_offsets_steps(prior, base, body);
    let fields = root_fields_steps(prior, base, response_type, body);
    let root = root_response_steps(prior, base, response_type, body);
    lemma_push(prior, BuildStep::StartTable);
    lemma_start_opens(prior);
    lemma_push(opened, body_step);
    lemma_push_keeps_table(opened, body_step);
    lemma_push(with_body, base_step);
    lemma_push_keeps_table(with_body, base_step);
    lemma_push(offsets, type_step);
    lemma_push_keeps_table(offsets, type_step);
    lemma_push(fields, BuildStep::EndTable { start: start_table_offset(prior) });
    lemma_end_closes(fields, start_table_offset(prior));
    lemma_push(root, BuildStep::Finish { root: end_table_offset(root) });
    assert(vtable_bound(fields) <= 10);
}

/// Writes a need-auth response body offering `auth`.
fn create_need_auth_response(builder: &mut ResponseBuilder, auth: AuthType) -> (body: u32)
    requires
        !in_table(old(builder).steps()),
        fits_in_buffer(need_auth_body_steps(old(builder).steps(), auth.bits)),
    ensures
        final(builder).steps() == need_auth_body_steps(old(builder).steps(), auth.bits),
        body == end_table_offset(final(builder).steps()),
        is_table_offset(final(builder).steps(), body),
        !in_table(final(builder).steps()),
        is_finished(final(builder).steps()) == is_finished(old(builder).steps()),
{
    proof {
        lemma_need_auth_body(builder.steps(), auth.bits);
    }
    let start = builder.start_table();
    builder.push_byte_slot(NEED_AUTH_RESPONSE_AUTH_TYPE, auth.bits, 0);
    builder.end_table(start)
}

/// Writes a root response made of the response base at `base` and the body
/// at `body`, tagged `response_type`.
fn create_root_response(builder: &mut ResponseBuilder, base: u32, response_type: u8, body: u32) -> (root:
    u32)
    requires
        !in_table(old(builder).steps()),
        is_table_offset(old(builder).steps(), base),
        is_table_offset(old(builder).steps(), body),
        fits_in_buffer(root_response_steps(old(builder).steps(), base, response_type, body)),
    ensures
        final(builder).steps() == root_response_steps(
            old(builder).steps(),
            base,
            response_type,
            body,
        ),
        root == end_table_offset(final(builder).steps()),
        is_table_offset(final(builder).steps(), root),
        !in_table(final(builder).steps()),
        is_finished(final(builder).steps()) == is_finished(old(builder).steps()),
{
    proof {
        lemma_root_response(builder.steps(), base, response_type, body);
    }
    let start = builder.start_table();
    builder.push_offset_slot_always(ROOT_RESPONSE_BODY, body);
    builder.push_offset_slot_always(ROOT_RESPONSE_BASE, base);
    builder.push_byte_slot(ROOT_RESPONSE_TYPE, response_type, RESPONSE_NONE);
    builder.end_table(start)
}

/// Answers a need-auth request: a root response whose base carries API
/// version 1 and status `Success`, and whose body offers the union of the
/// authentication kinds the configuration lists.
pub fn handle_need_auth(config: &Config) -> (data: Vec<u8>)
    ensures
        data@ == need_auth_response_bytes(condensed_bits(config.available_auth_types@)),
{
    let mut builder = ResponseBuilder::new();
    let condense = AuthType::union_of(&config.available_auth_types);
    proof {
        lemma_need_auth_body(builder.steps(), condense.bits);
    }
    let need_auth = create_need_auth_response(&mut builder, condense);
    proof {
        lemma_base_response(builder.steps(), API_VERSION, Status::Success);
    }
    let base = make_base_response(&mut builder, API_VERSION, Status::Success);
    proof {
        lemma_root_response(builder.steps(), base, RESPONSE_NEED_AUTH, need_auth);
    }
    let root = create_root_response(&mut builder, base, RESPONSE_NEED_AUTH, need_auth);
    proof {
        lemma_push(builder.steps(), BuildStep::Finish { root });
    }
    builder.finish(root);
    builder.finished_data()
}

/// Answers a version 1 request: a need-auth request gets the need-auth
/// response; a request of no known kind is refused as invalid.
pub fn process_request(config: &Config, request: &V1Request) -> (res: Result<Vec<u8>, ApiError>)
    requires
        spec_is_served(*request),
    ensures
        request.request_type == REQUEST_NEED_AUTH ==> (res matches Ok(data) && data@
            == need_auth_response_bytes(condensed_bits(config.available_auth_types@))),
        !has_handler(request.request_type) ==> res matches Err(
            ApiError::Failed(Errors::InvalidRequest),
        ),
{
    if request.request_type == REQUEST_NEED_AUTH {
        Ok(handle_need_auth(config))
    } else {
        Err(ApiError::Failed(Errors::InvalidRequest))
    }
}

} // verus!
