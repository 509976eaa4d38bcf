//! The parts of the protocol shared by every API version: the version
//! check and the base of every response.

pub mod v1;

use vstd::prelude::*;
use flatbuffers::InvalidFlatbuffer;
use crate::errors::Errors;
use crate::wire::{
    end_table_offset, finished_bytes, fits_in_buffer, fits_in_table, in_table, is_finished,
    is_table_offset, lemma_end_closes, lemma_push, lemma_push_keeps_table, lemma_start_opens,
    open_slots_valid, open_table_start, read_root_byte, root_byte, start_table_offset,
    vtable_bound, written_bound, BuildStep, ResponseBuilder, open_byte_field, reads_byte,
    finished_root, lemma_table_in_prefix, table_byte,
};

verus! {

/// Outcome of a request as the wire reports it.
#[derive(Clone, Copy, Debug, PartialEq, Eq, Structural)]
pub enum Status {
    Success,
    TooLong,
}

impl Status {
    /// The value of the status on the wire.
    pub open spec fn spec_value(self) -> u8 {
        match self {
            Status::Success => 0,
            Status::TooLong => 1,
        }
    }

    pub fn value(&self) -> (v: u8)
        ensures
            v == self.spec_value(),
    {
        match self {
            Status::Success => 0,
            Status::TooLong => 1,
        }
    }
}

/// Field slot of the common part (the API version) in a response base.
pub const RESPONSE_BASE_COMMON: u16 = 4;

/// Field slot of the status in a response base.
pub const RESPONSE_BASE_STATUS: u16 = 6;

/// Why a request got no response.
pub enum ApiError {
    /// The request was understood and refused.
    Failed(Errors),
    /// The request is not a well-formed flatbuffer.
    Malformed(InvalidFlatbuffer),
}

/// The API version a request is handled by.
#[derive(Clone, Copy, Debug, PartialEq, Eq, Structural)]
pub enum ApiRoute {
    V1,
}

/// Reads the API version that opens every request (the one-byte struct at
/// the root of the buffer) and picks the handler for it.
pub fn map_request(request: &[u8]) -> (res: Result<ApiRoute, ApiError>)
    ensures
        match root_byte(request@) {
            None => res matches Err(ApiError::Malformed(_)),
            Some(version) => if version == 1 {
                res matches Ok(ApiRoute::V1)
            } else {
                res matches Err(ApiError::Failed(Errors::Unsupported))
            },
        },
{
    match read_root_byte(request) {
        Err(e) => Err(ApiError::Malformed(e)),
        Ok(version) => {
            if version == 1 {
                Ok(ApiRoute::V1)
            } else {
                Err(ApiError::Failed(Errors::Unsupported))
            }
        },
    }
}

/// The calls that open a response base after `prior` and write its common
/// part (a struct, which the schema compiler adds with the four-byte fields).
pub open spec fn base_common_steps(prior: Seq<BuildStep>, api_version: u8) -> Seq<BuildStep> {
    prior.push(BuildStep::StartTable).push(
        BuildStep::PushByte { slot: RESPONSE_BASE_COMMON, value: api_version },
    )
}

/// The calls that write all fields of a response base: the common part,
/// then the status, left out when it is the default, `Success`.
pub open spec fn base_fields_steps(prior: Seq<BuildStep>, api_version: u8, status: Status) -> Seq<
    BuildStep,
> {
    if status.spec_value() != 0 {
        base_common_steps(prior, api_version).push(
            BuildStep::PushByte { slot: RESPONSE_BASE_STATUS, value: status.spec_value() },
        )
    } else {
        base_common_steps(prior, api_version)
    }
}

/// The calls that write a response base after `prior`.
pub open spec fn base_response_steps(prior: Seq<BuildStep>, api_version: u8, status: Status) -> Seq<
    BuildStep,
> {
    base_fields_steps(prior, api_version, status).push(
        BuildStep::EndTable { start: start_table_offset(prior) },
    )
}

/// `steps` followed by `finish` with the table that `steps` ended last as root.
pub open spec fn finish_steps(steps: Seq<BuildStep>) -> Seq<BuildStep> {
    steps.push(BuildStep::Finish { root: end_table_offset(steps) })
}

/// The calls that write the answer to a request that is too long.
pub open spec fn too_long_steps(prior: Seq<BuildStep>) -> Seq<BuildStep> {
    finish_steps(base_response_steps(prior, 0, Status::TooLong))
}

/// What writing a response base after `prior` does, call by call: the
/// table opened after `prior` stays open, within bounds, until it ends; a
/// base writes at most 17 bytes, and finishing after it at most 7 more.
pub proof fn lemma_base_response(prior: Seq<BuildStep>, api_version: u8, status: Status)
    requires
        !in_table(prior),
    ensures
        ({
            let opened = prior.push(BuildStep::StartTable);
            let common = base_common_steps(prior, api_version);
            let fields = base_fields_steps(prior, api_version, status);
            let base = base_response_steps(prior, api_version, status);
            &&& in_table(opened) && open_table_start(opened) == start_table_offset(prior)
            &&& in_table(common) && open_table_start(common) == start_table_offset(prior)
            &&& in_table(fields) && open_table_start(fields) == start_table_offset(prior)
            &&& open_slots_valid(fields) && fits_in_table(common) && fits_in_table(fields)
            &&& written_bound(prior) <= written_bound(opened) <= written_bound(common)
                <= written_bound(fields) <= written_bound(base) <= written_bound(prior) + 17
            &&& written_bound(base) <= written_bound(finish_steps(base)) <= written_bound(prior)
                + 24
            &&& !in_table(base)
            &&& is_table_offset(base, end_table_offset(base))
            &&& is_finished(base) == is_finished(prior)
            &&& forall|off: u32|
                is_table_offset(prior, off) ==> #[trigger] is_table_offset(base, off)
        }),
{
    let v = status.spec_value();
    let common_step = BuildStep::PushByte { slot: RESPONSE_BASE_COMMON, value: api_version };
    let status_step = BuildStep::PushByte { slot: RESPONSE_BASE_STATUS, value: v };
    let opened = prior.push(BuildStep::StartTable);
    let common = base_common_steps(prior, api_version);
    let fields = base_fields_steps(prior, api_version, status);
    let base = base_response_steps(prior, api_version, status);
    lemma_push(prior, BuildStep::StartTable);
    lemma_start_opens(prior);
    lemma_push(opened, common_step);
    lemma_push_keeps_table(opened, common_step);
    if v != 0 {
        lemma_push(common, status_step);
        lemma_push_keeps_table(common, status_step);
    }
    lemma_push(fields, BuildStep::EndTable { start: start_table_offset(prior) });
    lemma_end_closes(fields, start_table_offset(prior));
    lemma_push(base, BuildStep::Finish { root: end_table_offset(base) });
    assert(vtable_bound(fields) <= 8);
    assert forall|off: u32| is_table_offset(prior, off) implies #[trigger] is_table_offset(
        base,
        off,
    ) by {
        assert(is_table_offset(opened, off));
        assert(is_table_offset(common, off));
        assert(is_table_offset(fields, off));
    }
}

/// The fields of the table that the calls `fields` leave open, read where
/// they stop: the common part holds the API version, the status slot the
/// status (absent, and so read as the default 0, for `Success`).
pub proof fn lemma_base_fields(prior: Seq<BuildStep>, api_version: u8, status: Status)
    ensures
        open_byte_field(base_fields_steps(prior, api_version, status), RESPONSE_BASE_COMMON)
            == Some(api_version),
        match open_byte_field(base_fields_steps(prior, api_version, status), RESPONSE_BASE_STATUS) {
            Some(v) => v,
            None => 0u8,
        } == status.spec_value(),
{
    let opened = prior.push(BuildStep::StartTable);
    let common = base_common_steps(prior, api_version);
    assert(common.drop_last() =~= opened);
    assert(opened.drop_last() =~= prior);
    assert(open_byte_field(opened, RESPONSE_BASE_STATUS) is None);
    assert(open_byte_field(common, RESPONSE_BASE_STATUS) is None);
    assert(common.last() == BuildStep::PushByte { slot: RESPONSE_BASE_COMMON, value: api_version });
    assert(open_byte_field(common, RESPONSE_BASE_COMMON) == Some(api_version));
    if status.spec_value() != 0 {
        let fields = base_fields_steps(prior, api_version, status);
        assert(fields.drop_last() =~= common);
        assert(open_byte_field(fields, RESPONSE_BASE_COMMON) == Some(api_version));
    }
}

/// A response base reads back what it was written with, for every API
/// version and status: the table at the offset that `make_base_response`
/// returns holds `api_version` in its common part and `status` in its
/// status field.
pub proof fn law_base_response_reads_back(prior: Seq<BuildStep>, api_version: u8, status: Status)
    ensures
        ({
            let s = base_response_steps(prior, api_version, status);
            &&& reads_byte(s, end_table_offset(s), RESPONSE_BASE_COMMON, api_version)
            &&& reads_byte(s, end_table_offset(s), RESPONSE_BASE_STATUS, status.spec_value())
        }),
{
    let s = base_response_steps(prior, api_version, status);
    assert(s.take(s.len() as int) =~= s);
    lemma_table_in_prefix(s, s);
    assert(s.drop_last() =~= base_fields_steps(prior, api_version, status));
    lemma_base_fields(prior, api_version, status);
    assert(table_byte(s, s.len() - 1, RESPONSE_BASE_COMMON) == api_version);
    assert(table_byte(s, s.len() - 1, RESPONSE_BASE_STATUS) == status.spec_value());
}

/// The answer to an over-long request is finished with a response base as
/// root that reads API version 0 and status `TooLong`.
pub proof fn law_too_long_reads_back(prior: Seq<BuildStep>)
    ensures
        ({
            let s = too_long_steps(prior);
            &&& finished_root(s) is Some
            &&& reads_byte(s, finished_root(s).unwrap(), RESPONSE_BASE_COMMON, 0)
            &&& reads_byte(
                s,
                finished_root(s).unwrap(),
                RESPONSE_BASE_STATUS,
                Status::TooLong.spec_value(),
            )
        }),
{
    let base = base_response_steps(prior, 0, Status::TooLong);
    let s = too_long_steps(prior);
    assert(s.take(base.len() as int) =~= base);
    lemma_table_in_prefix(s, base);
    assert(base.drop_last() =~= base_fields_steps(prior, 0, Status::TooLong));
    lemma_base_fields(prior, 0, Status::TooLong);
    assert(table_byte(s, base.len() - 1, RESPONSE_BASE_COMMON) == 0);
    assert(table_byte(s, base.len() - 1, RESPONSE_BASE_STATUS) == Status::TooLong.spec_value());
}

/// Writes a response base, carrying `api_version` and `status`, and
/// returns the offset of the table. The builder must not be inside a
/// table, and the buffer must have room for the base below the 2 GiB that
/// a flatbuffer holds.
pub fn make_base_response(builder: &mut ResponseBuilder, api_version: u8, status: Status) -> (base:
    u32)
    requires
        !in_table(old(builder).steps()),
        fits_in_buffer(base_response_steps(old(builder).steps(), api_version, status)),
    ensures
        final(builder).steps() == base_response_steps(old(builder).steps(), api_version, status),
        base == end_table_offset(final(builder).steps()),
        is_table_offset(final(builder).steps(), base),
        !in_table(final(builder).steps()),
        is_finished(final(builder).steps()) == is_finished(old(builder).steps()),
        forall|off: u32|
            is_table_offset(old(builder).steps(), off) ==> #[trigger] is_table_offset(
                final(builder).steps(),
                off,
            ),
{
    proof {
        lemma_base_response(builder.steps(), api_version, status);
    }
    let start = builder.start_table();
    builder.push_byte_slot_always(RESPONSE_BASE_COMMON, api_version);
    let value = status.value();
    builder.push_byte_slot(RESPONSE_BASE_STATUS, value, 0);
    builder.end_table(start)
}

/// The response to a request longer than the server accepts: a response
/// base with API version 0 and status `TooLong`, as a finished buffer.
pub fn too_long_response(builder: &mut ResponseBuilder) -> (data: Vec<u8>)
    requires
        !in_table(old(builder).steps()),
        !is_finished(old(builder).steps()),
        fits_in_buffer(too_long_steps(old(builder).steps())),
    ensures
        final(builder).steps() == too_long_steps(old(builder).steps()),
        data@ == finished_bytes(too_long_steps(old(builder).steps())),
{
    proof {
        lemma_base_response(old(builder).steps(), 0, Status::TooLong);
    }
    let response = make_base_response(builder, 0, Status::TooLong);
    proof {
        lemma_push(builder.steps(), BuildStep::Finish { root: response });
    }
    builder.finish(response);
    builder.finished_data()
}

} // verus!
