//! The broker's answer to a request: read the request, build the response,
//! write it.
use crate::big_endian::{be_i32, i32_be};
use crate::messages::primitives::{CompactArray, Outcome, ParseError, Serialize, TaggedFields};
use crate::messages::requests;
use crate::messages::primitives::Deserialize;
use crate::messages::requests::{spec_request, Header, RequestTypeView, RequestView};
use crate::messages::responses;
use crate::messages::responses::api_version::{ApiKey, ApiVersionsView};
use crate::messages::{ApiKeys, ErrorCode};
use crate::meta::Meta;
use vstd::prelude::*;

pub mod fetch;

verus! {

/// The APIs that the broker supports, with their version ranges: Fetch 16 to
/// 16 and ApiVersions 4 to 4.
pub open spec fn supported_keys() -> Seq<ApiKey> {
    seq![
        ApiKey {
            api_key: ApiKeys::Fetch,
            min_version: 16,
            max_version: 16,
            _tagged_fields: TaggedFields,
        },
        ApiKey {
            api_key: ApiKeys::ApiVersions,
            min_version: 4,
            max_version: 4,
            _tagged_fields: TaggedFields,
        },
    ]
}

/// The answer to an ApiVersions request of version `version`: the supported
/// APIs for version 4, UnsupportedVersion and no APIs for any other.
pub open spec fn spec_api_versions(version: i16) -> ApiVersionsView {
    if version == 4 {
        ApiVersionsView { error_code: ErrorCode::NoError, api_keys: supported_keys(), throttle_time_ms: 0 }
    } else {
        ApiVersionsView {
            error_code: ErrorCode::UnsupportedVersion,
            api_keys: Seq::empty(),
            throttle_time_ms: 0,
        }
    }
}

/// The ApiVersions answer for each version: version 4 gets no error, no
/// throttle and exactly two keys, Fetch from version 16 to 16 and then
/// ApiVersions from version 4 to 4; every other version gets
/// UnsupportedVersion, no throttle and no keys.
pub proof fn law_api_versions_by_version(version: i16)
    ensures
        spec_api_versions(version).throttle_time_ms == 0,
        version == 4 ==> {
            &&& spec_api_versions(version).error_code == ErrorCode::NoError
            &&& spec_api_versions(version).api_keys.len() == 2
            &&& spec_api_versions(version).api_keys[0].api_key == ApiKeys::Fetch
            &&& spec_api_versions(version).api_keys[0].min_version == 16
            &&& spec_api_versions(version).api_keys[0].max_version == 16
            &&& spec_api_versions(version).api_keys[1].api_key == ApiKeys::ApiVersions
            &&& spec_api_versions(version).api_keys[1].min_version == 4
            &&& spec_api_versions(version).api_keys[1].max_version == 4
        },
        version != 4 ==> {
            &&& spec_api_versions(version).error_code == ErrorCode::UnsupportedVersion
            &&& spec_api_versions(version).api_keys.len() == 0
        },
{
}

/// The response to a request when the known topics are `topics`. It carries
/// the request's correlation id; an ApiVersions response has the header
/// without tagged fields (v0), a Fetch response the one with them (v1).
pub open spec fn spec_response(req: RequestView, topics: Set<u128>) -> responses::ResponseView {
    match req.request {
        RequestTypeView::ApiVersions(_) => responses::ResponseView {
            header: responses::Header::V0 { correlation_id: req.header.correlation_id },
            response: responses::ResponseTypeView::ApiVersions(
                spec_api_versions(req.header.request_api_version),
            ),
        },
        RequestTypeView::Fetch(f) => responses::ResponseView {
            header: responses::Header::V1 {
                correlation_id: req.header.correlation_id,
                _tagged_fields: TaggedFields,
            },
            response: responses::ResponseTypeView::Fetch(
                fetch::spec_fetch_response(req.header.request_api_version, f, topics),
            ),
        },
    }
}

/// An ApiVersions request is answered with the v0 header carrying its
/// correlation id and the ApiVersions answer for its version, whatever topics
/// are known.
pub proof fn law_api_versions_answer(req: RequestView, topics: Set<u128>, others: Set<u128>)
    requires
        req.request is ApiVersions,
    ensures
        spec_response(req, topics) == (responses::ResponseView {
            header: responses::Header::V0 { correlation_id: req.header.correlation_id },
            response: responses::ResponseTypeView::ApiVersions(
                spec_api_versions(req.header.request_api_version),
            ),
        }),
        spec_response(req, topics) == spec_response(req, others),
{
}

/// A Fetch request is answered with the v1 header carrying its correlation id
/// and the Fetch answer for its version and the known topics.
pub proof fn law_fetch_answer(req: RequestView, topics: Set<u128>)
    requires
        req.request is Fetch,
    ensures
        req.request matches RequestTypeView::Fetch(f) && spec_response(req, topics) == (
        responses::ResponseView {
            header: responses::Header::V1 {
                correlation_id: req.header.correlation_id,
                _tagged_fields: TaggedFields,
            },
            response: responses::ResponseTypeView::Fetch(
                fetch::spec_fetch_response(req.header.request_api_version, f, topics),
            ),
        }),
{
}

/// The bytes of the response to a request.
pub open spec fn response_bytes(req: RequestView, topics: Set<u128>) -> Seq<u8> {
    responses::Response::spec_bytes(spec_response(req, topics))
}

/// A request is only read when its size field equals the number of bytes
/// that follow it.
pub proof fn law_request_size_field(msg: Seq<u8>)
    ensures
        spec_request(msg) is Parsed ==> msg.len() >= 4 && be_i32(msg) == msg.len() - 4,
{
}

proof fn lemma_request_correlation_id(msg: Seq<u8>)
    ensures
        spec_request(msg) matches Outcome::Parsed(req, _) ==> req.header.correlation_id == be_i32(
            msg.skip(8),
        ),
{
    if let Outcome::Parsed(req, _) = spec_request(msg) {
        let body = msg.skip(4);
        assert(Header::spec_parse(body) matches Outcome::Parsed(h, _) && h == req.header);
        assert(body.skip(4) =~= msg.skip(8));
    }
}

proof fn lemma_response_correlation_id(v: responses::ResponseView)
    ensures
        responses::Response::spec_bytes(v).len() >= 8,
        be_i32(responses::Response::spec_bytes(v).skip(4)) == match v.header {
            responses::Header::V0 { correlation_id } => correlation_id,
            responses::Header::V1 { correlation_id, .. } => correlation_id,
        },
{
    let body = responses::response_body_bytes(v);
    let c = match v.header {
        responses::Header::V0 { correlation_id } => correlation_id,
        responses::Header::V1 { correlation_id, .. } => correlation_id,
    };
    crate::big_endian::lemma_i32_roundtrip(c);
    crate::big_endian::lemma_i32_roundtrip(body.len() as i32);
    let bytes = responses::Response::spec_bytes(v);
    assert(bytes.skip(4) =~= body);
    assert(be_i32(body) == be_i32(i32_be(c)));
}

/// The response carries the correlation id of the request: bytes 4 to 8 of
/// the response are bytes 8 to 12 of the request (after the size field and
/// the API key and version).
pub proof fn law_correlation_id_echoed(msg: Seq<u8>, topics: Set<u128>)
    ensures
        spec_request(msg) matches Outcome::Parsed(req, _) ==> {
            &&& response_bytes(req, topics).len() >= 8
            &&& be_i32(response_bytes(req, topics).skip(4)) == req.header.correlation_id
            &&& be_i32(response_bytes(req, topics).skip(4)) == be_i32(msg.skip(8))
        },
{
    lemma_request_correlation_id(msg);
    if let Outcome::Parsed(req, _) = spec_request(msg) {
        lemma_response_correlation_id(spec_response(req, topics));
    }
}

/// The APIs that the broker supports.
fn supported_commands() -> (r: Vec<ApiKey>)
    ensures
        r@.map_values(|k: ApiKey| k@) == supported_keys(),
{
    let mut v: Vec<ApiKey> = Vec::new();
    v.push(
        ApiKey {
            api_key: ApiKeys::Fetch,
            min_version: 16,
            max_version: 16,
            _tagged_fields: TaggedFields,
        },
    );
    v.push(
        ApiKey {
            min_version: 4,
            max_version: 4,
            api_key: ApiKeys::ApiVersions,
            _tagged_fields: TaggedFields {},
        },
    );
    assert(v@.map_values(|k: ApiKey| k@) =~= supported_keys());
    v
}

fn handle_api_version(
    header: requests::Header,
    _api: requests::api_versions::ApiVersions,
) -> (r: responses::api_version::ApiVersions)
    ensures
        r@ == spec_api_versions(header.request_api_version),
{
    match header.request_api_version {
        4 => {
            let mut api = responses::api_version::ApiVersions::default();
            api.api_keys = CompactArray { vec: supported_commands() };
            api
        },
        _ => {
            let mut api = responses::api_version::ApiVersions::default();
            api.error_code = ErrorCode::UnsupportedVersion;
            api
        },
    }
}

fn handle_request(req: requests::Request, meta: &Meta) -> (r: responses::Response)
    ensures
        r@ == spec_response(req@, meta.spec_maps().topics()),
{
    let correlation_id = req.header.correlation_id;
    match req.request {
        requests::RequestType::ApiVersions(api) => {
            // ApiVersions answers with the header without tagged fields.
            let header = responses::Header::V0 { correlation_id };
            let response = responses::ResponseType::ApiVersions(handle_api_version(req.header, api));
            responses::Response { header, response }
        },
        requests::RequestType::Fetch(f) => {
            let header = responses::Header::V1 { correlation_id, _tagged_fields: TaggedFields };
            let response = responses::ResponseType::Fetch(fetch::handle_fetch(req.header, f, meta));
            responses::Response { header, response }
        },
    }
}

/// Answers the request in `msg`: `None` where the request has no outcome
/// ([`spec_request`]) or the response is longer than a `usize` can count.
/// Otherwise `msg_out` holds exactly the response bytes and their number is
/// returned, or the request's error is returned and `msg_out` is untouched.
pub fn try_process(msg: &[u8], msg_out: &mut Vec<u8>, meta: &Meta) -> (r: Option<Result<usize, ParseError>>)
    ensures
        match spec_request(msg@) {
            Outcome::Parsed(req, _) => if response_bytes(req, meta.spec_maps().topics()).len() <= usize::MAX {
                r matches Some(Ok(n)) && n == response_bytes(req, meta.spec_maps().topics()).len()
                    && final(msg_out)@ == response_bytes(req, meta.spec_maps().topics())
            } else {
                r is None && final(msg_out)@ == old(msg_out)@
            },
            Outcome::Failed(f) => r matches Some(Err(e)) && e@ == f && final(msg_out)@ == old(msg_out)@,
            Outcome::Undefined => r is None && final(msg_out)@ == old(msg_out)@,
        },
{
    let req = match requests::Request::checked_try_from(msg) {
        None => return None,
        Some(Err(e)) => return Some(Err(e)),
        Some(Ok(req)) => req,
    };
    let res = handle_request(req, meta);
    let n = match res.encoded_len() {
        Some(n) => n,
        None => return None,
    };
    msg_out.clear();
    msg_out.resize(n, 0);
    let s = res.write(msg_out.as_mut_slice()).unwrap();
    assert(msg_out@ =~= response_bytes(req@, meta.spec_maps().topics()));
    Some(Ok(s))
}

/// Answers the request in `msg`: `msg_out` holds exactly the bytes of the
/// response and their number is returned, or the request's error is returned
/// and `msg_out` is untouched.
pub fn process(msg: &[u8], msg_out: &mut Vec<u8>, meta: &Meta) -> (r: Result<usize, ParseError>)
    requires
        !(spec_request(msg@) is Undefined),
        spec_request(msg@) matches Outcome::Parsed(req, _) ==> response_bytes(req, meta.spec_maps().topics()).len() <= usize::MAX,
    ensures
        match spec_request(msg@) {
            Outcome::Parsed(req, _) => r matches Ok(n) && n == response_bytes(req, meta.spec_maps().topics()).len()
                && final(msg_out)@ == response_bytes(req, meta.spec_maps().topics()),
            Outcome::Failed(f) => r matches Err(e) && e@ == f && final(msg_out)@ == old(msg_out)@,
            Outcome::Undefined => false,
        },
{
    try_process(msg, msg_out, meta).unwrap()
}

} // verus!
