//! The requests that the broker reads.
use crate::big_endian::{
    be_i16, be_i32, get_i16, get_i32, i16_be, i32_be, lemma_i16_roundtrip, lemma_i32_roundtrip,
    lemma_same_first_four,
};
use crate::messages::primitives::{
    Deserialize, NullableString, Outcome, ParseError, ParseFailure, TaggedFields,
};
use vstd::prelude::*;

pub mod api_versions;
pub mod fetch;

verus! {

/// Request Header v1 => request_api_key request_api_version correlation_id client_id
///   request_api_key => INT16
///   request_api_version => INT16
///   correlation_id => INT32
///   client_id => NULLABLE_STRING
#[derive(Debug, Clone)]
pub struct Header {
    pub request_api_key: i16,
    pub request_api_version: i16,
    pub correlation_id: i32,
    pub client_id: NullableString,
    pub _tagged_fields: TaggedFields,
}

/// The content of a request [`Header`].
pub struct HeaderView {
    pub request_api_key: i16,
    pub request_api_version: i16,
    pub correlation_id: i32,
    pub client_id: Option<Seq<char>>,
}

impl View for Header {
    type V = HeaderView;

    open spec fn view(&self) -> HeaderView {
        HeaderView {
            request_api_key: self.request_api_key,
            request_api_version: self.request_api_version,
            correlation_id: self.correlation_id,
            client_id: self.client_id@,
        }
    }
}

impl Deserialize for Header {
    open spec fn spec_parse(buf: Seq<u8>) -> Outcome<HeaderView> {
        if buf.len() < 8 {
            Outcome::Undefined
        } else {
            match NullableString::spec_parse(buf.skip(8)) {
                Outcome::Parsed(client_id, s1) => match TaggedFields::spec_parse(buf.skip(8 + s1 as int)) {
                    Outcome::Parsed(_, s2) => Outcome::Parsed(
                        HeaderView {
                            request_api_key: be_i16(buf),
                            request_api_version: be_i16(buf.skip(2)),
                            correlation_id: be_i32(buf.skip(4)),
                            client_id,
                        },
                        8 + s1 + s2,
                    ),
                    Outcome::Failed(f) => Outcome::Failed(f),
                    Outcome::Undefined => Outcome::Undefined,
                },
                Outcome::Failed(f) => Outcome::Failed(f),
                Outcome::Undefined => Outcome::Undefined,
            }
        }
    }

    proof fn lemma_parse_len(buf: Seq<u8>) {
        if buf.len() >= 8 {
            NullableString::lemma_parse_len(buf.skip(8));
        }
    }

    fn try_parse(buf: &[u8]) -> (r: Option<Result<(Self, usize), ParseError>>) {
        let len = buf.len();
        if len < 8 {
            return None;
        }
        let request_api_key = get_i16(buf);
        let request_api_version = get_i16(&buf[2..len]);
        let correlation_id = get_i32(&buf[4..len]);
        let rest = &buf[8..len];
        let (client_id, s) = match NullableString::try_parse(rest) {
            None => return None,
            Some(Err(e)) => return Some(Err(e)),
            Some(Ok(p)) => p,
        };
        proof {
            NullableString::lemma_parse_len(rest@);
            assert(rest@.skip(s as int) =~= buf@.skip(8 + s));
        }
        let (_tagged_fields, ss) = match TaggedFields::try_parse(&rest[s..rest.len()]) {
            None => return None,
            Some(Err(e)) => return Some(Err(e)),
            Some(Ok(p)) => p,
        };
        Some(
            Ok(
                (
                    Self {
                        request_api_key,
                        request_api_version,
                        correlation_id,
                        client_id,
                        _tagged_fields,
                    },
                    8 + s + ss,
                ),
            ),
        )
    }
}

/// A read request header carries the API key of its bytes 0..2, the version of
/// bytes 2..4 and the correlation id of bytes 4..8, each read big-endian, and
/// takes more than those 8 bytes.
pub proof fn law_header_fields(buf: Seq<u8>)
    ensures
        Header::spec_parse(buf) matches Outcome::Parsed(h, n) ==> {
            &&& h.request_api_key == be_i16(buf.subrange(0, 2))
            &&& h.request_api_version == be_i16(buf.subrange(2, 4))
            &&& h.correlation_id == be_i32(buf.subrange(4, 8))
            &&& 8 < n <= buf.len()
        },
{
    if let Outcome::Parsed(h, n) = Header::spec_parse(buf) {
        Header::lemma_parse_len(buf);
        assert(buf.subrange(0, 2)[0] == buf[0] && buf.subrange(0, 2)[1] == buf[1]);
        assert(buf.skip(2)[0] == buf.subrange(2, 4)[0] && buf.skip(2)[1] == buf.subrange(2, 4)[1]);
        lemma_same_first_four(buf.skip(4), buf.subrange(4, 8));
    }
}

/// Reading a header written as API key, version, correlation id, a null
/// client id and an empty tagged-field count gives back those values and
/// takes those 11 bytes, whatever follows.
pub proof fn law_header_roundtrip(key: i16, version: i16, correlation_id: i32, rest: Seq<u8>)
    ensures
        Header::spec_parse(
            i16_be(key) + i16_be(version) + i32_be(correlation_id) + i16_be(-1i16) + seq![0u8]
                + rest,
        ) == Outcome::Parsed(
            HeaderView { request_api_key: key, request_api_version: version, correlation_id, client_id: None },
            11,
        ),
{
    let a = i16_be(key);
    let b = i16_be(version);
    let c = i32_be(correlation_id);
    let d = i16_be(-1i16);
    lemma_i16_roundtrip(key);
    lemma_i16_roundtrip(version);
    lemma_i32_roundtrip(correlation_id);
    lemma_i16_roundtrip(-1i16);
    let buf = a + b + c + d + seq![0u8] + rest;
    let t4 = seq![0u8] + rest;
    let t3 = d + t4;
    let t2 = c + t3;
    let t1 = b + t2;
    assert(buf =~= a + t1);
    assert(buf.skip(2) =~= t1);
    assert(buf.skip(4) =~= t2);
    assert(buf.skip(8) =~= t3);
    assert(buf.skip(10) =~= t4);
    assert(buf.skip(8).skip(2) =~= t4);
    assert(buf[0] == a[0] && buf[1] == a[1]);
    assert(t1[0] == b[0] && t1[1] == b[1]);
    assert(t3[0] == d[0] && t3[1] == d[1]);
    lemma_same_first_four(t2, c);
}

/// A request: its header and its body.
#[derive(Debug, Clone)]
pub struct Request {
    pub header: Header,
    pub request: RequestType,
}

/// The body of a request, by API key.
#[derive(Debug, Clone)]
pub enum RequestType {
    Fetch(fetch::Fetch),
    ApiVersions(api_versions::ApiVersions),
}

/// The content of a [`RequestType`].
pub enum RequestTypeView {
    Fetch(fetch::FetchView),
    ApiVersions(api_versions::ApiVersionsView),
}

impl View for RequestType {
    type V = RequestTypeView;

    open spec fn view(&self) -> RequestTypeView {
        match self {
            RequestType::Fetch(f) => RequestTypeView::Fetch(f@),
            RequestType::ApiVersions(a) => RequestTypeView::ApiVersions(a@),
        }
    }
}

/// The content of a [`Request`].
pub struct RequestView {
    pub header: HeaderView,
    pub request: RequestTypeView,
}

impl View for Request {
    type V = RequestView;

    open spec fn view(&self) -> RequestView {
        RequestView { header: self.header@, request: self.request@ }
    }
}

/// Reading the body of a request with API key `key`: a Fetch body for key 1,
/// an ApiVersions body for key 18; no other key is supported.
pub open spec fn spec_request_body(key: i16, buf: Seq<u8>) -> Outcome<RequestTypeView> {
    if key == 1 {
        match fetch::Fetch::spec_parse(buf) {
            Outcome::Parsed(f, n) => Outcome::Parsed(RequestTypeView::Fetch(f), n),
            Outcome::Failed(e) => Outcome::Failed(e),
            Outcome::Undefined => Outcome::Undefined,
        }
    } else if key == 18 {
        match api_versions::ApiVersions::spec_parse(buf) {
            Outcome::Parsed(a, n) => Outcome::Parsed(RequestTypeView::ApiVersions(a), n),
            Outcome::Failed(e) => Outcome::Failed(e),
            Outcome::Undefined => Outcome::Undefined,
        }
    } else {
        Outcome::Undefined
    }
}

/// Reading a whole request: a size field (INT32) that must equal the number of
/// bytes that follow it, then the header, then the body that the header's API
/// key selects. The count in a parsed outcome is the whole buffer.
pub open spec fn spec_request(buf: Seq<u8>) -> Outcome<RequestView> {
    if buf.len() < 4 {
        Outcome::Undefined
    } else if be_i32(buf) < 0 {
        Outcome::Failed(ParseFailure::SizeTooLarge)
    } else if be_i32(buf) != buf.len() - 4 {
        Outcome::Failed(ParseFailure::InvalidSize(be_i32(buf) as usize, (buf.len() - 4) as usize))
    } else {
        let body = buf.skip(4);
        match Header::spec_parse(body) {
            Outcome::Parsed(header, s) => match spec_request_body(
                header.request_api_key,
                body.skip(s as int),
            ) {
                Outcome::Parsed(request, _) => Outcome::Parsed(
                    RequestView { header, request },
                    buf.len(),
                ),
                Outcome::Failed(f) => Outcome::Failed(f),
                Outcome::Undefined => Outcome::Undefined,
            },
            Outcome::Failed(f) => Outcome::Failed(f),
            Outcome::Undefined => Outcome::Undefined,
        }
    }
}

/// A request whose size field counts the bytes after it is read as its header
/// followed, right after the header, by the body that the header's API key
/// selects; the first of the two to fail, or to have no outcome, decides.
pub proof fn law_request_layout(size: Seq<u8>, body: Seq<u8>)
    requires
        size.len() == 4,
        be_i32(size) == body.len(),
    ensures
        spec_request(size + body) == match Header::spec_parse(body) {
            Outcome::Parsed(h, s) => match spec_request_body(h.request_api_key, body.skip(s as int)) {
                Outcome::Parsed(t, _) => Outcome::Parsed(
                    RequestView { header: h, request: t },
                    body.len() + 4,
                ),
                Outcome::Failed(f) => Outcome::Failed(f),
                Outcome::Undefined => Outcome::Undefined,
            },
            Outcome::Failed(f) => Outcome::Failed(f),
            Outcome::Undefined => Outcome::Undefined,
        },
{
    let msg = size + body;
    assert(msg.skip(4) =~= body);
    assert(msg[0] == size[0] && msg[1] == size[1] && msg[2] == size[2] && msg[3] == size[3]);
}

/// API key 1 selects a Fetch body and API key 18 an ApiVersions body; no other
/// key gives a body.
pub proof fn law_request_body_by_key(key: i16, buf: Seq<u8>)
    ensures
        key == 1 ==> spec_request_body(key, buf) == match fetch::Fetch::spec_parse(buf) {
            Outcome::Parsed(f, n) => Outcome::Parsed(RequestTypeView::Fetch(f), n),
            Outcome::Failed(e) => Outcome::Failed(e),
            Outcome::Undefined => Outcome::Undefined,
        },
        key == 18 ==> spec_request_body(key, buf) == match api_versions::ApiVersions::spec_parse(
            buf,
        ) {
            Outcome::Parsed(a, n) => Outcome::Parsed(RequestTypeView::ApiVersions(a), n),
            Outcome::Failed(e) => Outcome::Failed(e),
            Outcome::Undefined => Outcome::Undefined,
        },
        key != 1 && key != 18 ==> spec_request_body(key, buf) is Undefined,
{
}

/// `r` is what reading a request gives when the bytes have outcome `o`.
pub open spec fn request_agrees(o: Outcome<RequestView>, r: Option<Result<Request, ParseError>>) -> bool {
    match o {
        Outcome::Parsed(v, _) => r matches Some(Ok(x)) && x@ == v,
        Outcome::Failed(f) => r matches Some(Err(e)) && e@ == f,
        Outcome::Undefined => r is None,
    }
}

impl Request {
    /// Reads a request from a buffer that holds it whole; `None` where
    /// [`spec_request`] has no outcome.
    pub fn checked_try_from(buf: &[u8]) -> (r: Option<Result<Self, ParseError>>)
        ensures
            request_agrees(spec_request(buf@), r),
    {
        let len = buf.len();
        if len < 4 {
            return None;
        }
        let size = get_i32(buf);
        let size: usize = match usize::try_from(size) {
            Ok(s) => s,
            Err(e) => return Some(Err(ParseError::SizeTooLarge(e))),
        };
        let body = &buf[4..len];
        if size != body.len() {
            return Some(Err(ParseError::InvalidSize(size, body.len())));
        }
        let (header, s) = match Header::try_parse(body) {
            None => return None,
            Some(Err(e)) => return Some(Err(e)),
            Some(Ok(p)) => p,
        };
        proof {
            Header::lemma_parse_len(body@);
        }
        let rt = match RequestType::checked_parse(header.request_api_key, &body[s..body.len()]) {
            None => return None,
            Some(Err(e)) => return Some(Err(e)),
            Some(Ok((rt, _ss))) => rt,
        };
        Some(Ok(Self { header, request: rt }))
    }

    /// Reads a request from a buffer that holds it whole: a size field equal
    /// to the number of bytes that follow, a header and the body for its API
    /// key.
    pub fn try_from(buf: &[u8]) -> (r: Result<Self, ParseError>)
        requires
            !(spec_request(buf@) is Undefined),
        ensures
            request_agrees(spec_request(buf@), Some(r)),
    {
        Self::checked_try_from(buf).unwrap()
    }
}

/// `r` is what reading a request body gives when the bytes have outcome `o`.
pub open spec fn body_agrees(o: Outcome<RequestTypeView>, r: Option<Result<(RequestType, usize), ParseError>>) -> bool {
    match o {
        Outcome::Parsed(v, n) => r matches Some(Ok((x, m))) && x@ == v && m == n,
        Outcome::Failed(f) => r matches Some(Err(e)) && e@ == f,
        Outcome::Undefined => r is None,
    }
}

impl RequestType {
    /// Reads the body of a request with API key `request_api_key`; `None`
    /// where [`spec_request_body`] has no outcome.
    pub fn checked_parse(request_api_key: i16, buf: &[u8]) -> (r: Option<
        Result<(Self, usize), ParseError>,
    >)
        ensures
            body_agrees(spec_request_body(request_api_key, buf@), r),
    {
        match request_api_key {
            1 => match fetch::Fetch::try_parse(buf) {
                None => None,
                Some(Err(e)) => Some(Err(e)),
                Some(Ok((f, n))) => Some(Ok((RequestType::Fetch(f), n))),
            },
            18 => match api_versions::ApiVersions::try_parse(buf) {
                None => None,
                Some(Err(e)) => Some(Err(e)),
                Some(Ok((a, n))) => Some(Ok((RequestType::ApiVersions(a), n))),
            },
            _ => None,
        }
    }

    /// Reads the body of a request with API key `request_api_key`: Fetch for
    /// key 1, ApiVersions for key 18.
    pub fn parse(request_api_key: i16, buf: &[u8]) -> (r: Result<(Self, usize), ParseError>)
        requires
            !(spec_request_body(request_api_key, buf@) is Undefined),
        ensures
            body_agrees(spec_request_body(request_api_key, buf@), Some(r)),
    {
        Self::checked_parse(request_api_key, buf).unwrap()
    }
}

} // verus!
