//! The responses that the broker writes.
use crate::big_endian::{be_i32, i32_be, lemma_splice_extend, put_i32_at, splice};
use crate::messages::primitives::{Serialize, SerializeError, TaggedFields, write_at};
use vstd::prelude::*;

pub mod api_version;
pub mod fetch;

verus! {

/// A response: its header and its body, written after a size field (INT32)
/// that holds the number of bytes that follow it.
#[derive(Debug, Clone)]
pub struct Response {
    pub header: Header,
    pub response: ResponseType,
}

/// The content of a [`Response`].
pub struct ResponseView {
    pub header: Header,
    pub response: ResponseTypeView,
}

impl View for Response {
    type V = ResponseView;

    open spec fn view(&self) -> ResponseView {
        ResponseView { header: self.header, response: self.response@ }
    }
}

/// The bytes of a response after its size field.
pub open spec fn response_body_bytes(v: ResponseView) -> Seq<u8> {
    Header::spec_bytes(v.header) + ResponseType::spec_bytes(v.response)
}

impl Serialize for Response {
    open spec fn spec_bytes(v: ResponseView) -> Seq<u8> {
        i32_be(response_body_bytes(v).len() as i32) + response_body_bytes(v)
    }

    fn write(&self, buf: &mut [u8]) -> (r: Result<usize, SerializeError>) {
        let ghost h = Header::spec_bytes(self.header);
        let ghost b = ResponseType::spec_bytes(self.response@);
        // The length of `buf` is a `usize`: it bounds the offsets below.
        let total = buf.len();
        let ghost o = old(buf)@;
        let mut s: usize = 0;
        s = s + write_at(&self.header, buf, 4);
        s = s + write_at(&self.response, buf, 4 + s);
        put_i32_at(buf, 0, s as i32);
        assert(buf@ =~= splice(o, 0, i32_be((h + b).len() as i32) + (h + b)));
        Ok(4 + s)
    }

    fn encoded_len(&self) -> (r: Option<usize>) {
        let h = self.header.encoded_len();
        match (h, self.response.encoded_len()) {
            (Some(h), Some(b)) => if b <= usize::MAX - 4 - h {
                Some(4 + h + b)
            } else {
                None
            },
            _ => None,
        }
    }
}

/// The size field at the front of a response holds the number of bytes that
/// follow it (for responses shorter than 2^31 bytes, which an INT32 can count).
pub proof fn law_response_size_field(v: ResponseView)
    requires
        response_body_bytes(v).len() <= i32::MAX,
    ensures
        Response::spec_bytes(v).len() >= 4,
        be_i32(Response::spec_bytes(v)) == Response::spec_bytes(v).len() - 4,
{
    let n = response_body_bytes(v).len();
    crate::big_endian::lemma_i32_roundtrip(n as i32);
    let a = i32_be(n as i32);
    assert(be_i32(a + response_body_bytes(v)) == be_i32(a));
}

/// A response is its size field, then its header, then its body: the size
/// field holds the length of header and body together, a v0 header is the
/// correlation id alone and a v1 header the correlation id and an empty
/// tagged-field count.
pub proof fn law_response_layout(v: ResponseView)
    ensures
        Response::spec_bytes(v) == i32_be(
            (Header::spec_bytes(v.header).len() + ResponseType::spec_bytes(v.response).len()) as i32,
        ) + Header::spec_bytes(v.header) + ResponseType::spec_bytes(v.response),
        Header::spec_bytes(v.header) == match v.header {
            Header::V0 { correlation_id } => i32_be(correlation_id),
            Header::V1 { correlation_id, .. } => i32_be(correlation_id).push(0u8),
        },
        Header::spec_bytes(v.header).len() == match v.header {
            Header::V0 { .. } => 4int,
            Header::V1 { .. } => 5int,
        },
{
    match v.header {
        Header::V0 { .. } => {},
        Header::V1 { correlation_id, .. } => {
            assert(i32_be(correlation_id) + seq![0u8] =~= i32_be(correlation_id).push(0u8));
        },
    }
}

/// Response Header v0 => correlation_id
///   correlation_id => INT32
/// Response Header v1 => correlation_id _tagged_fields
///   correlation_id => INT32
#[derive(Debug, Clone)]
pub enum Header {
    V0 { correlation_id: i32 },
    V1 { correlation_id: i32, _tagged_fields: TaggedFields },
}

impl View for Header {
    type V = Header;

    open spec fn view(&self) -> Header {
        *self
    }
}

impl Serialize for Header {
    open spec fn spec_bytes(v: Header) -> Seq<u8> {
        match v {
            Header::V0 { correlation_id } => i32_be(correlation_id),
            Header::V1 { correlation_id, .. } => i32_be(correlation_id) + TaggedFields::spec_bytes(()),
        }
    }

    fn write(&self, buf: &mut [u8]) -> (r: Result<usize, SerializeError>) {
        match self {
            Header::V0 { correlation_id } => {
                put_i32_at(buf, 0, *correlation_id);
                assert(buf@ =~= splice(old(buf)@, 0, i32_be(*correlation_id)));
                Ok(4)
            },
            Header::V1 { correlation_id, _tagged_fields } => {
                let ghost o = old(buf)@;
                put_i32_at(buf, 0, *correlation_id);
                assert(buf@ =~= splice(o, 0, i32_be(*correlation_id)));
                let s = write_at(_tagged_fields, buf, 4);
                proof {
                    lemma_splice_extend(o, i32_be(*correlation_id), TaggedFields::spec_bytes(()));
                }
                Ok(4 + s)
            },
        }
    }

    fn encoded_len(&self) -> (r: Option<usize>) {
        match self {
            Header::V0 { .. } => Some(4),
            Header::V1 { .. } => Some(5),
        }
    }
}

/// The body of a response, by API key.
#[derive(Debug, Clone)]
pub enum ResponseType {
    Fetch(fetch::Fetch),
    ApiVersions(api_version::ApiVersions),
}

/// The content of a [`ResponseType`].
pub enum ResponseTypeView {
    Fetch(fetch::FetchView),
    ApiVersions(api_version::ApiVersionsView),
}

impl View for ResponseType {
    type V = ResponseTypeView;

    open spec fn view(&self) -> ResponseTypeView {
        match self {
            ResponseType::Fetch(f) => ResponseTypeView::Fetch(f@),
            ResponseType::ApiVersions(a) => ResponseTypeView::ApiVersions(a@),
        }
    }
}

impl Serialize for ResponseType {
    open spec fn spec_bytes(v: ResponseTypeView) -> Seq<u8> {
        match v {
            ResponseTypeView::Fetch(f) => fetch::Fetch::spec_bytes(f),
            ResponseTypeView::ApiVersions(a) => api_version::ApiVersions::spec_bytes(a),
        }
    }

    fn write(&self, buf: &mut [u8]) -> (r: Result<usize, SerializeError>) {
        match self {
            ResponseType::Fetch(fetch) => fetch.write(buf),
            ResponseType::ApiVersions(api) => api.write(buf),
        }
    }

    fn encoded_len(&self) -> (r: Option<usize>) {
        match self {
            ResponseType::Fetch(fetch) => fetch.encoded_len(),
            ResponseType::ApiVersions(api) => api.encoded_len(),
        }
    }
}

} // verus!
