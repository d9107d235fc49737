//! The ApiVersions response.
use crate::big_endian::{i16_be, i32_be, put_i16_at, put_i32_at, splice};
use crate::messages::primitives::{CompactArray, Serialize, SerializeError, TaggedFields, write_at};
use crate::messages::{ApiKeys, ErrorCode};
use vstd::prelude::*;

verus! {

/// ApiVersions Response (Version: 3) => error_code [api_keys] throttle_time_ms _tagged_fields
///   error_code => INT16
///   api_keys => api_key min_version max_version _tagged_fields
///   throttle_time_ms => INT32
#[derive(Debug, Clone)]
pub struct ApiVersions {
    pub error_code: ErrorCode,
    pub api_keys: CompactArray<ApiKey>,
    pub throttle_time_ms: i32,
    pub _tagged_fields: TaggedFields,
}

/// The content of an [`ApiVersions`] response.
pub struct ApiVersionsView {
    pub error_code: ErrorCode,
    pub api_keys: Seq<ApiKey>,
    pub throttle_time_ms: i32,
}

impl View for ApiVersions {
    type V = ApiVersionsView;

    open spec fn view(&self) -> ApiVersionsView {
        ApiVersionsView {
            error_code: self.error_code,
            api_keys: self.api_keys@,
            throttle_time_ms: self.throttle_time_ms,
        }
    }
}

impl Default for ApiVersions {
    fn default() -> (r: Self)
        ensures
            r@ == (ApiVersionsView {
                error_code: ErrorCode::NoError,
                api_keys: Seq::empty(),
                throttle_time_ms: 0,
            }),
    {
        let r = ApiVersions {
            error_code: ErrorCode::NoError,
            api_keys: CompactArray::default(),
            throttle_time_ms: 0,
            _tagged_fields: TaggedFields,
        };
        assert(r.api_keys@ =~= Seq::<ApiKey>::empty());
        r
    }
}

impl Serialize for ApiVersions {
    open spec fn spec_bytes(v: ApiVersionsView) -> Seq<u8> {
        i16_be(v.error_code.spec_code()) + CompactArray::<ApiKey>::spec_bytes(v.api_keys) + i32_be(
            v.throttle_time_ms,
        ) + TaggedFields::spec_bytes(())
    }

    fn write(&self, buf: &mut [u8]) -> (r: Result<usize, SerializeError>) {
        let ghost a = i16_be(self.error_code.spec_code());
        let ghost b = CompactArray::<ApiKey>::spec_bytes(self.api_keys@);
        let ghost c = i32_be(self.throttle_time_ms);
        let ghost d = TaggedFields::spec_bytes(());
        // The length of `buf` is a `usize`: it bounds the offsets below.
        let total = buf.len();
        put_i16_at(buf, 0, self.error_code.code());
        let mut s: usize = 2;
        s = s + write_at(&self.api_keys, buf, s);
        put_i32_at(buf, s, self.throttle_time_ms);
        s = s + 4;
        s = s + write_at(&self._tagged_fields, buf, s);
        assert(buf@ =~= splice(old(buf)@, 0, a + b + c + d));
        Ok(s)
    }

    fn encoded_len(&self) -> (r: Option<usize>) {
        match self.api_keys.encoded_len() {
            Some(n) => if n <= usize::MAX - 7 {
                Some(n + 7)
            } else {
                None
            },
            None => None,
        }
    }
}

///   api_keys => api_key min_version max_version _tagged_fields
///     api_key => INT16
///     min_version => INT16
///     max_version => INT16
#[derive(Debug, Clone)]
pub struct ApiKey {
    pub api_key: ApiKeys,
    pub min_version: i16,
    pub max_version: i16,
    pub _tagged_fields: TaggedFields,
}

impl View for ApiKey {
    type V = ApiKey;

    open spec fn view(&self) -> ApiKey {
        *self
    }
}

impl Default for ApiKey {
    fn default() -> (r: Self)
        ensures
            r.api_key == ApiKeys::ApiVersions,
            r.min_version == 0,
            r.max_version == 0,
    {
        ApiKey {
            api_key: ApiKeys::ApiVersions,
            min_version: 0,
            max_version: 0,
            _tagged_fields: TaggedFields,
        }
    }
}

impl Serialize for ApiKey {
    open spec fn spec_bytes(v: ApiKey) -> Seq<u8> {
        i16_be(v.api_key.spec_code()) + i16_be(v.min_version) + i16_be(v.max_version)
            + TaggedFields::spec_bytes(())
    }

    fn write(&self, buf: &mut [u8]) -> (r: Result<usize, SerializeError>) {
        put_i16_at(buf, 0, self.api_key.code());
        put_i16_at(buf, 2, self.min_version);
        put_i16_at(buf, 4, self.max_version);
        let t = write_at(&self._tagged_fields, buf, 6);
        assert(buf@ =~= splice(old(buf)@, 0, Self::spec_bytes(self@)));
        Ok(6 + t)
    }

    fn encoded_len(&self) -> (r: Option<usize>) {
        Some(7)
    }
}

} // verus!
