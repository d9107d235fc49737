//! The ApiVersions request.
use crate::messages::primitives::{CompactString, Deserialize, Outcome, ParseError};
use vstd::prelude::*;

verus! {

/// ApiVersions Request => client_software_name client_software_version
///   client_software_name => COMPACT_STRING
///   client_software_version => COMPACT_STRING
#[derive(Debug, Clone)]
pub struct ApiVersions {
    pub client_software_name: CompactString,
    pub client_software_version: CompactString,
}

/// The content of an [`ApiVersions`] request.
pub struct ApiVersionsView {
    pub client_software_name: Seq<char>,
    pub client_software_version: Seq<char>,
}

impl View for ApiVersions {
    type V = ApiVersionsView;

    open spec fn view(&self) -> ApiVersionsView {
        ApiVersionsView {
            client_software_name: self.client_software_name@,
            client_software_version: self.client_software_version@,
        }
    }
}

impl Deserialize for ApiVersions {
    open spec fn spec_parse(buf: Seq<u8>) -> Outcome<ApiVersionsView> {
        match CompactString::spec_parse(buf) {
            Outcome::Parsed(name, s1) => match CompactString::spec_parse(buf.skip(s1 as int)) {
                Outcome::Parsed(version, s2) => Outcome::Parsed(
                    ApiVersionsView { client_software_name: name, client_software_version: version },
                    s1 + s2,
                ),
                Outcome::Failed(f) => Outcome::Failed(f),
                Outcome::Undefined => Outcome::Undefined,
            },
            Outcome::Failed(f) => Outcome::Failed(f),
            Outcome::Undefined => Outcome::Undefined,
        }
    }

    proof fn lemma_parse_len(buf: Seq<u8>) {
        CompactString::lemma_parse_len(buf);
        if let Outcome::Parsed(_, s1) = CompactString::spec_parse(buf) {
            CompactString::lemma_parse_len(buf.skip(s1 as int));
        }
    }

    fn try_parse(buf: &[u8]) -> (r: Option<Result<(Self, usize), ParseError>>) {
        let (client_software_name, s) = match CompactString::try_parse(buf) {
            None => return None,
            Some(Err(e)) => return Some(Err(e)),
            Some(Ok(p)) => p,
        };
        proof {
            CompactString::lemma_parse_len(buf@);
        }
        let (client_software_version, a) = match CompactString::try_parse(&buf[s..buf.len()]) {
            None => return None,
            Some(Err(e)) => return Some(Err(e)),
            Some(Ok(p)) => p,
        };
        proof {
            CompactString::lemma_parse_len(buf@.skip(s as int));
        }
        Some(Ok((Self { client_software_name, client_software_version }, s + a)))
    }
}

} // verus!
