//! Response marshaling: turn the wire-level pieces of a completed GET — the
//! status code, the final URL, the raw header bytes, and the outcome of
//! reading the body as text — into one flat record, or into the one generic
//! failure when the body could not be read.

use vstd::prelude::*;

use crate::errors::ErrorChain;
use crate::errors::FetchError;
use crate::errors::normalize_error;
use crate::headers::decode_header_value;
use crate::headers::header_value_text;
use crate::headers::pairs_map;
use crate::headers::unique_names;
use crate::headers::upsert_all;
use crate::headers::views_of;
use crate::text::normalized_of;

verus! {

/// The flat record a successful call resolves with. It is built once, after
/// the whole body has been read; no partial record ever leaves a failing
/// call.
#[derive(Debug)]
pub struct Response {
    /// The status code the server answered with.
    pub status: u16,
    /// The body as text; present exactly when reading it succeeded.
    pub body: Option<String>,
    /// The final URL of the request, after any redirects.
    pub url: String,
    /// The response headers, one entry per name as the wire client renders
    /// names; a value that is not visible ASCII stands as the empty string.
    pub headers: Vec<(String, String)>,
}

impl Response {
    /// A well-formed record carries at most one entry per header name.
    pub open spec fn wf(self) -> bool {
        unique_names(self.headers@)
    }
}

/// The decoded name/value views of raw wire headers.
pub open spec fn decoded_views_of(raw: Seq<(String, Vec<u8>)>) -> Seq<(Seq<char>, Seq<char>)> {
    raw.map_values(|p: (String, Vec<u8>)| (p.0@, header_value_text(p.1@)))
}

/// Assemble the record for a completed call. On a body read that succeeded,
/// the record carries the status and final URL as given, the body, and the
/// headers decoded and collapsed to one entry per name with a later wire
/// entry overwriting an earlier one of the same name. On a failed body read,
/// no record is produced: the error chain collapses to the one generic
/// failure.
pub fn build_response(
    status: u16,
    url: String,
    raw_headers: Vec<(String, Vec<u8>)>,
    body: Result<String, ErrorChain>,
) -> (r: Result<Response, FetchError>)
    ensures
        r is Ok <==> body is Ok,
        r matches Ok(resp) ==> {
            &&& resp.status == status
            &&& resp.url == url
            &&& resp.body == Some(body->Ok_0)
            &&& resp.wf()
            &&& pairs_map(views_of(resp.headers@)) == pairs_map(decoded_views_of(raw_headers@))
        },
        r matches Err(e) ==> body matches Err(c) && e.message@ == normalized_of(c.root_display()),
{
    match body {
        Err(chain) => Err(normalize_error(&chain)),
        Ok(text) => {
            let mut decoded: Vec<(String, String)> = Vec::new();
            let mut i: usize = 0;
            while i < raw_headers.len()
                invariant
                    0 <= i <= raw_headers@.len(),
                    decoded@.len() == i,
                    forall|j: int|
                        0 <= j < i ==> (#[trigger] decoded@[j]).0 == raw_headers@[j].0
                            && decoded@[j].1@ == header_value_text(raw_headers@[j].1@),
                decreases raw_headers@.len() - i,
            {
                let name = raw_headers[i].0.clone();
                let value = decode_header_value(&raw_headers[i].1);
                decoded.push((name, value));
                i += 1;
            }
            proof {
                assert(views_of(decoded@) =~= decoded_views_of(raw_headers@));
            }
            let headers = upsert_all(&decoded);
            Ok(Response { status, body: Some(text), url, headers })
        },
    }
}

} // verus!
