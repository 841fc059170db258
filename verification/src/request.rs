//! Request planning: turn a URL and optional per-call settings into a plain
//! plan — the URL, one entry per header name, and the timeout in
//! milliseconds — that a caller hands to its HTTP client.

use vstd::prelude::*;

use crate::headers::lemma_pairs_map_domain;
use crate::headers::pairs_map;
use crate::headers::unique_names;
use crate::headers::upsert_all;
use crate::headers::views_of;

verus! {

/// Per-call settings: extra headers to add to the outgoing request, and a
/// timeout in milliseconds after which the send is abandoned. Either may be
/// left out. Headers are taken in the order given; a later entry with the
/// name of an earlier one replaces it.
#[derive(Debug)]
pub struct RequestOptions {
    /// Extra header name/value pairs for the outgoing request.
    pub headers: Option<Vec<(String, String)>>,
    /// Milliseconds before the send is abandoned.
    pub timeout: Option<u32>,
}

/// Everything a caller needs to issue the GET: the URL as given, one header
/// entry per name, and the timeout widened to a milliseconds count.
#[derive(Debug)]
pub struct RequestPlan {
    /// The URL, passed through unvalidated: a malformed URL fails at the
    /// send, not here.
    pub url: String,
    /// The headers to add, one entry per name.
    pub headers: Vec<(String, String)>,
    /// The timeout in milliseconds, when one was configured.
    pub timeout_ms: Option<u64>,
}

/// The timeout the plan must carry: the configured milliseconds, widened.
pub open spec fn plan_timeout_of(opts: Option<RequestOptions>) -> Option<u64> {
    match opts {
        None => None,
        Some(o) => match o.timeout {
            None => None,
            Some(t) => Some(t as u64),
        },
    }
}

/// The header pairs the caller supplied, in the order given.
pub open spec fn supplied_headers_of(opts: Option<RequestOptions>) -> Seq<(String, String)> {
    match opts {
        None => Seq::empty(),
        Some(o) => match o.headers {
            None => Seq::empty(),
            Some(h) => h@,
        },
    }
}

/// Build the plan for a GET request: keep the URL as given, collapse the
/// supplied headers to one entry per name with a later value overwriting an
/// earlier one, and widen the timeout to milliseconds.
pub fn build_plan(url: String, opts: Option<RequestOptions>) -> (p: RequestPlan)
    ensures
        p.url == url,
        p.timeout_ms == plan_timeout_of(opts),
        unique_names(p.headers@),
        pairs_map(views_of(p.headers@)) == pairs_map(views_of(supplied_headers_of(opts))),
{
    match opts {
        None => {
            let headers: Vec<(String, String)> = Vec::new();
            proof {
                assert(views_of(headers@) =~= views_of(supplied_headers_of(opts)));
            }
            RequestPlan { url, headers, timeout_ms: None }
        },
        Some(o) => {
            let timeout_ms: Option<u64> = match o.timeout {
                None => None,
                Some(t) => Some(t as u64),
            };
            let headers: Vec<(String, String)> = match o.headers {
                None => {
                    let h: Vec<(String, String)> = Vec::new();
                    proof {
                        assert(views_of(h@) =~= views_of(supplied_headers_of(opts)));
                    }
                    h
                },
                Some(h) => upsert_all(&h),
            };
            RequestPlan { url, headers, timeout_ms }
        },
    }
}

/// Planning drops no header: every supplied name has an entry in the plan;
/// duplicates are only collapsed, never lost.
pub proof fn lemma_plan_carries_every_name(p: RequestPlan, opts: Option<RequestOptions>, i: int)
    requires
        pairs_map(views_of(p.headers@)) == pairs_map(views_of(supplied_headers_of(opts))),
        0 <= i < supplied_headers_of(opts).len(),
    ensures
        exists|j: int|
            0 <= j < p.headers@.len() && (#[trigger] p.headers@[j]).0@ == supplied_headers_of(
                opts,
            )[i].0@,
{
    let supplied = views_of(supplied_headers_of(opts));
    let k = supplied_headers_of(opts)[i].0@;
    assert(supplied[i].0 == k);
    lemma_pairs_map_domain(supplied, k);
    assert(pairs_map(views_of(p.headers@)).dom().contains(k));
    lemma_pairs_map_domain(views_of(p.headers@), k);
    let j = choose|j: int| 0 <= j < views_of(p.headers@).len() && (#[trigger] views_of(
        p.headers@,
    )[j]).0 == k;
    assert(p.headers@[j].0@ == k);
}

} // verus!
