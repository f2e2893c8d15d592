//! DNS-over-HTTPS queries: the request URL, the errors, and the reading of the
//! resolver's JSON answer. Sending the request is the caller's work.
use vstd::prelude::*;
use crate::text::{concat2, owned, strings_view};

verus! {

/// Why a DoH query failed.
#[derive(Debug)]
pub enum DohError {
    NetworkError(String),
    EncodingError(String),
    DecodingError(String),
}

impl DohError {
    /// The human-readable text of the error.
    pub open spec fn message(&self) -> Seq<char> {
        match self {
            DohError::NetworkError(e) => "Network error: "@ + e@,
            DohError::EncodingError(e) => "Encoding error: "@ + e@,
            DohError::DecodingError(e) => "Decoding error: "@ + e@,
        }
    }

    /// Renders the error as text, e.g. "Network error: connection refused".
    pub fn to_string(&self) -> (s: String)
        ensures
            s@ == self.message(),
    {
        match self {
            DohError::NetworkError(e) => concat2("Network error: ", e.as_str()),
            DohError::EncodingError(e) => concat2("Encoding error: ", e.as_str()),
            DohError::DecodingError(e) => concat2("Decoding error: ", e.as_str()),
        }
    }
}

/// The `data` fields present in an `Answer` section, in order.
pub open spec fn present(answers: Seq<Option<String>>) -> Seq<Seq<char>>
    decreases answers.len(),
{
    if answers.len() == 0 {
        Seq::empty()
    } else {
        present(answers.drop_last()) + match answers.last() {
            Some(d) => seq![d@],
            None => Seq::<Seq<char>>::empty(),
        }
    }
}

/// A DNS-over-HTTPS client for one resolver, using its JSON API.
pub struct DohClient {
    resolver_url: String,
}

impl DohClient {
    /// The resolver URL the client was made with.
    pub closed spec fn url(&self) -> Seq<char> {
        self.resolver_url@
    }

    pub fn new(resolver_url: String) -> (c: Self)
        ensures
            c.url() == resolver_url@,
    {
        DohClient { resolver_url }
    }

    /// The resolver URL this client is configured to use.
    pub fn resolver_url(&self) -> (r: &str)
        ensures
            r@ == self.url(),
    {
        self.resolver_url.as_str()
    }

    /// The URL of the query for the A records of `domain`:
    /// "<resolver>?name=<domain>&type=A".
    pub fn query_url(&self, domain: &str) -> (u: String)
        ensures
            u@ == self.url() + "?name="@ + domain@ + "&type=A"@,
    {
        let a = concat2(self.resolver_url.as_str(), "?name=");
        let b = concat2(a.as_str(), domain);
        concat2(b.as_str(), "&type=A")
    }

    /// Reads the resolver's answer: `answers` holds, for each entry of the JSON
    /// `Answer` array, its `data` string if it has one, or is `None` when the reply has
    /// no `Answer` array. The data strings come back in order; a reply without an
    /// `Answer` array is a decoding error.
    pub fn answer_records(answers: Option<Vec<Option<String>>>) -> (r: Result<Vec<String>, DohError>)
        ensures
            (match answers {
                None => (r matches Err(DohError::DecodingError(m)) && m@ == "Missing Answer section"@),
                Some(a) => (r matches Ok(v) && strings_view(v@) == present(a@)),
            }),
    {
        match answers {
            None => Err(DohError::DecodingError(owned("Missing Answer section"))),
            Some(a) => {
                let mut out: Vec<String> = Vec::new();
                let n = a.len();
                for i in 0..n
                    invariant
                        n == a@.len(),
                        strings_view(out@) == present(a@.take(i as int)),
                {
                    assert(a@.take(i + 1).drop_last() == a@.take(i as int));
                    match &a[i] {
                        Some(d) => {
                            out.push(d.clone());
                            assert(strings_view(out@) =~= present(a@.take(i + 1)));
                        },
                        None => {
                            assert(strings_view(out@) =~= present(a@.take(i + 1)));
                        },
                    }
                }
                assert(a@.take(n as int) == a@);
                Ok(out)
            },
        }
    }
}

} // verus!
