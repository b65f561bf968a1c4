use vstd::prelude::*;

use crate::error::CrawlError;

verus! {

/// The serialized host of the URL written in `s`, as the `url` crate parses it
/// (domains of special schemes lower-cased), or none where `s` is not a URL or
/// its URL has no host.
pub uninterp spec fn url_host(s: Seq<char>) -> Option<Seq<char>>;

/// Relies on `url::Url::parse`, then `url::Url::host_str` on what it parsed: the host,
/// which depends on the text alone.
#[verifier::external_body]
fn parse_url_host(s: &str) -> (r: Option<String>)
    ensures
        r is Some ==> url_host(s@) == Some(r->Some_0@),
        r is None ==> url_host(s@) is None,
{
    match url::Url::parse(s) {
        Ok(u) => u.host_str().map(String::from),
        Err(_) => None,
    }
}

/// A search result awaiting a visit: its URL text and the host that the
/// cooldown is kept for.
pub struct CandidateUrl {
    url: String,
    host: String,
}

impl CandidateUrl {
    /// The URL text.
    pub closed spec fn url_view(&self) -> Seq<char> {
        self.url@
    }

    /// The host of the URL.
    pub closed spec fn host_view(&self) -> Seq<char> {
        self.host@
    }

    /// The host is the one the URL text names.
    pub open spec fn wf(&self) -> bool {
        url_host(self.url_view()) == Some(self.host_view())
    }

    /// Parses `url`; fails exactly when it is no URL or names no host.
    pub fn new(url: String) -> (r: Result<CandidateUrl, CrawlError>)
        ensures
            r is Ok <==> url_host(url@) is Some,
            r is Ok ==> r->Ok_0.wf() && r->Ok_0.url_view() == url@,
            r is Err ==> r->Err_0 == CrawlError::MalformedUrl,
    {
        match parse_url_host(url.as_str()) {
            Some(host) => Ok(CandidateUrl { url, host }),
            None => Err(CrawlError::MalformedUrl),
        }
    }

    /// Parses every string in order; fails if any of them is malformed.
    pub fn new_from_vec(urls: Vec<String>) -> (r: Result<Vec<CandidateUrl>, CrawlError>)
        ensures
            r is Ok <==> (forall|i: int| 0 <= i < urls@.len() ==> (#[trigger] url_host(urls@[i]@)) is Some),
            r is Ok ==> r->Ok_0@.len() == urls@.len() && forall|i: int| 0 <= i < urls@.len() ==> {
                &&& (#[trigger] r->Ok_0@[i]).wf()
                &&& r->Ok_0@[i].url_view() == urls@[i]@
            },
            r is Err ==> r->Err_0 == CrawlError::MalformedUrl,
    {
        let mut result: Vec<CandidateUrl> = Vec::new();
        let n = urls.len();
        let mut i: usize = 0;
        while i < n
            invariant
                n == urls@.len(),
                i <= n,
                result@.len() == i,
                forall|j: int| 0 <= j < i ==> (#[trigger] url_host(urls@[j]@)) is Some,
                forall|j: int| 0 <= j < i ==> {
                    &&& (#[trigger] result@[j]).wf()
                    &&& result@[j].url_view() == urls@[j]@
                },
            decreases n - i,
        {
            match CandidateUrl::new(urls[i].clone()) {
                Ok(c) => result.push(c),
                Err(e) => {
                    return Err(e);
                },
            }
            i += 1;
        }
        Ok(result)
    }

    /// The host that the cooldown is kept for.
    pub fn get_host(&self) -> (r: &String)
        ensures
            r@ == self.host_view(),
    {
        &self.host
    }

    /// The URL text.
    pub fn get_url(&self) -> (r: &str)
        ensures
            r@ == self.url_view(),
    {
        self.url.as_str()
    }
}

} // verus!
