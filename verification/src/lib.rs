//! Render-aware extraction engine: the verified core of a web-scraping
//! service.  The library holds the pure logic — percent decoding, URL
//! absolutization, whitespace normalization, declarative field extraction,
//! the page-readiness state machine, the session cookie-isolation
//! protocol, the response-envelope codec, and the client request builders
//! — each with a contract.  Browser automation and HTTP transport live
//! outside, behind narrow trusted wrappers or in the unverified
//! application shell.

pub mod codec;
pub mod engine;
pub mod extract;
pub mod numfmt;
pub mod orchestrate;
pub mod schema;
pub mod session;
pub mod strorder;
pub mod textnorm;
pub mod utils;
pub mod wait;

use vstd::prelude::*;
use vstd::string::StringSliceAdditionalSpecFns;
use vstd::string::StringExecFns;
use crate::numfmt::{fmt_u128, dec_chars};

verus! {

/// A byte that percent-encoding passes through unchanged: ASCII
/// alphanumerics and `-`, `.`, `_`, `~`.
pub open spec fn is_url_unreserved(b: u8) -> bool {
    (0x30u8 <= b && b <= 0x39u8) || (0x41u8 <= b && b <= 0x5Au8) || (0x61u8 <= b && b <= 0x7Au8)
        || b == 0x2Du8 || b == 0x2Eu8 || b == 0x5Fu8 || b == 0x7Eu8
}

/// Uppercase hex digit character.
pub open spec fn hex_upper_char(d: nat) -> char {
    if d < 10 {
        crate::numfmt::digit_char(d)
    } else if d == 10 {
        'A'
    } else if d == 11 {
        'B'
    } else if d == 12 {
        'C'
    } else if d == 13 {
        'D'
    } else if d == 14 {
        'E'
    } else {
        'F'
    }
}

/// Percent-encoding of the byte tail starting at `i`: unreserved bytes
/// pass through, every other byte becomes `%` plus two uppercase hex
/// digits.
pub open spec fn penc_from(bytes: Seq<u8>, i: int) -> Seq<char>
    decreases bytes.len() - i,
{
    if i < 0 || i >= bytes.len() {
        Seq::empty()
    } else if is_url_unreserved(bytes[i]) {
        seq![bytes[i] as char] + penc_from(bytes, i + 1)
    } else {
        seq!['%', hex_upper_char((bytes[i] / 16) as nat), hex_upper_char((bytes[i] % 16) as nat)]
            + penc_from(bytes, i + 1)
    }
}

/// Percent-encoding of a whole byte string.
pub open spec fn penc_chars(bytes: Seq<u8>) -> Seq<char> {
    penc_from(bytes, 0)
}

/// Relies on `urlencoding::encode`: percent-encodes every byte except
/// ASCII alphanumerics and `-`, `.`, `_`, `~`, with uppercase hex digits.
#[verifier::external_body]
fn percent_encode(s: &str) -> (r: String)
    ensures
        r@ == penc_chars(s.spec_bytes()),
{
    urlencoding::encode(s).into_owned()
}

/// Relies on `core::time::Duration::as_millis` for the clock arithmetic
/// of `set_wait`; nothing is assumed of the value it reports.
pub assume_specification[ core::time::Duration::as_millis ](d: &core::time::Duration) -> u128;

/// A client of the scraping service, addressed by its base URL.
#[derive(Debug, Clone, PartialEq)]
pub struct Client {
    pub base_url: String,
}

impl Client {
    /// Create a new Client with the specified base URL.
    pub fn new(base_url: &str) -> (r: Self)
        ensures
            r.base_url@ == base_url@,
    {
        Client { base_url: String::from_str(base_url) }
    }

    /// The full request URL for a scrape call: the base URL followed by
    /// the scrape query.
    pub fn scrape_url(&self, api: &ScrapeAPI) -> (r: String)
        ensures
            r@ == self.base_url@ + spec_scrape_query(api@),
    {
        let mut out = self.base_url.clone();
        let q = api.generate_url();
        out.append(q.as_str());
        out
    }

    /// The full request URL for a capture call.
    pub fn capture_url(&self, api: &CaptureAPI) -> (r: String)
        ensures
            r@ == self.base_url@ + spec_capture_query(api@),
    {
        let mut out = self.base_url.clone();
        let q = api.generate_url();
        out.append(q.as_str());
        out
    }
}

/// A scrape request: the (already percent-encoded) target URL, the content
/// selectors, and the optional text and waiting selectors.
#[derive(Debug, Clone, PartialEq)]
pub struct ScrapeAPI {
    pub url: String,
    pub selectors: Vec<String>,
    pub text_selector: Option<String>,
    pub waiting_selector: Option<String>,
}

/// Ghost view of a `ScrapeAPI`.
pub struct ScrapeAPIView {
    pub url: Seq<char>,
    pub selectors: Seq<Seq<char>>,
    pub text_selector: Option<Seq<char>>,
    pub waiting_selector: Option<Seq<char>>,
}

impl View for ScrapeAPI {
    type V = ScrapeAPIView;

    open spec fn view(&self) -> ScrapeAPIView {
        ScrapeAPIView {
            url: self.url@,
            selectors: self.selectors.deep_view(),
            text_selector: self.text_selector.deep_view(),
            waiting_selector: self.waiting_selector.deep_view(),
        }
    }
}

/// The `selector=` query parts, one per selector, in order.
pub open spec fn sel_parts(sels: Seq<Seq<char>>, i: int) -> Seq<char>
    decreases sels.len() - i,
{
    if i < 0 || i >= sels.len() {
        Seq::empty()
    } else {
        "&selector="@ + sels[i] + sel_parts(sels, i + 1)
    }
}

/// The query string a scrape request serializes to.
pub open spec fn spec_scrape_query(v: ScrapeAPIView) -> Seq<char> {
    "/scraping?url="@ + v.url + sel_parts(v.selectors, 0) + (match v.text_selector {
        Some(t) => "&text_selector="@ + t,
        None => Seq::empty(),
    }) + (match v.waiting_selector {
        Some(w) => "&waiting_selector="@ + w,
        None => Seq::empty(),
    })
}

impl ScrapeAPI {
    /// The query-string form of this request.
    pub fn generate_url(&self) -> (r: String)
        ensures
            r@ == spec_scrape_query(self@),
    {
        let ghost sv = self.selectors.deep_view();
        let mut out = String::from_str("/scraping?url=");
        out.append(self.url.as_str());
        let n: usize = self.selectors.len();
        let mut i: usize = 0;
        proof {
            assert(out@ =~= "/scraping?url="@ + self.url@);
        }
        while i < n
            invariant
                n == self.selectors@.len(),
                i <= n,
                sv == self.selectors.deep_view(),
                "/scraping?url="@ + self.url@ + sel_parts(sv, 0) == out@ + sel_parts(sv, i as int),
            decreases n - i,
        {
            let ghost out0 = out@;
            out.append("&selector=");
            out.append(self.selectors[i].as_str());
            proof {
                assert(out@ =~= out0 + ("&selector="@ + sv[i as int]));
                assert(sel_parts(sv, i as int) == "&selector="@ + sv[i as int] + sel_parts(
                    sv,
                    i as int + 1,
                ));
                assert(out0 + ("&selector="@ + sv[i as int] + sel_parts(sv, i as int + 1))
                    =~= out@ + sel_parts(sv, i as int + 1));
            }
            i = i + 1;
        }
        proof {
            assert(out@ + sel_parts(sv, n as int) =~= out@);
        }
        match &self.text_selector {
            Some(t) => {
                out.append("&text_selector=");
                out.append(t.as_str());
            },
            None => {
            },
        }
        match &self.waiting_selector {
            Some(w) => {
                out.append("&waiting_selector=");
                out.append(w.as_str());
            },
            None => {
            },
        }
        proof {
            assert(out@ =~= spec_scrape_query(self@));
        }
        out
    }
}

/// A capture request: the (already percent-encoded) target URL, the
/// optional element selector, and the wait in milliseconds.
#[derive(Debug, Clone, PartialEq)]
pub struct CaptureAPI {
    pub url: String,
    pub selector: Option<String>,
    pub wait_millis: u128,
}

/// Ghost view of a `CaptureAPI`.
pub struct CaptureAPIView {
    pub url: Seq<char>,
    pub selector: Option<Seq<char>>,
    pub wait_millis: u128,
}

impl View for CaptureAPI {
    type V = CaptureAPIView;

    open spec fn view(&self) -> CaptureAPIView {
        CaptureAPIView {
            url: self.url@,
            selector: self.selector.deep_view(),
            wait_millis: self.wait_millis,
        }
    }
}

/// The query string a capture request serializes to.
pub open spec fn spec_capture_query(v: CaptureAPIView) -> Seq<char> {
    "/capture?url="@ + v.url + (match v.selector {
        Some(s) => "&selector="@ + s,
        None => Seq::empty(),
    }) + "&wait="@ + dec_chars(v.wait_millis as nat)
}

impl CaptureAPI {
    /// The query-string form of this request.
    pub fn generate_url(&self) -> (r: String)
        ensures
            r@ == spec_capture_query(self@),
    {
        let mut out = String::from_str("/capture?url=");
        out.append(self.url.as_str());
        match &self.selector {
            Some(s) => {
                out.append("&selector=");
                out.append(s.as_str());
            },
            None => {
            },
        }
        out.append("&wait=");
        let w = fmt_u128(self.wait_millis);
        out.append(w.as_str());
        proof {
            assert(out@ =~= spec_capture_query(self@));
        }
        out
    }
}

/// Builder for scrape requests.  The URL is percent-encoded on entry.
#[derive(Debug, Clone, PartialEq)]
pub struct ScraperAPIBuilder {
    pub url: String,
    pub selectors: Vec<String>,
    pub text_selector: Option<String>,
    pub waiting_selector: Option<String>,
}

impl ScraperAPIBuilder {
    /// Create a new ScraperAPIBuilder with the specified URL.
    pub fn new(url: &str) -> (r: Self)
        ensures
            r.url@ == penc_chars(url.spec_bytes()),
            r.selectors@.len() == 0,
            r.text_selector is None,
            r.waiting_selector is None,
    {
        ScraperAPIBuilder {
            url: percent_encode(url),
            selectors: Vec::new(),
            text_selector: None,
            waiting_selector: None,
        }
    }

    /// Add a selector to the list of selectors.
    pub fn add_selector(self, selector: &str) -> (r: Self)
        ensures
            r.url == self.url,
            r.selectors.deep_view() == self.selectors.deep_view().push(selector@),
            r.text_selector == self.text_selector,
            r.waiting_selector == self.waiting_selector,
    {
        let mut selectors = self.selectors;
        let ghost pre = selectors.deep_view();
        selectors.push(String::from_str(selector));
        proof {
            assert(selectors.deep_view() =~= pre.push(selector@));
        }
        ScraperAPIBuilder {
            url: self.url,
            selectors,
            text_selector: self.text_selector,
            waiting_selector: self.waiting_selector,
        }
    }

    /// Set the text selector.
    pub fn set_text_selector(self, selector: &str) -> (r: Self)
        ensures
            r.url == self.url,
            r.selectors == self.selectors,
            r.text_selector.deep_view() == Some(selector@),
            r.waiting_selector == self.waiting_selector,
    {
        ScraperAPIBuilder {
            url: self.url,
            selectors: self.selectors,
            text_selector: Some(String::from_str(selector)),
            waiting_selector: self.waiting_selector,
        }
    }

    /// Set the waiting selector.
    pub fn set_waiting_selector(self, selector: &str) -> (r: Self)
        ensures
            r.url == self.url,
            r.selectors == self.selectors,
            r.text_selector == self.text_selector,
            r.waiting_selector.deep_view() == Some(selector@),
    {
        ScraperAPIBuilder {
            url: self.url,
            selectors: self.selectors,
            text_selector: self.text_selector,
            waiting_selector: Some(String::from_str(selector)),
        }
    }

    /// Build the API request.
    pub fn build(self) -> (r: ScrapeAPI)
        ensures
            r.url == self.url,
            r.selectors == self.selectors,
            r.text_selector == self.text_selector,
            r.waiting_selector == self.waiting_selector,
    {
        ScrapeAPI {
            url: self.url,
            selectors: self.selectors,
            text_selector: self.text_selector,
            waiting_selector: self.waiting_selector,
        }
    }
}

/// Builder for capture requests.  The URL is percent-encoded on entry.
#[derive(Debug, Clone, PartialEq)]
pub struct CaptureAPIBuilder {
    pub url: String,
    pub selector: Option<String>,
    pub wait_millis: u128,
}

impl CaptureAPIBuilder {
    /// Create a new CaptureAPIBuilder with the specified URL.
    pub fn new(url: &str) -> (r: Self)
        ensures
            r.url@ == penc_chars(url.spec_bytes()),
            r.selector is None,
            r.wait_millis == 0,
    {
        CaptureAPIBuilder { url: percent_encode(url), selector: None, wait_millis: 0 }
    }

    /// Set the selector.
    pub fn set_selector(self, selector: &str) -> (r: Self)
        ensures
            r.url == self.url,
            r.selector.deep_view() == Some(selector@),
            r.wait_millis == self.wait_millis,
    {
        CaptureAPIBuilder {
            url: self.url,
            selector: Some(String::from_str(selector)),
            wait_millis: self.wait_millis,
        }
    }

    /// Set the wait duration.  The stored value is whatever the clock
    /// library reports for the duration in milliseconds.
    pub fn set_wait(self, wait: core::time::Duration) -> (r: Self)
        ensures
            r.url == self.url,
            r.selector == self.selector,
    {
        let millis = wait.as_millis();
        CaptureAPIBuilder { url: self.url, selector: self.selector, wait_millis: millis }
    }

    /// Set the wait duration in seconds.
    pub fn set_wait_secs(self, secs: u64) -> (r: Self)
        ensures
            r.url == self.url,
            r.selector == self.selector,
            r.wait_millis == secs as u128 * 1000,
    {
        CaptureAPIBuilder {
            url: self.url,
            selector: self.selector,
            wait_millis: secs as u128 * 1000,
        }
    }

    /// Set the wait duration in milliseconds.
    pub fn set_wait_millis(self, millis: u64) -> (r: Self)
        ensures
            r.url == self.url,
            r.selector == self.selector,
            r.wait_millis == millis as u128,
    {
        CaptureAPIBuilder { url: self.url, selector: self.selector, wait_millis: millis as u128 }
    }

    /// Build the API request.
    pub fn build(self) -> (r: CaptureAPI)
        ensures
            r.url == self.url,
            r.selector == self.selector,
            r.wait_millis == self.wait_millis,
    {
        CaptureAPI { url: self.url, selector: self.selector, wait_millis: self.wait_millis }
    }
}

} // verus!
