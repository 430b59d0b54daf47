use vstd::prelude::*;
use vstd::string::StringSliceAdditionalSpecFns;

use crate::errors::ContentError;
use crate::opts::Options;
use crate::text::{
    chars_string, contains_from, find_from, first_match_from, last_match_before,
    lemma_first_match_from, lemma_last_match_before, rfind_before, str_contains, str_eq,
    to_chars,
};

verus! {

// ---------------------------------------------------------------------------
// Trusted view of URL parsing and readability extraction.
// ---------------------------------------------------------------------------

/// A name for the host part a URL string parses to: a function of the
/// string alone; nothing when the string does not parse or has no host.
pub uninterp spec fn url_host_of(s: Seq<char>) -> Option<Seq<char>>;

/// Relies on `url::Url::parse` and `url::Url::host_str`: the host of the
/// parsed URL.
#[verifier::external_body]
fn url_host(s: &str) -> (r: Option<String>)
    ensures
        r.deep_view() == url_host_of(s@),
{
    match url::Url::parse(s) {
        Ok(u) => match u.host_str() {
            Some(h) => Some(h.to_string()),
            None => None,
        },
        Err(_) => None,
    }
}

/// A name for the path part a URL string parses to: a function of the
/// string alone; nothing when the string does not parse.
pub uninterp spec fn url_path_of(s: Seq<char>) -> Option<Seq<char>>;

/// Relies on `url::Url::parse` and `url::Url::path`: the path of the
/// parsed URL.
#[verifier::external_body]
fn url_path(s: &str) -> (r: Option<String>)
    ensures
        r.deep_view() == url_path_of(s@),
{
    match url::Url::parse(s) {
        Ok(u) => Some(u.path().to_string()),
        Err(_) => None,
    }
}

/// A name for the normalized rendering a URL string parses to: a function
/// of the string alone; nothing when the string does not parse.
pub uninterp spec fn url_norm_of(s: Seq<char>) -> Option<Seq<char>>;

/// Relies on `url::Url::parse` and the `Display` rendering of `url::Url`:
/// the parsed URL written back out.
#[verifier::external_body]
pub(crate) fn url_normalize(s: &str) -> (r: Option<String>)
    ensures
        r.deep_view() == url_norm_of(s@),
{
    match url::Url::parse(s) {
        Ok(u) => Some(u.to_string()),
        Err(_) => None,
    }
}

/// Whether a URL string parses: the site URL must before the
/// subscription list can reference self-referential channels under it.
pub fn url_is_valid(s: &str) -> (r: bool)
    ensures
        r == (url_norm_of(s@) is Some),
{
    url_normalize(s).is_some()
}

/// A name for what readability extraction yields on raw content against a
/// base URL: the readable content and its bare text, a function of both
/// inputs alone; nothing for any extraction failure.
pub uninterp spec fn extraction_of(content: Seq<char>, base_url: Seq<char>)
    -> Option<(Seq<char>, Seq<char>)>;

/// Relies on `readability_liveboat::extractor::extract`: readability
/// extraction over the given bytes with the given base URL.
#[verifier::external_body]
fn extract_readable(content: &str, base_url: &str) -> (r: Option<(String, String)>)
    ensures
        (match r {
            Some(p) => extraction_of(content@, base_url@) == Some((p.0@, p.1@)),
            None => extraction_of(content@, base_url@) is None,
        }),
{
    let url = match url::Url::parse(base_url) {
        Ok(u) => u,
        Err(_) => {
            return None;
        },
    };
    match readability_liveboat::extractor::extract(&mut content.as_bytes(), &url) {
        Ok(p) => Some((p.content, p.text)),
        Err(_) => None,
    }
}

/// Relies on `readability_liveboat::extractor::scrape`: fetches the URL
/// over the network and runs readability extraction on the response. The
/// outcome depends on the remote server, so nothing is promised of it.
/// The crate unwraps the response's content-type header before it is
/// checked, so a server sending a header that is not visible ASCII
/// aborts the process inside the call; no precondition here can exclude
/// that, since it depends on the network alone.
#[verifier::external_body]
fn scrape_readable(url: &str) -> (r: Option<(String, String)>) {
    match readability_liveboat::extractor::scrape(url) {
        Ok(p) => Some((p.content, p.text)),
        Err(_) => None,
    }
}

// ---------------------------------------------------------------------------
// Domain classification.
// ---------------------------------------------------------------------------

/// Reddit's own domains: a resolved link landing on one of these is not a
/// direct link worth following.
pub open spec fn is_reddit_self_domain(d: Seq<char>) -> bool {
    d == "www.reddit.com"@ || d == "i.redd.it"@ || d == "old.reddit.com"@
        || d == "new.reddit.com"@
}

fn reddit_self_domain(d: &str) -> (r: bool)
    ensures
        r == is_reddit_self_domain(d@),
{
    str_eq(d, "www.reddit.com") || str_eq(d, "i.redd.it") || str_eq(d, "old.reddit.com")
        || str_eq(d, "new.reddit.com")
}

/// Hosts excluded from remote fetching.
pub open spec fn scrape_excluded_host(h: Seq<char>) -> bool {
    contains_from(h, "github.com"@, 0) || contains_from(h, "github.io"@, 0)
        || contains_from(h, "bloomberg.com"@, 0) || contains_from(h, "youtube.com"@, 0)
}

fn is_scrape_excluded(h: &str) -> (r: bool)
    ensures
        r == scrape_excluded_host(h@),
{
    str_contains(h, "github.com") || str_contains(h, "github.io")
        || str_contains(h, "bloomberg.com") || str_contains(h, "youtube.com")
}

// ---------------------------------------------------------------------------
// Anchor scanning: this system's own grammar for pulling link targets out
// of raw article markup.
// ---------------------------------------------------------------------------

/// Quote characters skipped between `=` and an attribute value.
pub open spec fn is_quote(c: char) -> bool {
    c == '\'' || c == '"'
}

/// The first index at or after `k`, and at most `end`, holding something
/// other than a quote character.
pub open spec fn skip_quotes(s: Seq<char>, k: nat, end: nat) -> nat
    decreases end - k when k <= end <= s.len()
{
    if k < end && is_quote(s[k as int]) {
        skip_quotes(s, (k + 1) as nat, end)
    } else {
        k
    }
}

/// The end of an attribute value starting at `k`: the first quote or `>`
/// at or after `k`, capped at `end`.
pub open spec fn value_end(s: Seq<char>, k: nat, end: nat) -> nat
    decreases end - k when k <= end <= s.len()
{
    if k < end && !(is_quote(s[k as int]) || s[k as int] == '>') {
        value_end(s, (k + 1) as nat, end)
    } else {
        k
    }
}

/// The character range of the first `href` attribute value between
/// `start` and `end`: after the literal `href`, one optional blank, `=`,
/// any quote characters, then the value, which runs to the next quote or
/// tag close.
pub open spec fn href_value_in(s: Seq<char>, start: nat, end: nat) -> Option<(nat, nat)> {
    match first_match_from(s, "href"@, start) {
        None => None,
        Some(h) => {
            if h + 4 < end {
                let k0 = (h + 4) as nat;
                let k1 = if s[k0 as int] == ' ' || s[k0 as int] == '\t' {
                    (k0 + 1) as nat
                } else {
                    k0
                };
                if k1 < end && s[k1 as int] == '=' {
                    let a = skip_quotes(s, (k1 + 1) as nat, end);
                    let b = value_end(s, a, end);
                    Some((a, b))
                } else {
                    None
                }
            } else {
                None
            }
        },
    }
}

fn href_value(v: &Vec<char>, start: usize, end: usize) -> (r: Option<(usize, usize)>)
    requires
        start <= end <= v@.len(),
    ensures
        (match r {
            Some(p) => href_value_in(v@, start as nat, end as nat)
                == Some((p.0 as nat, p.1 as nat)) && p.0 <= p.1 <= end,
            None => href_value_in(v@, start as nat, end as nat) is None,
        }),
{
    let pat = to_chars("href");
    let h = match find_from(v, &pat, start) {
        None => {
            return None;
        },
        Some(h) => h,
    };
    proof {
        lemma_first_match_from(v@, "href"@, start as nat);
    }
    if h >= end || end - h <= 4 {
        return None;
    }
    let mut k = h + 4;
    if v[k] == ' ' || v[k] == '\t' {
        k += 1;
    }
    if k >= end || v[k] != '=' {
        return None;
    }
    k += 1;
    let ghost k_start = k as nat;
    while k < end && (v[k] == '\'' || v[k] == '"')
        invariant
            k_start <= k <= end <= v@.len(),
            skip_quotes(v@, k_start, end as nat) == skip_quotes(v@, k as nat, end as nat),
        decreases end - k
    {
        proof {
            reveal_with_fuel(skip_quotes, 2);
        }
        k += 1;
    }
    proof {
        reveal_with_fuel(skip_quotes, 1);
        assert(skip_quotes(v@, k_start, end as nat) == k as nat);
    }
    let a = k;
    let mut b = a;
    while b < end && v[b] != '\'' && v[b] != '"' && v[b] != '>'
        invariant
            a <= b <= end <= v@.len(),
            value_end(v@, a as nat, end as nat) == value_end(v@, b as nat, end as nat),
        decreases end - b
    {
        proof {
            reveal_with_fuel(value_end, 2);
        }
        b += 1;
    }
    proof {
        reveal_with_fuel(value_end, 1);
        assert(value_end(v@, a as nat, end as nat) == b as nat);
    }
    Some((a, b))
}

/// The direct-link target of a Reddit article body: the `href` of the
/// anchor whose text is exactly `[link]`.
pub open spec fn reddit_target_of(content: Seq<char>) -> Option<Seq<char>> {
    match first_match_from(content, ">[link]</a>"@, 0) {
        None => None,
        Some(t) => match last_match_before(content, "<a"@, t) {
            None => None,
            Some(a) => match href_value_in(content, a, t) {
                None => None,
                Some(p) => Some(content.subrange(p.0 as int, p.1 as int)),
            },
        },
    }
}

/// Find the direct-link target in a Reddit article body.
pub fn find_reddit_target(content: &str) -> (r: Option<String>)
    ensures
        r.deep_view() == reddit_target_of(content@),
{
    let v = to_chars(content);
    let t_pat = to_chars(">[link]</a>");
    let t = match find_from(&v, &t_pat, 0) {
        None => {
            return None;
        },
        Some(t) => t,
    };
    proof {
        lemma_first_match_from(v@, ">[link]</a>"@, 0);
        reveal_strlit(">[link]</a>");
    }
    let a_pat = to_chars("<a");
    let a = match rfind_before(&v, &a_pat, t) {
        None => {
            return None;
        },
        Some(a) => a,
    };
    proof {
        lemma_last_match_before(v@, "<a"@, t as nat);
    }
    match href_value(&v, a, t) {
        None => None,
        Some(p) => Some(chars_string(&v, p.0, p.1)),
    }
}

/// The comments link of an item from the `hnrss.org` service: the `href`
/// following the literal `Comments URL:` text.
pub open spec fn hnrss_comments_of(content: Seq<char>) -> Option<Seq<char>> {
    match first_match_from(content, "<p>Comments URL: <a"@, 0) {
        None => None,
        Some(p) => match href_value_in(content, p, content.len()) {
            None => None,
            Some(q) => Some(content.subrange(q.0 as int, q.1 as int)),
        },
    }
}

/// Find the comments link in an `hnrss.org` item body.
pub fn find_hnrss_comments(content: &str) -> (r: Option<String>)
    ensures
        r.deep_view() == hnrss_comments_of(content@),
{
    let v = to_chars(content);
    let pat = to_chars("<p>Comments URL: <a");
    let p = match find_from(&v, &pat, 0) {
        None => {
            return None;
        },
        Some(p) => p,
    };
    proof {
        lemma_first_match_from(v@, "<p>Comments URL: <a"@, 0);
    }
    match href_value(&v, p, v.len()) {
        None => None,
        Some(q) => Some(chars_string(&v, q.0, q.1)),
    }
}

/// The comments link of an item from the native Hacker News feed: the
/// `href` of the first anchor in the body.
pub open spec fn native_hn_comments_of(content: Seq<char>) -> Option<Seq<char>> {
    match first_match_from(content, "<a"@, 0) {
        None => None,
        Some(p) => match href_value_in(content, p, content.len()) {
            None => None,
            Some(q) => Some(content.subrange(q.0 as int, q.1 as int)),
        },
    }
}

/// Find the comments link in a native Hacker News item body.
pub fn find_native_hn_comments(content: &str) -> (r: Option<String>)
    ensures
        r.deep_view() == native_hn_comments_of(content@),
{
    let v = to_chars(content);
    let pat = to_chars("<a");
    let p = match find_from(&v, &pat, 0) {
        None => {
            return None;
        },
        Some(p) => p,
    };
    proof {
        lemma_first_match_from(v@, "<a"@, 0);
    }
    match href_value(&v, p, v.len()) {
        None => None,
        Some(q) => Some(chars_string(&v, q.0, q.1)),
    }
}

// ---------------------------------------------------------------------------
// The enrichment decision.
// ---------------------------------------------------------------------------

/// What the enrichment pipeline decided for one article: the working URL
/// (possibly rewritten), the comments link, and whether to fetch the page
/// remotely before extraction.
#[verifier::ext_equal]
pub struct PlanView {
    pub url: Seq<char>,
    pub comments_url: Option<Seq<char>>,
    pub scrape: bool,
}

/// Reddit direct-link resolution: applies on articles hosted at
/// `www.reddit.com` whose body carries a `[link]` anchor with a
/// parseable, non-self-referential target. Yields the normalized target.
pub open spec fn reddit_resolution(url: Seq<char>, content: Seq<char>) -> Option<Seq<char>> {
    if url_host_of(url) == Some("www.reddit.com"@) {
        match reddit_target_of(content) {
            None => None,
            Some(t) => match (url_norm_of(t), url_host_of(t)) {
                (Some(norm), Some(d)) => if is_reddit_self_domain(d) {
                    None
                } else {
                    Some(norm)
                },
                _ => None,
            },
        }
    } else {
        None
    }
}

/// Hacker-News comment-link resolution. `Err` stands for an unparseable
/// feed URL or site link where one is needed; `Ok(None)` for no decision;
/// `Ok(Some((comments, scrape)))` for a found comments link and whether
/// the page should be fetched remotely.
pub open spec fn hn_resolution(
    url: Seq<char>,
    feedlink: Seq<char>,
    feed_url: Seq<char>,
    content: Seq<char>,
) -> Result<Option<(Seq<char>, bool)>, ContentError> {
    if url_path_of(url) == Some("news.ycombinator.com"@) {
        Ok(Some((url_norm_of(url).unwrap(), false)))
    } else if url_norm_of(feed_url) is None {
        Err(ContentError::InvalidFeedUrl)
    } else {
        match url_host_of(feed_url) {
            None => Ok(None::<(Seq<char>, bool)>),
            Some(h) => if h == "hnrss.org"@ {
                if url_norm_of(feedlink) is None {
                    Err(ContentError::InvalidFeedUrl)
                } else {
                    match hnrss_comments_of(content) {
                        None => Ok(None::<(Seq<char>, bool)>),
                        Some(c) => Ok(Some((c, url_path_of(feedlink) != Some("/ask"@)))),
                    }
                }
            } else if h == "news.ycombinator.com"@ {
                match native_hn_comments_of(content) {
                    None => Ok(None::<(Seq<char>, bool)>),
                    Some(c) => Ok(Some((c, true))),
                }
            } else {
                Ok(None::<(Seq<char>, bool)>)
            },
        }
    }
}

/// The full enrichment decision for one article, in order: the article
/// URL must parse; Reddit resolution first, Hacker-News resolution next
/// (each only when enabled); finally the fixed host exclusion switches
/// remote fetching off.
pub open spec fn enrich_plan(
    url: Seq<char>,
    feedlink: Seq<char>,
    feed_url: Seq<char>,
    content: Seq<char>,
    scrape_reddit: bool,
    scrape_hn: bool,
) -> Result<PlanView, ContentError> {
    if url_norm_of(url) is None {
        Err(ContentError::InvalidUrl)
    } else {
        let red = if scrape_reddit {
            reddit_resolution(url, content)
        } else {
            None
        };
        let base = match red {
            Some(norm) => Ok(PlanView { url: norm, comments_url: Some(url), scrape: true }),
            None => if scrape_hn {
                match hn_resolution(url, feedlink, feed_url, content) {
                    Err(e) => Err(e),
                    Ok(None) => Ok(PlanView { url, comments_url: None, scrape: false }),
                    Ok(Some(hc)) => Ok(PlanView {
                        url,
                        comments_url: Some(hc.0),
                        scrape: hc.1,
                    }),
                }
            } else {
                Ok(PlanView { url, comments_url: None, scrape: false })
            },
        };
        match base {
            Err(e) => Err(e),
            Ok(p) => {
                let excluded = match url_host_of(p.url) {
                    Some(h) => scrape_excluded_host(h),
                    None => false,
                };
                Ok(PlanView { scrape: p.scrape && !excluded, ..p })
            },
        }
    }
}

// ---------------------------------------------------------------------------
// The pipeline itself.
// ---------------------------------------------------------------------------

/// The outcome of processing one article's content.
pub struct ContentProcessingResult {
    /// The readable content, or empty on extraction failure.
    pub content: String,
    /// The bare extracted text, or empty on extraction failure.
    pub text: String,
    /// The working URL of the article, rewritten by Reddit resolution.
    pub url: String,
    /// The comments link, when one was resolved.
    pub comments_url: Option<String>,
}

impl ContentProcessingResult {
    /// Length of the extracted bare text, in bytes.
    pub fn content_length(&self) -> (r: usize)
        ensures
            r == vstd::utf8::encode_utf8(self.text@).len() as usize,
    {
        let s = self.text.as_str();
        let n = s.len();
        proof {
            assert(s.spec_bytes() == vstd::utf8::encode_utf8(s@));
        }
        n
    }
}

/// Process one article's content: decide the working URL, comments link
/// and fetch mode (see [`enrich_plan`]), then extract readable content —
/// remotely when fetching is on, else from the raw content itself. An
/// extraction failure is recovered locally: the content comes back empty
/// and the build goes on.
pub fn process_article_content(
    url_string: &String,
    feedlink: &String,
    feed_url: &String,
    original_content: &String,
    options: &Options,
) -> (r: Result<ContentProcessingResult, ContentError>)
    ensures
        ({
            let plan = enrich_plan(url_string@, feedlink@, feed_url@, original_content@,
                options.scrape_reddit_links, options.scrape_hn_links);
            match r {
                Ok(res) => plan is Ok && {
                    let p = plan.unwrap();
                    &&& res.url@ == p.url
                    &&& res.comments_url.deep_view() == p.comments_url
                    &&& (!p.scrape ==> (match extraction_of(original_content@, p.url) {
                        Some(e) => res.content@ == e.0 && res.text@ == e.1,
                        None => res.content@ == Seq::<char>::empty()
                            && res.text@ == Seq::<char>::empty(),
                    }))
                },
                Err(e) => plan == Err::<PlanView, ContentError>(e),
            }
        }),
{
    if url_normalize(url_string.as_str()).is_none() {
        return Err(ContentError::InvalidUrl);
    }
    let mut scrape = false;
    let mut result_url: String = url_string.clone();
    let mut comments: Option<String> = None;
    if options.scrape_reddit_links {
        let host = url_host(url_string.as_str());
        let is_reddit = match &host {
            Some(h) => str_eq(h.as_str(), "www.reddit.com"),
            None => false,
        };
        if is_reddit {
            match find_reddit_target(original_content.as_str()) {
                Some(t) => {
                    match url_normalize(t.as_str()) {
                        Some(norm) => match url_host(t.as_str()) {
                            Some(d) => {
                                if !reddit_self_domain(d.as_str()) {
                                    comments = Some(url_string.clone());
                                    result_url = norm;
                                    scrape = true;
                                }
                            },
                            None => {},
                        },
                        None => {},
                    }
                },
                None => {},
            }
        }
    }
    if options.scrape_hn_links && !scrape {
        let path0 = url_path(url_string.as_str());
        let is_self_path = match &path0 {
            Some(p) => str_eq(p.as_str(), "news.ycombinator.com"),
            None => false,
        };
        if is_self_path {
            match url_normalize(url_string.as_str()) {
                Some(n) => {
                    comments = Some(n);
                },
                None => {},
            }
        } else {
            if url_normalize(feed_url.as_str()).is_none() {
                return Err(ContentError::InvalidFeedUrl);
            }
            match url_host(feed_url.as_str()) {
                None => {},
                Some(h) => {
                    if str_eq(h.as_str(), "hnrss.org") {
                        if url_normalize(feedlink.as_str()).is_none() {
                            return Err(ContentError::InvalidFeedUrl);
                        }
                        match find_hnrss_comments(original_content.as_str()) {
                            None => {},
                            Some(c) => {
                                comments = Some(c);
                                let fpath = url_path(feedlink.as_str());
                                scrape = match &fpath {
                                    Some(p) => !str_eq(p.as_str(), "/ask"),
                                    None => true,
                                };
                            },
                        }
                    } else if str_eq(h.as_str(), "news.ycombinator.com") {
                        match find_native_hn_comments(original_content.as_str()) {
                            None => {},
                            Some(c) => {
                                comments = Some(c);
                                scrape = true;
                            },
                        }
                    }
                },
            }
        }
    }
    let host_w = url_host(result_url.as_str());
    let excluded = match &host_w {
        Some(h) => is_scrape_excluded(h.as_str()),
        None => false,
    };
    if excluded {
        scrape = false;
    }
    let extracted = if scrape {
        scrape_readable(result_url.as_str())
    } else {
        extract_readable(original_content.as_str(), result_url.as_str())
    };
    let (content_s, text_s) = match extracted {
        Some(p) => p,
        None => (String::new(), String::new()),
    };
    Ok(ContentProcessingResult {
        content: content_s,
        text: text_s,
        url: result_url,
        comments_url: comments,
    })
}

} // verus!
