use vstd::prelude::*;

use crate::errors::UrlReaderError;
use crate::feed_item::{clone_opt_string, clone_string_vec};
use crate::text::{split_spec, split_at_char, starts_with_spec, to_chars, chars_string};

verus! {

// ---------------------------------------------------------------------------
// Trusted view of the subscription-file tokenizer and filter parser.
// ---------------------------------------------------------------------------

/// A name for what `libnewsboat::utils::tokenize_quoted` returns: the
/// tokens of a line, honouring quoting, backslash escapes and `#`
/// comments. The result is a function of the line and delimiter set alone.
pub uninterp spec fn tokens_of(line: Seq<char>, delimiters: Seq<char>) -> Seq<Seq<char>>;

/// Relies on `libnewsboat::utils::tokenize_quoted`: splits a line into
/// quoted tokens, dropping `#` comments.
#[verifier::external_body]
fn tokenize_quoted(line: &str, delimiters: &str) -> (r: Vec<String>)
    ensures
        r.deep_view() == tokens_of(line@, delimiters@),
{
    libnewsboat::utils::tokenize_quoted(line, delimiters)
}

/// Relies on `libnewsboat::utils::is_http_url`, whose source tests
/// exactly for an `https://` or `http://` prefix.
pub assume_specification [ libnewsboat::utils::is_http_url ](url: &str) -> (r: bool)
    ensures
        r == (starts_with_spec(url@, "https://"@) || starts_with_spec(url@, "http://"@)),
;

/// Relies on `libnewsboat::utils::is_query_url`, whose source tests
/// exactly for a `query:` prefix.
pub assume_specification [ libnewsboat::utils::is_query_url ](url: &str) -> (r: bool)
    ensures
        r == starts_with_spec(url@, "query:"@),
;

/// The compiled filter expression of the external evaluator. This system
/// never inspects it; it only carries it from the subscription file to
/// the code that matches articles.
#[verifier::external_type_specification]
#[verifier::external_body]
pub struct ExMatcher(libnewsboat::matcher::Matcher);

/// A name for whether `libnewsboat::matcher::Matcher::parse` accepts a
/// filter expression: acceptance is a function of the expression alone.
pub uninterp spec fn matcher_accepts(s: Seq<char>) -> bool;

/// Relies on `libnewsboat::matcher::Matcher::parse`: parses a filter
/// expression, returning an error message when the expression is
/// rejected.
pub assume_specification [ libnewsboat::matcher::Matcher::parse ](input: &str)
    -> (r: Result<libnewsboat::matcher::Matcher, String>)
    ensures
        r is Ok <==> matcher_accepts(input@),
;

// ---------------------------------------------------------------------------
// Declarations read from the subscription file.
// ---------------------------------------------------------------------------

/// A URL-backed feed declaration: one per subscription-file line.
pub struct URLFeed {
    /// The feed URL, the line's first token.
    pub url: String,
    /// Tag tokens of the line.
    pub tags: Vec<String>,
    /// Whether the line carries the hidden marker `!`.
    pub hidden: bool,
    /// Title override, from the last `~`-prefixed token.
    pub title_override: Option<String>,
    /// Index of the line in the subscription file.
    pub line_no: usize,
}

impl Clone for URLFeed {
    fn clone(&self) -> (r: Self)
        ensures
            r.url == self.url,
            r.tags@ == self.tags@,
            r.hidden == self.hidden,
            r.title_override == self.title_override,
            r.line_no == self.line_no,
    {
        URLFeed {
            url: self.url.clone(),
            tags: clone_string_vec(&self.tags),
            hidden: self.hidden,
            title_override: clone_opt_string(&self.title_override),
            line_no: self.line_no,
        }
    }
}

/// A query-feed declaration: a title, its line position, and the opaque
/// filter predicate of the external evaluator.
pub struct QueryFeed {
    /// Title of the query feed.
    pub title: String,
    /// Index of the line in the subscription file.
    pub line_no: usize,
    /// The compiled filter expression.
    pub matcher: libnewsboat::matcher::Matcher,
}

// ---------------------------------------------------------------------------
// Line selection.
// ---------------------------------------------------------------------------

/// Whitespace, as the blank-line test recognizes it: the characters
/// Rust's trimming treats as whitespace.
pub open spec fn is_ws(c: char) -> bool {
    ||| c == ' ' || c == '\t' || c == '\r' || c == '\n'
    ||| c == '\u{0B}' || c == '\u{0C}' || c == '\u{85}' || c == '\u{A0}'
    ||| c == '\u{1680}'
    ||| ('\u{2000}' <= c && c <= '\u{200A}')
    ||| c == '\u{2028}' || c == '\u{2029}' || c == '\u{202F}' || c == '\u{205F}'
    ||| c == '\u{3000}'
}

/// A line is kept when its first non-whitespace character exists and is
/// not the comment marker `#`.
pub open spec fn line_kept_from(l: Seq<char>, from: nat) -> bool
    decreases l.len() - from when from <= l.len()
{
    if from >= l.len() {
        false
    } else if is_ws(l[from as int]) {
        line_kept_from(l, (from + 1) as nat)
    } else {
        l[from as int] != '#'
    }
}

/// A carriage return left at the end of a line by `\r\n` endings is not
/// part of the line.
pub open spec fn strip_cr(l: Seq<char>) -> Seq<char> {
    if l.len() > 0 && l.last() == '\r' {
        l.drop_last()
    } else {
        l
    }
}

/// The lines of the subscription file that carry content: split on
/// newlines, carriage returns stripped, empty and comment lines dropped.
pub open spec fn kept_lines(s: Seq<char>) -> Seq<Seq<char>> {
    split_spec(s, '\n').map_values(|l: Seq<char>| strip_cr(l))
        .filter(|l: Seq<char>| line_kept_from(l, 0))
}

fn line_kept(v: &Vec<char>) -> (r: bool)
    ensures
        r == line_kept_from(v@, 0),
{
    let n = v.len();
    let mut i: usize = 0;
    while i < n
        invariant
            n == v@.len(),
            i <= n,
            line_kept_from(v@, 0) == line_kept_from(v@, i as nat),
        decreases n - i
    {
        let c = v[i];
        if char_is_ws(c) {
            i += 1;
        } else {
            return c != '#';
        }
    }
    false
}

fn char_is_ws(c: char) -> (r: bool)
    ensures
        r == is_ws(c),
{
    c == ' ' || c == '\t' || c == '\r' || c == '\n'
        || c == '\u{0B}' || c == '\u{0C}' || c == '\u{85}' || c == '\u{A0}'
        || c == '\u{1680}'
        || ('\u{2000}' <= c && c <= '\u{200A}')
        || c == '\u{2028}' || c == '\u{2029}' || c == '\u{202F}' || c == '\u{205F}'
        || c == '\u{3000}'
}

// ---------------------------------------------------------------------------
// The reader itself.
// ---------------------------------------------------------------------------

/// Reads the user's subscription file into URL-feed and query-feed
/// declarations.
pub struct UrlReader {
    /// The content-carrying lines of the file, in order.
    pub lines: Vec<String>,
}

impl UrlReader {
    /// Read the subscription file, keeping only content-carrying lines.
    pub fn init(url_file: String) -> (r: UrlReader)
        ensures
            r.lines.deep_view() == kept_lines(url_file@),
    {
        let mut u = UrlReader { lines: Vec::new() };
        u.read(url_file);
        u
    }

    /// Split the file into lines, dropping comments and blank lines.
    fn read(&mut self, url_file: String)
        ensures
            final(self).lines.deep_view() == kept_lines(url_file@),
    {
        broadcast use vstd::seq_lib::group_seq_properties;

        let ghost keep = |l: Seq<char>| line_kept_from(l, 0);
        let ghost strip = |l: Seq<char>| strip_cr(l);
        let raw = split_at_char(url_file.as_str(), '\n');
        let ghost parts = split_spec(url_file@, '\n');
        let mut result: Vec<String> = Vec::new();
        let mut i: usize = 0;
        proof {
            assert(parts.subrange(0, 0).map_values(strip).filter(keep)
                =~~= Seq::<Seq<char>>::empty());
            assert(result.deep_view() =~~= Seq::<Seq<char>>::empty());
        }
        while i < raw.len()
            invariant
                raw.deep_view() == parts,
                i <= raw@.len(),
                raw@.len() == parts.len(),
                keep == (|l: Seq<char>| line_kept_from(l, 0)),
                strip == (|l: Seq<char>| strip_cr(l)),
                result.deep_view()
                    == parts.subrange(0, i as int).map_values(strip).filter(keep),
            decreases raw@.len() - i
        {
            proof {
                assert(parts.subrange(0, i + 1 as int)
                    =~= parts.subrange(0, i as int).push(parts[i as int]));
                assert(parts.subrange(0, i as int).map_values(strip).push(
                    strip(parts[i as int]))
                    =~= parts.subrange(0, i + 1 as int).map_values(strip));
                parts.subrange(0, i as int).map_values(strip).lemma_filter_push(
                    strip(parts[i as int]), keep);
            }
            let chars = to_chars(raw[i].as_str());
            let n = chars.len();
            let stripped: String;
            if n > 0 && chars[n - 1] == '\r' {
                stripped = chars_string(&chars, 0, n - 1);
                proof {
                    assert(chars@.subrange(0, n - 1 as int) =~= chars@.drop_last());
                }
            } else {
                stripped = chars_string(&chars, 0, n);
                proof {
                    assert(chars@.subrange(0, n as int) =~= chars@);
                }
            }
            proof {
                assert(stripped@ == strip(parts[i as int]));
            }
            let sv = to_chars(stripped.as_str());
            if line_kept(&sv) {
                let ghost pre = result.deep_view();
                result.push(stripped);
                proof {
                    assert(result.deep_view() =~~= pre.push(stripped@));
                }
            }
            i += 1;
        }
        proof {
            assert(parts.subrange(0, parts.len() as int) =~= parts);
        }
        self.lines = result;
    }
}


// ---------------------------------------------------------------------------
// Token shapes on a subscription line.
// ---------------------------------------------------------------------------

/// The delimiters a subscription line is tokenized with.
pub open spec fn feed_delims() -> Seq<char> {
    " \r\n\t"@
}

/// The hidden marker token.
pub open spec fn is_bang(t: Seq<char>) -> bool {
    t == "!"@
}

/// A title-override token, prefixed with `~`.
pub open spec fn is_tilde(t: Seq<char>) -> bool {
    t.len() > 0 && t[0] == '~'
}

/// A token that names a tag: neither the hidden marker nor an override.
pub open spec fn tag_pred() -> spec_fn(Seq<char>) -> bool {
    |t: Seq<char>| !is_bang(t) && !is_tilde(t)
}

/// Whether any token after the URL is the hidden marker, looking at
/// tokens `1..end`.
pub open spec fn hidden_upto(ts: Seq<Seq<char>>, end: int) -> bool {
    exists|k: int| 1 <= k < end && is_bang(ts[k])
}

/// The tags of a tokenized line: every token after the URL that is not a
/// marker, in order.
pub open spec fn tags_of(ts: Seq<Seq<char>>) -> Seq<Seq<char>> {
    ts.subrange(1, ts.len() as int).filter(tag_pred())
}

/// The last `~`-token strictly before `end` (and after the URL).
pub open spec fn last_tilde(ts: Seq<Seq<char>>, end: nat) -> Option<nat>
    decreases end
{
    if end <= 1 {
        None
    } else if is_tilde(ts[end - 1]) {
        Some((end - 1) as nat)
    } else {
        last_tilde(ts, (end - 1) as nat)
    }
}

/// The title override of a tokenized line: the last `~`-token with its
/// marker removed, if any.
pub open spec fn override_of(ts: Seq<Seq<char>>) -> Option<Seq<char>> {
    match last_tilde(ts, ts.len()) {
        Some(i) => Some(ts[i as int].drop_first()),
        None => None,
    }
}

/// Extending the hidden-marker scan by one token.
proof fn lemma_hidden_step(ts: Seq<Seq<char>>, i: int)
    requires
        1 <= i,
    ensures
        hidden_upto(ts, i + 1) == (hidden_upto(ts, i) || is_bang(ts[i])),
{
    if hidden_upto(ts, i + 1) {
        let k = choose|k: int| 1 <= k < i + 1 && is_bang(ts[k]);
        if k < i {
            assert(hidden_upto(ts, i));
        }
    }
    if hidden_upto(ts, i) {
        let k = choose|k: int| 1 <= k < i && is_bang(ts[k]);
        assert(1 <= k < i + 1 && is_bang(ts[k]));
        assert(hidden_upto(ts, i + 1));
    }
    if is_bang(ts[i]) {
        assert(1 <= i < i + 1 && is_bang(ts[i]));
        assert(hidden_upto(ts, i + 1));
    }
}

/// Whether declaration `u` is what the tokenized line `ts`, at position
/// `line_no`, declares.
pub open spec fn url_feed_matches(u: URLFeed, ts: Seq<Seq<char>>, line_no: nat) -> bool {
    &&& u.url@ == ts[0]
    &&& u.tags.deep_view() == tags_of(ts)
    &&& u.hidden == hidden_upto(ts, ts.len() as int)
    &&& u.title_override.deep_view() == override_of(ts)
    &&& u.line_no as nat == line_no
}

/// A line that declares a URL-backed feed: its first token is an HTTP,
/// HTTPS or file URL.
pub open spec fn is_feed_line(l: Seq<char>) -> bool {
    let ts = tokens_of(l, feed_delims());
    ts.len() > 0 && (starts_with_spec(ts[0], "https://"@) || starts_with_spec(ts[0], "http://"@)
        || starts_with_spec(ts[0], "file://"@))
}

/// The feed-line test over positions into `lines`.
pub open spec fn feed_line_pred(lines: Seq<Seq<char>>) -> spec_fn(int) -> bool {
    |k: int| is_feed_line(lines[k])
}

/// The positions of the feed lines among the first `upto` lines.
pub open spec fn feed_line_idxs(lines: Seq<Seq<char>>, upto: nat) -> Seq<int> {
    Seq::new(upto, |k: int| k).filter(feed_line_pred(lines))
}

/// A line that declares a query feed: its first token starts with `query:`.
pub open spec fn is_query_line(l: Seq<char>) -> bool {
    let ts = tokens_of(l, feed_delims());
    ts.len() > 0 && starts_with_spec(ts[0], "query:"@)
}

/// The colon-delimited parts of a query-feed declaration.
pub open spec fn query_parts_of(l: Seq<char>) -> Seq<Seq<char>> {
    tokens_of(tokens_of(l, feed_delims())[0], ":"@)
}

/// A malformed query-feed line: fewer than three colon-delimited parts,
/// or a filter expression the external evaluator rejects. Either is
/// fatal for the whole run.
pub open spec fn query_line_bad(l: Seq<char>) -> bool {
    is_query_line(l) && (query_parts_of(l).len() < 3 || !matcher_accepts(query_parts_of(l)[2]))
}

/// The query-line test over positions into `lines`.
pub open spec fn query_line_pred(lines: Seq<Seq<char>>) -> spec_fn(int) -> bool {
    |k: int| is_query_line(lines[k])
}

/// The positions of the query lines among the first `upto` lines.
pub open spec fn query_line_idxs(lines: Seq<Seq<char>>, upto: nat) -> Seq<int> {
    Seq::new(upto, |k: int| k).filter(query_line_pred(lines))
}

/// The first malformed query line at or after `from`, if any.
pub open spec fn first_bad_query(lines: Seq<Seq<char>>, from: nat) -> Option<nat>
    decreases lines.len() - from when from <= lines.len()
{
    if from >= lines.len() {
        None
    } else if query_line_bad(lines[from as int]) {
        Some(from)
    } else {
        first_bad_query(lines, (from + 1) as nat)
    }
}

impl UrlReader {
    /// Build the URL-feed declaration of one tokenized line: the URL is
    /// the first token; later tokens set tags, the hidden marker, and
    /// the title override (the last `~`-token wins).
    fn get_http_feed(&self, tokens: &Vec<String>, line_no: usize) -> (r: URLFeed)
        requires
            tokens@.len() >= 1,
        ensures
            url_feed_matches(r, tokens.deep_view(), line_no as nat),
    {
        broadcast use vstd::seq_lib::group_seq_properties;

        let ghost ts = tokens.deep_view();
        let mut feed = URLFeed {
            url: tokens[0].clone(),
            tags: Vec::new(),
            hidden: false,
            title_override: None,
            line_no,
        };
        let l = tokens.len();
        let mut i: usize = 1;
        proof {
            assert(ts.subrange(1, 1).filter(tag_pred()) =~~= Seq::<Seq<char>>::empty());
            assert(feed.tags.deep_view() =~~= Seq::<Seq<char>>::empty());
        }
        while i < l
            invariant
                ts == tokens.deep_view(),
                l == ts.len(),
                1 <= i <= l,
                feed.url@ == ts[0],
                feed.line_no == line_no,
                feed.tags.deep_view() == ts.subrange(1, i as int).filter(tag_pred()),
                feed.hidden == hidden_upto(ts, i as int),
                feed.title_override.deep_view() == (match last_tilde(ts, i as nat) {
                    Some(k) => Some(ts[k as int].drop_first()),
                    None => None::<Seq<char>>,
                }),
            decreases l - i
        {
            proof {
                assert(ts.subrange(1, i + 1 as int)
                    =~= ts.subrange(1, i as int).push(ts[i as int]));
                ts.subrange(1, i as int).lemma_filter_push(ts[i as int], tag_pred());
            }
            proof {
                lemma_hidden_step(ts, i as int);
            }
            let token = &tokens[i];
            let chars = to_chars(token.as_str());
            if chars.len() > 0 && chars[0] == '~' {
                let t_override = chars_string(&chars, 1, chars.len());
                proof {
                    assert(chars@.subrange(1, chars@.len() as int) =~= ts[i as int].drop_first());
                    reveal_strlit("!");
                    assert(!is_bang(ts[i as int]));
                }
                feed.title_override = Some(t_override);
            } else if str_eq_bang(token) {
                feed.hidden = true;
            } else {
                let ghost pre = feed.tags.deep_view();
                feed.tags.push(token.clone());
                proof {
                    assert(feed.tags.deep_view() =~~= pre.push(ts[i as int]));
                }
            }
            i += 1;
        }
        proof {
            assert(ts.subrange(1, ts.len() as int).filter(tag_pred())
                == feed.tags.deep_view());
        }
        feed
    }

    /// The URL-feed declarations of the subscription file, in file order,
    /// one per line whose first token is an HTTP, HTTPS or file URL.
    pub fn get_url_feeds(&self) -> (r: Vec<URLFeed>)
        ensures
            ({
                let lines = self.lines.deep_view();
                let idxs = feed_line_idxs(lines, lines.len());
                &&& r@.len() == idxs.len()
                &&& forall|k: int| 0 <= k < idxs.len()
                    ==> url_feed_matches(#[trigger] r@[k],
                        tokens_of(lines[idxs[k]], feed_delims()), idxs[k] as nat)
            }),
    {
        broadcast use vstd::seq_lib::group_seq_properties;

        let ghost lines = self.lines.deep_view();
        let ghost pred = feed_line_pred(lines);
        let mut result: Vec<URLFeed> = Vec::new();
        let linel = self.lines.len();
        let mut line_no: usize = 0;
        proof {
            assert(Seq::new(0, |k: int| k).filter(pred) =~= Seq::<int>::empty());
        }
        while line_no < linel
            invariant
                lines == self.lines.deep_view(),
                pred == feed_line_pred(lines),
                linel == lines.len(),
                line_no <= linel,
                result@.len() == feed_line_idxs(lines, line_no as nat).len(),
                forall|k: int| 0 <= k < result@.len()
                    ==> url_feed_matches(#[trigger] result@[k],
                        tokens_of(lines[feed_line_idxs(lines, line_no as nat)[k]],
                            feed_delims()),
                        feed_line_idxs(lines, line_no as nat)[k] as nat),
            decreases linel - line_no
        {
            proof {
                assert(Seq::new((line_no + 1) as nat, |k: int| k)
                    =~= Seq::new(line_no as nat, |k: int| k).push(line_no as int));
                Seq::new(line_no as nat, |k: int| k).lemma_filter_push(
                    line_no as int, pred);
            }
            let tokens = tokenize_quoted(self.lines[line_no].as_str(), " \r\n\t");
            if tokens.len() == 0 {
                proof {
                    assert(!pred(line_no as int));
                }
                line_no += 1;
                continue;
            }
            let is_http = libnewsboat::utils::is_http_url(tokens[0].as_str());
            let is_file = crate::text::str_starts_with(tokens[0].as_str(), "file://");
            if !is_http && !is_file {
                proof {
                    assert(tokens.deep_view()[0] == tokens@[0]@);
                    assert(!pred(line_no as int));
                }
                line_no += 1;
                continue;
            }
            proof {
                assert(tokens.deep_view()[0] == tokens@[0]@);
                assert(pred(line_no as int));
            }
            let feed = self.get_http_feed(&tokens, line_no);
            result.push(feed);
            proof {
                let idxs = feed_line_idxs(lines, (line_no + 1) as nat);
                assert(idxs == feed_line_idxs(lines, line_no as nat).push(line_no as int));
                assert(idxs[idxs.len() - 1] == line_no as int);
                assert(forall|k: int| 0 <= k < idxs.len() - 1
                    ==> idxs[k] == feed_line_idxs(lines, line_no as nat)[k]);
            }
            line_no += 1;
        }
        result
    }

    /// The query-feed declarations of the subscription file, in file
    /// order. A malformed declaration — fewer than three colon-delimited
    /// parts, or a filter the external evaluator rejects — fails the
    /// whole read: the first such line decides the error.
    pub fn get_query_urls(&self) -> (r: Result<Vec<QueryFeed>, UrlReaderError>)
        ensures
            ({
                let lines = self.lines.deep_view();
                &&& (r is Ok <==> first_bad_query(lines, 0) is None)
                &&& (match r {
                    Ok(v) => {
                        let idxs = query_line_idxs(lines, lines.len());
                        &&& v@.len() == idxs.len()
                        &&& forall|k: int| 0 <= k < idxs.len() ==> {
                            &&& (#[trigger] v@[k]).title@
                                == query_parts_of(lines[idxs[k]])[1]
                            &&& v@[k].line_no as nat == idxs[k] as nat
                        }
                    },
                    Err(e) => {
                        let i = first_bad_query(lines, 0).unwrap() as int;
                        match e {
                            UrlReaderError::InvalidQueryError(s) =>
                                query_parts_of(lines[i]).len() < 3 && s@ == lines[i],
                            UrlReaderError::MatcherError(m) =>
                                query_parts_of(lines[i]).len() >= 3
                                    && !matcher_accepts(query_parts_of(lines[i])[2]),
                        }
                    },
                })
            }),
    {
        broadcast use vstd::seq_lib::group_seq_properties;

        let ghost lines = self.lines.deep_view();
        let ghost pred = query_line_pred(lines);
        let mut results: Vec<QueryFeed> = Vec::new();
        let linel = self.lines.len();
        let mut line_no: usize = 0;
        proof {
            assert(Seq::new(0, |k: int| k).filter(pred) =~= Seq::<int>::empty());
        }
        while line_no < linel
            invariant
                lines == self.lines.deep_view(),
                pred == query_line_pred(lines),
                linel == lines.len(),
                line_no <= linel,
                first_bad_query(lines, 0) == first_bad_query(lines, line_no as nat),
                results@.len() == query_line_idxs(lines, line_no as nat).len(),
                forall|k: int| 0 <= k < results@.len() ==> {
                    &&& (#[trigger] results@[k]).title@ == query_parts_of(
                        lines[query_line_idxs(lines, line_no as nat)[k]])[1]
                    &&& results@[k].line_no as nat
                        == query_line_idxs(lines, line_no as nat)[k] as nat
                },
            decreases linel - line_no
        {
            proof {
                reveal_with_fuel(first_bad_query, 2);
                assert(Seq::new((line_no + 1) as nat, |k: int| k)
                    =~= Seq::new(line_no as nat, |k: int| k).push(line_no as int));
                Seq::new(line_no as nat, |k: int| k).lemma_filter_push(
                    line_no as int, pred);
            }
            let tokens = tokenize_quoted(self.lines[line_no].as_str(), " \r\n\t");
            if tokens.len() == 0 {
                proof {
                    assert(!pred(line_no as int));
                    assert(!query_line_bad(lines[line_no as int]));
                }
                line_no += 1;
                continue;
            }
            let is_query = libnewsboat::utils::is_query_url(tokens[0].as_str());
            proof {
                assert(tokens.deep_view()[0] == tokens@[0]@);
            }
            if !is_query {
                proof {
                    assert(!pred(line_no as int));
                    assert(!query_line_bad(lines[line_no as int]));
                }
                line_no += 1;
                continue;
            }
            let parts = tokenize_quoted(tokens[0].as_str(), ":");
            proof {
                assert(parts.deep_view() == query_parts_of(lines[line_no as int]));
            }
            if parts.len() < 3 {
                proof {
                    assert(query_line_bad(lines[line_no as int]));
                    assert(first_bad_query(lines, line_no as nat) == Some(line_no as nat));
                }
                return Err(UrlReaderError::InvalidQueryError(self.lines[line_no].clone()));
            }
            match libnewsboat::matcher::Matcher::parse(parts[2].as_str()) {
                Ok(m) => {
                    proof {
                        assert(parts.deep_view()[2] == parts@[2]@);
                        assert(!query_line_bad(lines[line_no as int]));
                        assert(pred(line_no as int));
                    }
                    let q = QueryFeed {
                        title: parts[1].clone(),
                        matcher: m,
                        line_no,
                    };
                    results.push(q);
                    proof {
                        let idxs = query_line_idxs(lines, (line_no + 1) as nat);
                        assert(idxs
                            == query_line_idxs(lines, line_no as nat).push(line_no as int));
                        assert(idxs[idxs.len() - 1] == line_no as int);
                        assert(parts.deep_view()[1] == parts@[1]@);
                    }
                },
                Err(e) => {
                    proof {
                        assert(parts.deep_view()[2] == parts@[2]@);
                        assert(query_line_bad(lines[line_no as int]));
                        assert(first_bad_query(lines, line_no as nat)
                            == Some(line_no as nat));
                    }
                    return Err(UrlReaderError::MatcherError(e));
                },
            };
            line_no += 1;
        }
        proof {
            assert(first_bad_query(lines, linel as nat) is None);
        }
        Ok(results)
    }
}

/// Is this token exactly the hidden marker?
fn str_eq_bang(t: &String) -> (r: bool)
    ensures
        r == is_bang(t@),
{
    crate::text::str_eq(t.as_str(), "!")
}

} // verus!
