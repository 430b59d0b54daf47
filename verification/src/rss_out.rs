use vstd::prelude::*;

use crate::feed::{live_items_of, sorted_desc, Feed};
use crate::feed_item::{clone_opt_string, items_view, opt_str_view, FeedItem, FeedItemView};
use crate::opts::Options;
use crate::pipeline::lemma_view_multiset;

verus! {

// ---------------------------------------------------------------------------
// Trusted view of timestamp rendering and the RSS document model.
// ---------------------------------------------------------------------------

/// A name for the RFC 2822 rendering of an epoch timestamp: a function of
/// the timestamp alone; empty for a timestamp outside the years the
/// format can carry.
pub uninterp spec fn rfc2822_of(ts: int) -> Seq<char>;

/// First second of the year ten thousand: the RFC 2822 format stops at
/// four-digit years.
pub const RFC2822_YEAR_CEILING: i64 = 253402300800;

/// First second of the year zero, the format's floor.
pub const RFC2822_YEAR_FLOOR: i64 = -62167219200;

/// Relies on `chrono::DateTime::from_timestamp` and
/// `chrono::DateTime::to_rfc2822`: the timestamp written as an RFC 2822
/// date in UTC. The formatter aborts on years outside 0..=9999 though
/// `from_timestamp` accepts them, so such timestamps are answered with
/// the empty string here instead of being handed to it.
#[verifier::external_body]
pub(crate) fn rfc2822_utc(ts: i64) -> (r: String)
    ensures
        r@ == rfc2822_of(ts as int),
{
    if !(RFC2822_YEAR_FLOOR..RFC2822_YEAR_CEILING).contains(&ts) {
        return String::new();
    }
    match chrono::DateTime::from_timestamp(ts, 0) {
        Some(d) => d.to_rfc2822(),
        None => String::new(),
    }
}

/// One item of an RSS 2.0 channel, built by the `rss` crate.
#[verifier::external_type_specification]
#[verifier::external_body]
pub struct ExRssItem(rss::Item);

/// The source element of an RSS item.
#[verifier::external_type_specification]
#[verifier::external_body]
pub struct ExRssSource(rss::Source);

/// A category element of an RSS item.
#[verifier::external_type_specification]
#[verifier::external_body]
pub struct ExRssCategory(rss::Category);

/// An enclosure element of an RSS item.
#[verifier::external_type_specification]
#[verifier::external_body]
pub struct ExRssEnclosure(rss::Enclosure);

/// A name for the source element with the given title and URL: a
/// function of the two strings alone.
pub uninterp spec fn source_of(title: Seq<char>, url: Seq<char>) -> rss::Source;

/// Relies on the public fields of `rss::Source`: carries the given title
/// and URL into a source element.
#[verifier::external_body]
fn mk_source(title: String, url: String) -> (r: rss::Source)
    ensures
        r == source_of(title@, url@),
{
    rss::Source { title: Some(title), url }
}

/// A name for the category element with the given name and no domain: a
/// function of the name alone.
pub uninterp spec fn category_of(name: Seq<char>) -> rss::Category;

/// Relies on the public fields of `rss::Category`: carries the given name
/// into a category element, with no domain.
#[verifier::external_body]
fn mk_category(name: String) -> (r: rss::Category)
    ensures
        r == category_of(name@),
{
    rss::Category { name, domain: None }
}

/// A name for the enclosure element with the given URL, the given MIME
/// type and an empty length: a function of the two strings alone.
pub uninterp spec fn enclosure_of(url: Seq<char>, mime_type: Seq<char>) -> rss::Enclosure;

/// Relies on the public fields of `rss::Enclosure`: carries the given URL
/// and MIME type into an enclosure element, with an empty length.
#[verifier::external_body]
fn mk_enclosure(url: String, mime_type: String) -> (r: rss::Enclosure)
    ensures
        r == enclosure_of(url@, mime_type@),
{
    rss::Enclosure { url, length: String::new(), mime_type }
}

/// A name for the RSS item carrying exactly the given parts, the rest
/// left at their defaults: a function of the parts alone.
pub uninterp spec fn rss_item_of(
    title: Seq<char>,
    link: Seq<char>,
    author: Seq<char>,
    pub_date: Seq<char>,
    content: Option<Seq<char>>,
    source: Option<rss::Source>,
    categories: Seq<rss::Category>,
    enclosure: Option<rss::Enclosure>,
) -> rss::Item;

/// Relies on `rss::Item::default` and the public fields of `rss::Item`:
/// carries the given parts into an RSS item, leaving the rest at their
/// defaults.
#[verifier::external_body]
fn mk_rss_item(
    title: String,
    link: String,
    author: String,
    pub_date: String,
    content: Option<String>,
    source: Option<rss::Source>,
    categories: Vec<rss::Category>,
    enclosure: Option<rss::Enclosure>,
) -> (r: rss::Item)
    ensures
        r == rss_item_of(title@, link@, author@, pub_date@, content.deep_view(), source,
            categories@, enclosure),
{
    let mut it = rss::Item::default();
    it.title = Some(title);
    it.link = Some(link);
    it.author = Some(author);
    it.pub_date = Some(pub_date);
    it.content = content;
    it.source = source;
    it.categories = categories;
    it.enclosure = enclosure;
    it
}

/// A name for the RSS 2.0 document of a channel with the given title,
/// link, description and items: a function of those parts alone.
pub uninterp spec fn channel_doc_of(
    title: Seq<char>,
    link: Seq<char>,
    description: Seq<char>,
    items: Seq<rss::Item>,
) -> Seq<char>;

/// Relies on `rss::Channel::default`, its public fields, and its
/// `Display` rendering: the RSS 2.0 document for a channel with the given
/// title, link, description and items.
#[verifier::external_body]
fn channel_xml(title: String, link: String, description: String, items: Vec<rss::Item>)
    -> (r: String)
    ensures
        r@ == channel_doc_of(title@, link@, description@, items@),
{
    let mut ch = rss::Channel::default();
    ch.title = title;
    ch.link = link;
    ch.description = description;
    ch.items = items;
    ch.to_string()
}

// ---------------------------------------------------------------------------
// Aggregation: live windows of the non-hidden feeds, de-duplicated by
// guid, newest first.
// ---------------------------------------------------------------------------

/// The live windows of the first `upto` non-hidden feeds, in feed order.
pub open spec fn live_concat(feeds: Seq<Feed>, now: int, upto: int) -> Seq<FeedItem>
    decreases upto
{
    if upto <= 0 {
        Seq::<FeedItem>::empty()
    } else {
        live_concat(feeds, now, upto - 1) + if !feeds[upto - 1].hidden {
            live_items_of(feeds[upto - 1].items@, now)
        } else {
            Seq::<FeedItem>::empty()
        }
    }
}

/// Some article view of `items` carries guid `g`.
pub open spec fn vguid_in(items: Seq<FeedItemView>, g: int) -> bool {
    exists|i: int| 0 <= i < items.len() && items[i].guid == g
}

/// `items` with every article dropped whose guid appeared earlier: the
/// first occurrence of each guid is retained.
pub open spec fn vdedup(items: Seq<FeedItemView>) -> Seq<FeedItemView>
    decreases items.len()
{
    if items.len() == 0 {
        items
    } else {
        let prefix = vdedup(items.drop_last());
        if vguid_in(items.drop_last(), items.last().guid) {
            prefix
        } else {
            prefix.push(items.last())
        }
    }
}

/// No two article views share a guid.
pub open spec fn vdistinct(items: Seq<FeedItemView>) -> bool {
    forall|i: int, j: int| 0 <= i < j < items.len() ==> items[i].guid != items[j].guid
}

/// No two articles share a guid.
pub open spec fn distinct_guids(items: Seq<FeedItem>) -> bool {
    forall|i: int, j: int| 0 <= i < j < items.len() ==> items[i].guid != items[j].guid
}

/// De-duplication retains each guid exactly once: the result has distinct
/// guids and carries exactly the guids of the input.
proof fn lemma_vdedup_guids(items: Seq<FeedItemView>)
    ensures
        vdistinct(vdedup(items)),
        forall|g: int| vguid_in(vdedup(items), g) == vguid_in(items, g),
    decreases items.len()
{
    if items.len() > 0 {
        lemma_vdedup_guids(items.drop_last());
        let d = vdedup(items);
        let dp = vdedup(items.drop_last());
        assert forall|g: int| vguid_in(d, g) == vguid_in(items, g) by {
            if vguid_in(items, g) {
                let i = choose|i: int| 0 <= i < items.len() && items[i].guid == g;
                if i < items.len() - 1 {
                    assert(items.drop_last()[i] == items[i]);
                    assert(vguid_in(items.drop_last(), g));
                    let j = choose|j: int| 0 <= j < dp.len() && dp[j].guid == g;
                    assert(d[j] == dp[j]);
                    assert(vguid_in(d, g));
                } else {
                    if vguid_in(items.drop_last(), items.last().guid) {
                        assert(vguid_in(items.drop_last(), g));
                        let j = choose|j: int| 0 <= j < dp.len() && dp[j].guid == g;
                        assert(d[j] == dp[j]);
                        assert(vguid_in(d, g));
                    } else {
                        assert(d.last() == items.last());
                        assert(vguid_in(d, g));
                    }
                }
            }
            if vguid_in(d, g) {
                let j = choose|j: int| 0 <= j < d.len() && d[j].guid == g;
                if j < dp.len() {
                    assert(dp[j] == d[j]);
                    assert(vguid_in(dp, g));
                    assert(vguid_in(items.drop_last(), g));
                    let i = choose|i: int| 0 <= i < items.drop_last().len()
                        && items.drop_last()[i].guid == g;
                    assert(items[i] == items.drop_last()[i]);
                    assert(vguid_in(items, g));
                } else {
                    assert(d[j] == items.last());
                    assert(items[items.len() - 1].guid == g);
                    assert(vguid_in(items, g));
                }
            }
        }
        assert forall|a: int, b: int| 0 <= a < b < d.len() implies
            d[a].guid != d[b].guid by {
            if b < dp.len() {
                assert(d[a] == dp[a] && d[b] == dp[b]);
            } else if !vguid_in(items.drop_last(), items.last().guid) {
                assert(d[b] == items.last());
                assert(d[a] == dp[a]);
                assert(vguid_in(dp, dp[a].guid)) by {
                    assert(dp[a].guid == dp[a].guid);
                }
                assert(vguid_in(items.drop_last(), dp[a].guid));
            }
        }
    }
}

/// A multiset-preserving rearrangement keeps guids distinct.
proof fn lemma_vdistinct_multiset(s1: Seq<FeedItemView>, s2: Seq<FeedItemView>)
    requires
        s1.to_multiset() == s2.to_multiset(),
        vdistinct(s2),
    ensures
        vdistinct(s1),
    decreases s1.len()
{
    broadcast use vstd::seq_lib::group_to_multiset_ensures;

    if s1.len() > 0 {
        let x = s1.last();
        assert(s1.contains(x));
        assert(s1.to_multiset().count(x) > 0);
        assert(s2.contains(x));
        let j = choose|j: int| 0 <= j < s2.len() && s2[j] == x;
        assert(s1.drop_last() =~= s1.remove(s1.len() - 1));
        assert(s1.remove(s1.len() - 1).to_multiset() == s1.to_multiset().remove(x));
        assert(s2.remove(j).to_multiset() == s2.to_multiset().remove(x));
        assert(vdistinct(s2.remove(j))) by {
            assert forall|a: int, b: int| 0 <= a < b < s2.remove(j).len() implies
                s2.remove(j)[a].guid != s2.remove(j)[b].guid by {
                s2.remove_ensures(j);
            }
        }
        lemma_vdistinct_multiset(s1.drop_last(), s2.remove(j));
        assert forall|a: int, b: int| 0 <= a < b < s1.len() implies
            s1[a].guid != s1[b].guid by {
            if b < s1.len() - 1 {
                assert(s1.drop_last()[a] == s1[a]);
                assert(s1.drop_last()[b] == s1[b]);
            } else {
                assert(s1[b] == x);
                if s1[a].guid == x.guid {
                    let y = s1[a];
                    assert(s1.drop_last()[a] == y);
                    assert(s1.drop_last().contains(y));
                    assert(s1.drop_last().to_multiset().count(y) > 0);
                    assert(s2.remove(j).to_multiset().count(y) > 0);
                    assert(s2.remove(j).contains(y));
                    let k = choose|k: int| 0 <= k < s2.remove(j).len()
                        && s2.remove(j)[k] == y;
                    s2.remove_ensures(j);
                    if k < j {
                        assert(s2[k] == y);
                        assert(s2[k].guid == s2[j].guid);
                    } else {
                        assert(s2[k + 1] == y);
                        assert(s2[k + 1].guid == s2[j].guid);
                    }
                    assert(false);
                }
            }
        }
    }
}

/// The aggregated article list of a channel: one article per guid across
/// the live windows of all non-hidden feeds — the first occurrence of
/// each guid wins — sorted newest first.
pub fn aggregate_channel_items(feeds: &Vec<Feed>, now: i64) -> (r: Vec<FeedItem>)
    ensures
        sorted_desc(r@),
        distinct_guids(r@),
        items_view(r@).to_multiset() == vdedup(items_view(
            live_concat(feeds@, now as int, feeds@.len() as int))).to_multiset(),
{
    let mut collected: Vec<FeedItem> = Vec::new();
    let n = feeds.len();
    let mut k: usize = 0;
    proof {
        assert(items_view(collected@)
            =~= vdedup(items_view(live_concat(feeds@, now as int, 0))));
    }
    while k < n
        invariant
            n == feeds@.len(),
            k <= n,
            items_view(collected@)
                == vdedup(items_view(live_concat(feeds@, now as int, k as int))),
        decreases n - k
    {
        if !feeds[k].is_hidden() {
            let mut live = feeds[k].live_window(now);
            let ghost live_v = items_view(live_items_of(feeds@[k as int].items@,
                now as int));
            let ghost base_v = items_view(live_concat(feeds@, now as int, k as int));
            let m = live.len();
            proof {
                assert(items_view(live@).len() == live@.len());
                assert(live_v.len() == m);
            }
            let mut j: usize = 0;
            proof {
                assert(base_v + live_v.subrange(0, 0) =~= base_v);
                assert(items_view(collected@)
                    =~= vdedup(base_v + live_v.subrange(0, 0)));
            }
            while j < m
                invariant
                    live_v == items_view(live_items_of(feeds@[k as int].items@,
                        now as int)),
                    base_v == items_view(live_concat(feeds@, now as int, k as int)),
                    m == live_v.len(),
                    j <= m,
                    live@.len() == m - j,
                    forall|i: int| 0 <= i < m - j
                        ==> (#[trigger] live@[i])@ == live_v[j + i],
                    items_view(collected@)
                        == vdedup(base_v + live_v.subrange(0, j as int)),
                decreases m - j
            {
                proof {
                    assert(base_v + live_v.subrange(0, j + 1 as int)
                        =~= (base_v + live_v.subrange(0, j as int)).push(live_v[j as int]));
                    assert((base_v + live_v.subrange(0, j + 1 as int)).drop_last()
                        =~= base_v + live_v.subrange(0, j as int));
                }
                let ghost lpre = live@;
                let it = live.remove(0);
                proof {
                    assert(it@ == live_v[j as int]);
                    assert(forall|i: int| 0 <= i < m - j - 1
                        ==> (#[trigger] live@[i])@ == live_v[j + 1 + i]);
                }
                let g = it.guid;
                proof {
                    assert(g as int == live_v[j as int].guid);
                    lemma_vdedup_guids(base_v + live_v.subrange(0, j as int));
                }
                if !guid_seen(&collected, g) {
                    let ghost pre = collected@;
                    collected.push(it);
                    proof {
                        assert(items_view(collected@)
                            =~= items_view(pre).push(live_v[j as int]));
                        assert(!vguid_in(base_v + live_v.subrange(0, j as int),
                            live_v[j as int].guid));
                        assert(items_view(collected@)
                            =~= vdedup(base_v + live_v.subrange(0, j + 1 as int)));
                    }
                } else {
                    proof {
                        assert(vguid_in(base_v + live_v.subrange(0, j as int),
                            live_v[j as int].guid));
                        assert(items_view(collected@)
                            =~= vdedup(base_v + live_v.subrange(0, j + 1 as int)));
                    }
                }
                j += 1;
            }
            proof {
                assert(live_v.subrange(0, m as int) =~= live_v);
                assert(items_view(live_concat(feeds@, now as int, k + 1 as int))
                    =~= base_v + live_v);
            }
        } else {
            proof {
                assert(live_concat(feeds@, now as int, k + 1 as int)
                    =~= live_concat(feeds@, now as int, k as int));
            }
        }
        k += 1;
    }
    let ghost deduped = collected@;
    let mut r = collected;
    crate::feed::sort_items_desc(&mut r);
    proof {
        lemma_view_multiset(r@, deduped);
        lemma_vdedup_guids(items_view(live_concat(feeds@, now as int, feeds@.len() as int)));
        lemma_vdistinct_multiset(items_view(r@), items_view(deduped));
        assert forall|a: int, b: int| 0 <= a < b < r@.len() implies
            r@[a].guid != r@[b].guid by {
            assert(items_view(r@)[a] == r@[a]@);
            assert(items_view(r@)[b] == r@[b]@);
        }
    }
    r
}

/// Whether some already collected article carries guid `g`.
fn guid_seen(collected: &Vec<FeedItem>, g: i64) -> (r: bool)
    ensures
        r == vguid_in(items_view(collected@), g as int),
{
    let n = collected.len();
    let mut i: usize = 0;
    while i < n
        invariant
            n == collected@.len(),
            i <= n,
            forall|j: int| 0 <= j < i
                ==> (#[trigger] items_view(collected@)[j]).guid != g,
        decreases n - i
    {
        if collected[i].guid == g {
            proof {
                assert(items_view(collected@)[i as int].guid == g);
            }
            return true;
        }
        proof {
            assert(items_view(collected@)[i as int] == collected@[i as int]@);
        }
        i += 1;
    }
    false
}

/// What a hidden feed holds cannot reach the aggregated channel: swapping
/// one hidden feed for another leaves the channel's input untouched, so
/// no article surfaces there through a hidden feed.
pub proof fn lemma_hidden_feed_invisible_in_rss(
    feeds: Seq<Feed>,
    g: Feed,
    now: int,
    k: int,
    upto: int,
)
    requires
        0 <= k < feeds.len(),
        feeds[k].hidden,
        g.hidden,
        upto <= feeds.len(),
    ensures
        live_concat(feeds.update(k, g), now, upto) == live_concat(feeds, now, upto),
    decreases upto
{
    if upto > 0 {
        lemma_hidden_feed_invisible_in_rss(feeds, g, now, k, upto - 1);
        if upto - 1 == k {
            assert(feeds.update(k, g)[upto - 1].hidden);
        } else {
            assert(feeds.update(k, g)[upto - 1] == feeds[upto - 1]);
        }
    }
}

// ---------------------------------------------------------------------------
// Rendering.
// ---------------------------------------------------------------------------

/// The category elements of a tag list, one per tag, in order.
pub open spec fn categories_of(tags: Seq<String>) -> Seq<rss::Category> {
    Seq::new(tags.len(), |i: int| category_of(tags[i]@))
}

/// The RSS item of one article: title, link, author and the RFC 2822
/// publish date always; the extracted text as content when the channel
/// carries content; source and category elements from the owner
/// snapshot; an enclosure when one is present.
pub open spec fn rss_item_view_of(it: FeedItemView, include_content: bool) -> rss::Item {
    rss_item_of(
        it.title,
        it.url,
        it.author,
        rfc2822_of(it.date),
        if include_content {
            it.text
        } else {
            None
        },
        match it.source {
            Some(s) => Some(source_of(s.title, s.feedlink)),
            None => None,
        },
        match it.source {
            Some(s) => categories_of(s.tags),
            None => Seq::<rss::Category>::empty(),
        },
        match it.enc_url {
            Some(u) => Some(enclosure_of(u, opt_str_view(it.enc_mime))),
            None => None,
        },
    )
}

/// The RSS items of a list of articles, in order.
pub open spec fn rss_items_of(items: Seq<FeedItem>, include_content: bool) -> Seq<rss::Item> {
    Seq::new(items.len(), |i: int| rss_item_view_of(items[i]@, include_content))
}

impl FeedItem {
    /// Build this article's RSS item (see [`rss_item_view_of`]).
    pub fn to_rss_item(&self, include_content: bool) -> (r: rss::Item)
        ensures
            r == rss_item_view_of(self@, include_content),
    {
        let pub_date = rfc2822_utc(self.date);
        let content: Option<String> = if include_content {
            clone_opt_string(&self.text)
        } else {
            None
        };
        let mut source: Option<rss::Source> = None;
        let mut categories: Vec<rss::Category> = Vec::new();
        match &self.source {
            Some(src) => {
                source = Some(mk_source(src.title.clone(), src.feedlink.clone()));
                let n = src.tags.len();
                let mut i: usize = 0;
                while i < n
                    invariant
                        n == src.tags@.len(),
                        i <= n,
                        categories@.len() == i,
                        forall|k: int| 0 <= k < i
                            ==> #[trigger] categories@[k] == category_of(src.tags@[k]@),
                    decreases n - i
                {
                    categories.push(mk_category(src.tags[i].clone()));
                    i += 1;
                }
                proof {
                    assert(categories@ =~= categories_of(src.tags@));
                }
            },
            None => {
                proof {
                    assert(categories@ =~= Seq::<rss::Category>::empty());
                }
            },
        }
        let enclosure: Option<rss::Enclosure> = match &self.enc_url {
            Some(u) => Some(mk_enclosure(u.clone(), match &self.enc_mime {
                Some(m) => m.clone(),
                None => String::new(),
            })),
            None => None,
        };
        mk_rss_item(
            self.title.clone(),
            self.url.clone(),
            self.author.clone(),
            pub_date,
            content,
            source,
            categories,
            enclosure,
        )
    }
}

/// Generate one RSS 2.0 channel document: the rendering, under
/// [`channel_doc_of`], of an aggregation of the feeds' live windows —
/// de-duplicated by guid, newest first — with each article rendered by
/// [`rss_item_view_of`]. The aggregated channel heads the document with
/// the page title and a fixed description; a self-referential query-feed
/// channel takes the first feed's display title and an empty description.
pub fn generate_rss_channel(
    opts: &Options,
    feeds: &Vec<Feed>,
    general_channel: bool,
    now: i64,
) -> (r: String)
    requires
        !general_channel ==> feeds@.len() >= 1,
    ensures
        exists|items: Seq<FeedItem>| {
            &&& #[trigger] sorted_desc(items)
            &&& distinct_guids(items)
            &&& items_view(items).to_multiset() == vdedup(items_view(
                live_concat(feeds@, now as int, feeds@.len() as int))).to_multiset()
            &&& r@ == channel_doc_of(
                if general_channel {
                    opts.title@
                } else {
                    feeds@[0].display_title@
                },
                opts.site_url@,
                if general_channel {
                    "Liveboat RSS Feed"@
                } else {
                    Seq::<char>::empty()
                },
                rss_items_of(items, opts.include_article_content_in_rss_feeds))
        },
{
    let items = aggregate_channel_items(feeds, now);
    let inc = opts.include_article_content_in_rss_feeds;
    let mut rss_items: Vec<rss::Item> = Vec::new();
    let mut i: usize = 0;
    while i < items.len()
        invariant
            inc == opts.include_article_content_in_rss_feeds,
            i <= items@.len(),
            rss_items@.len() == i,
            forall|k: int| 0 <= k < i
                ==> #[trigger] rss_items@[k] == rss_item_view_of(items@[k]@, inc),
        decreases items@.len() - i
    {
        rss_items.push(items[i].to_rss_item(inc));
        i += 1;
    }
    proof {
        assert(rss_items@ =~= rss_items_of(items@, inc));
    }
    let ghost witness = items@;
    let doc = if general_channel {
        channel_xml(
            opts.title.clone(),
            opts.site_url.clone(),
            String::from_str("Liveboat RSS Feed"),
            rss_items,
        )
    } else {
        channel_xml(
            feeds[0].display_title.clone(),
            opts.site_url.clone(),
            String::new(),
            rss_items,
        )
    };
    proof {
        assert(sorted_desc(witness));
    }
    doc
}

} // verus!
