use vstd::prelude::*;

use crate::content::{url_norm_of, url_normalize};
use crate::feed::Feed;
use crate::opts::Options;
use crate::rss_out::{rfc2822_of, rfc2822_utc};
use crate::text::str_eq;

verus! {

// ---------------------------------------------------------------------------
// Trusted view of URL joining and the OPML document model.
// ---------------------------------------------------------------------------

/// A name for resolving a relative reference against a base URL: a
/// function of both strings alone; nothing when the base does not parse
/// or the join fails.
pub uninterp spec fn url_join_of(base: Seq<char>, rel: Seq<char>) -> Option<Seq<char>>;

/// Relies on `url::Url::parse` and `url::Url::join`: the relative
/// reference resolved against the base, written back out.
#[verifier::external_body]
fn url_join(base: &str, rel: &str) -> (r: Option<String>)
    ensures
        r.deep_view() == url_join_of(base@, rel@),
{
    match url::Url::parse(base) {
        Ok(b) => match b.join(rel) {
            Ok(u) => Some(u.to_string()),
            Err(_) => None,
        },
        Err(_) => None,
    }
}

/// One outline element of an OPML document, built by the `opml` crate.
#[verifier::external_type_specification]
#[verifier::external_body]
pub struct ExOutline(opml::Outline);

/// A name for the feed outline of type `rss` carrying the given
/// attributes: a function of those attributes alone.
pub uninterp spec fn feed_outline_of(
    title: Seq<char>,
    text: Seq<char>,
    category: Option<Seq<char>>,
    xml_url: Option<Seq<char>>,
    html_url: Option<Seq<char>>,
) -> opml::Outline;

/// Relies on `opml::OPML::from_str` and the public fields of
/// `opml::Outline`: a feed outline of type `rss` carrying the given
/// attributes. The outline comes from parsing a constant snippet because
/// the type attribute's field is named with a keyword.
#[verifier::external_body]
fn mk_feed_outline(
    title: String,
    text: String,
    category: Option<String>,
    xml_url: Option<String>,
    html_url: Option<String>,
) -> (r: opml::Outline)
    ensures
        r == feed_outline_of(title@, text@, category.deep_view(), xml_url.deep_view(),
            html_url.deep_view()),
{
    let seed = "<opml version=\"2.0\"><head/><body><outline text=\"\" type=\"rss\"/></body></opml>";
    let mut o = opml::OPML::from_str(seed).unwrap().body.outlines.remove(0);
    o.title = Some(title);
    o.text = text;
    o.category = category;
    o.xml_url = xml_url;
    o.html_url = html_url;
    o
}

/// A name for the group outline with the given title and text, holding
/// the given children: a function of those parts alone.
pub uninterp spec fn group_outline_of(
    title: Seq<char>,
    text: Seq<char>,
    outlines: Seq<opml::Outline>,
) -> opml::Outline;

/// Relies on `opml::Outline::default` and the public fields of
/// `opml::Outline`: a group outline holding the given children.
#[verifier::external_body]
fn mk_group_outline(title: String, text: String, outlines: Vec<opml::Outline>)
    -> (r: opml::Outline)
    ensures
        r == group_outline_of(title@, text@, outlines@),
{
    let mut o = opml::Outline::default();
    o.title = Some(title);
    o.text = text;
    o.outlines = outlines;
    o
}

/// A name for the OPML 2.0 document whose head carries the given title
/// and the given date — as both creation and modification time — and
/// whose body holds the given outlines: a function of those parts alone.
/// Nothing stands for a writer failure.
pub uninterp spec fn opml_doc_of(
    title: Seq<char>,
    date: Seq<char>,
    outlines: Seq<opml::Outline>,
) -> Option<Seq<char>>;

/// Relies on `opml::OPML`, `opml::Head`, `opml::Body` and
/// `OPML::to_string`: the OPML 2.0 document with the given head metadata
/// — the date fills both `dateCreated` and `dateModified` — and the
/// given top-level outlines. Nothing when the writer fails.
#[verifier::external_body]
fn opml_xml(title: String, date: String, outlines: Vec<opml::Outline>) -> (r: Option<String>)
    ensures
        r.deep_view() == opml_doc_of(title@, date@, outlines@),
{
    let mut op = opml::OPML::default();
    let mut head = opml::Head::default();
    head.title = Some(title);
    head.date_created = Some(date.clone());
    head.date_modified = Some(date);
    op.head = Some(head);
    op.body = opml::Body { outlines };
    op.to_string().ok()
}

// ---------------------------------------------------------------------------
// The subscription list as plain data.
// ---------------------------------------------------------------------------

/// One subscribable entry of the OPML document.
pub struct OutlineEntry {
    /// Display title of the feed.
    pub title: String,
    /// Text of the outline, the same display title.
    pub text: String,
    /// The tag group the entry sits under, if any.
    pub category: Option<String>,
    /// Where the feed can be subscribed: its own URL, or, for a query
    /// feed, its self-referential channel under the site URL.
    pub xml_url: Option<String>,
    /// The feed's site: its own link, or the site root for a query feed.
    pub html_url: Option<String>,
}

/// One tag group of the OPML document.
pub struct TagGroup {
    /// The tag.
    pub tag: String,
    /// The entries of every non-hidden feed carrying the tag, in feed order.
    pub entries: Vec<OutlineEntry>,
}

/// The whole subscription list: tag groups, and the top-level entries of
/// untagged feeds.
pub struct OpmlPlan {
    /// One group per tag in use, each tag once.
    pub groups: Vec<TagGroup>,
    /// Entries of the non-hidden feeds without tags.
    pub top: Vec<OutlineEntry>,
}

/// Whether the feed carries the tag.
pub open spec fn has_tag(f: Feed, tag: Seq<char>) -> bool {
    exists|i: int| 0 <= i < f.tags@.len() && f.tags@[i]@ == tag
}

/// The test for a non-hidden feed carrying the tag.
pub open spec fn group_pred(tag: Seq<char>) -> spec_fn(Feed) -> bool {
    |f: Feed| !f.hidden && has_tag(f, tag)
}

/// The test for a non-hidden feed without tags.
pub open spec fn top_pred() -> spec_fn(Feed) -> bool {
    |f: Feed| !f.hidden && f.tags@.len() == 0
}

/// Whether `e` is the outline entry of feed `f` under `cat`: titled with
/// the display title; a URL feed points at its own URL and site link, a
/// query feed at its self-referential channel under the site URL and at
/// the site root.
pub open spec fn entry_matches(
    e: OutlineEntry,
    f: Feed,
    site: Seq<char>,
    cat: Option<Seq<char>>,
) -> bool {
    &&& e.title@ == f.display_title@
    &&& e.text@ == f.display_title@
    &&& e.category.deep_view() == cat
    &&& if f.is_query {
        e.xml_url.deep_view() == url_join_of(site, "channels/"@ + f.id@ + ".xml"@)
            && e.html_url.deep_view() == url_norm_of(site)
    } else {
        e.xml_url.deep_view() == Some(f.url@) && e.html_url.deep_view() == Some(f.feedlink@)
    }
}

/// Whether the group lists exactly the non-hidden feeds carrying its tag,
/// in feed order.
pub open spec fn group_ok(g: TagGroup, feeds: Seq<Feed>, site: Seq<char>) -> bool {
    let fs = feeds.filter(group_pred(g.tag@));
    &&& g.entries@.len() == fs.len()
    &&& forall|k: int| 0 <= k < fs.len()
        ==> entry_matches(#[trigger] g.entries@[k], fs[k], site, Some(g.tag@))
}

/// Some non-hidden feed among the first `upto` carries tag `t`.
pub open spec fn tag_used(feeds: Seq<Feed>, upto: int, t: Seq<char>) -> bool {
    exists|kk: int, ti: int| 0 <= kk < upto && !feeds[kk].hidden
        && 0 <= ti < feeds[kk].tags@.len() && (#[trigger] feeds[kk].tags@[ti])@ == t
}

/// Some collected tag equals `t`.
pub open spec fn tag_listed_spec(tags: Seq<String>, t: Seq<char>) -> bool {
    exists|g: int| 0 <= g < tags.len() && (#[trigger] tags[g])@ == t
}

/// Some group carries tag `t`.
pub open spec fn group_listed(groups: Seq<TagGroup>, t: Seq<char>) -> bool {
    exists|g: int| 0 <= g < groups.len() && (#[trigger] groups[g]).tag@ == t
}

/// A tag used within a prefix is used within any longer prefix.
proof fn lemma_tag_used_mono(feeds: Seq<Feed>, a: int, b: int, t: Seq<char>)
    requires
        a <= b,
        tag_used(feeds, a, t),
    ensures
        tag_used(feeds, b, t),
{
    let (kk, ti) = choose|kk: int, ti: int| 0 <= kk < a && !feeds[kk].hidden
        && 0 <= ti < feeds[kk].tags@.len() && (#[trigger] feeds[kk].tags@[ti])@ == t;
    assert(0 <= kk < b && !feeds[kk].hidden && 0 <= ti < feeds[kk].tags@.len()
        && feeds[kk].tags@[ti]@ == t);
}

/// A listed tag stays listed when another tag is appended.
proof fn lemma_listed_push(tags: Seq<String>, x: String, t: Seq<char>)
    requires
        tag_listed_spec(tags, t),
    ensures
        tag_listed_spec(tags.push(x), t),
{
    let g = choose|g: int| 0 <= g < tags.len() && (#[trigger] tags[g])@ == t;
    assert(tags.push(x)[g]@ == t);
}

/// Whether the plan is the subscription list of `feeds`: each tag in use
/// has exactly one group, each group lists exactly the non-hidden feeds
/// carrying its tag, and the top level lists exactly the untagged
/// non-hidden feeds. Hidden feeds appear nowhere.
pub open spec fn plan_matches(plan: OpmlPlan, feeds: Seq<Feed>, site: Seq<char>) -> bool {
    &&& forall|a: int, b: int| 0 <= a < b < plan.groups@.len()
        ==> (#[trigger] plan.groups@[a]).tag@ != (#[trigger] plan.groups@[b]).tag@
    &&& forall|g: int| 0 <= g < plan.groups@.len()
        ==> group_ok(#[trigger] plan.groups@[g], feeds, site)
    &&& forall|g: int| 0 <= g < plan.groups@.len()
        ==> tag_used(feeds, feeds.len() as int, (#[trigger] plan.groups@[g]).tag@)
    &&& forall|k: int, ti: int|
        0 <= k < feeds.len() && !(#[trigger] feeds[k]).hidden
            && 0 <= ti < feeds[k].tags@.len()
            ==> group_listed(plan.groups@, (#[trigger] feeds[k].tags@[ti])@)
    &&& plan.top@.len() == feeds.filter(top_pred()).len()
    &&& forall|k: int| 0 <= k < plan.top@.len()
        ==> entry_matches(#[trigger] plan.top@[k], feeds.filter(top_pred())[k], site,
            None::<Seq<char>>)
}

/// Whether the feed carries `tag`.
fn feed_has_tag(f: &Feed, tag: &String) -> (r: bool)
    ensures
        r == has_tag(*f, tag@),
{
    let n = f.tags.len();
    let mut i: usize = 0;
    while i < n
        invariant
            n == f.tags@.len(),
            i <= n,
            forall|j: int| 0 <= j < i ==> (#[trigger] f.tags@[j])@ != tag@,
        decreases n - i
    {
        if str_eq(f.tags[i].as_str(), tag.as_str()) {
            return true;
        }
        i += 1;
    }
    false
}

/// Whether some collected tag equals `tag`.
fn tag_listed(tags: &Vec<String>, tag: &String) -> (r: bool)
    ensures
        r == tag_listed_spec(tags@, tag@),
{
    let n = tags.len();
    let mut i: usize = 0;
    while i < n
        invariant
            n == tags@.len(),
            i <= n,
            forall|j: int| 0 <= j < i ==> (#[trigger] tags@[j])@ != tag@,
        decreases n - i
    {
        if str_eq(tags[i].as_str(), tag.as_str()) {
            return true;
        }
        i += 1;
    }
    false
}

/// The tags in use across the non-hidden feeds, each once, in first
/// appearance order.
fn collect_tags(feeds: &Vec<Feed>) -> (r: Vec<String>)
    ensures
        forall|a: int, b: int| 0 <= a < b < r@.len()
            ==> (#[trigger] r@[a])@ != (#[trigger] r@[b])@,
        forall|g: int| 0 <= g < r@.len()
            ==> tag_used(feeds@, feeds@.len() as int, (#[trigger] r@[g])@),
        forall|k: int, ti: int|
            0 <= k < feeds@.len() && !(#[trigger] feeds@[k]).hidden
                && 0 <= ti < feeds@[k].tags@.len()
                ==> tag_listed_spec(r@, (#[trigger] feeds@[k].tags@[ti])@),
{
    let mut r: Vec<String> = Vec::new();
    let n = feeds.len();
    let mut k: usize = 0;
    while k < n
        invariant
            n == feeds@.len(),
            k <= n,
            forall|a: int, b: int| 0 <= a < b < r@.len()
                ==> (#[trigger] r@[a])@ != (#[trigger] r@[b])@,
            forall|g: int| 0 <= g < r@.len()
                ==> tag_used(feeds@, k as int, (#[trigger] r@[g])@),
            forall|kk: int, ti: int|
                0 <= kk < k && !(#[trigger] feeds@[kk]).hidden
                    && 0 <= ti < feeds@[kk].tags@.len()
                    ==> tag_listed_spec(r@, (#[trigger] feeds@[kk].tags@[ti])@),
        decreases n - k
    {
        if !feeds[k].is_hidden() {
            proof {
                assert forall|g: int| 0 <= g < r@.len() implies
                    tag_used(feeds@, k + 1 as int, (#[trigger] r@[g])@) by {
                    lemma_tag_used_mono(feeds@, k as int, k + 1 as int, r@[g]@);
                }
            }
            let m = feeds[k].tags.len();
            let mut j: usize = 0;
            while j < m
                invariant
                    n == feeds@.len(),
                    k < n,
                    m == feeds@[k as int].tags@.len(),
                    j <= m,
                    !feeds@[k as int].hidden,
                    forall|a: int, b: int| 0 <= a < b < r@.len()
                        ==> (#[trigger] r@[a])@ != (#[trigger] r@[b])@,
                    forall|g: int| 0 <= g < r@.len()
                        ==> tag_used(feeds@, k + 1 as int, (#[trigger] r@[g])@),
                    forall|kk: int, ti: int|
                        0 <= kk < k && !(#[trigger] feeds@[kk]).hidden
                            && 0 <= ti < feeds@[kk].tags@.len()
                            ==> tag_listed_spec(r@, (#[trigger] feeds@[kk].tags@[ti])@),
                    forall|ti: int| 0 <= ti < j
                        ==> tag_listed_spec(r@, (#[trigger] feeds@[k as int].tags@[ti])@),
                decreases m - j
            {
                let tag = &feeds[k].tags[j];
                if !tag_listed(&r, tag) {
                    let ghost pre = r@;
                    r.push(tag.clone());
                    proof {
                        assert(r@[pre.len() as int]@ == feeds@[k as int].tags@[j as int]@);
                        assert(forall|g: int| 0 <= g < pre.len() ==> r@[g] == pre[g]);
                        assert(tag_used(feeds@, k + 1 as int, r@[pre.len() as int]@)) by {
                            assert(!feeds@[k as int].hidden);
                            assert(feeds@[k as int].tags@[j as int]@
                                == r@[pre.len() as int]@);
                        }
                        assert forall|kk: int, ti: int|
                            0 <= kk < k && !(#[trigger] feeds@[kk]).hidden
                                && 0 <= ti < feeds@[kk].tags@.len() implies
                            tag_listed_spec(r@, (#[trigger] feeds@[kk].tags@[ti])@) by {
                            lemma_listed_push(pre, r@[pre.len() as int],
                                feeds@[kk].tags@[ti]@);
                        }
                        assert forall|ti: int| 0 <= ti < j + 1 implies
                            tag_listed_spec(r@, (#[trigger] feeds@[k as int].tags@[ti])@)
                            by {
                            if ti < j {
                                lemma_listed_push(pre, r@[pre.len() as int],
                                    feeds@[k as int].tags@[ti]@);
                            } else {
                                assert(r@[pre.len() as int]@
                                    == feeds@[k as int].tags@[ti]@);
                            }
                        }
                    }
                } else {
                    proof {
                        assert(tag_listed_spec(r@, feeds@[k as int].tags@[j as int]@));
                    }
                }
                j += 1;
            }
            proof {
                assert(feeds@[k as int].tags@.len() == m);
            }
        } else {
            proof {
                assert forall|g: int| 0 <= g < r@.len() implies
                    tag_used(feeds@, k + 1 as int, (#[trigger] r@[g])@) by {
                    lemma_tag_used_mono(feeds@, k as int, k + 1 as int, r@[g]@);
                }
            }
        }
        k += 1;
    }
    proof {
        assert forall|g: int| 0 <= g < r@.len() implies
            tag_used(feeds@, feeds@.len() as int, (#[trigger] r@[g])@) by {
            lemma_tag_used_mono(feeds@, n as int, feeds@.len() as int, r@[g]@);
        }
    }
    r
}

/// The outline entry of one feed.
fn make_entry(f: &Feed, site_url: &String, category: Option<String>) -> (e: OutlineEntry)
    ensures
        entry_matches(e, *f, site_url@, category.deep_view()),
{
    if f.is_query_feed() {
        let mut rel = String::from_str("channels/");
        rel.append(f.id.as_str());
        rel.append(".xml");
        let xml_url = url_join(site_url.as_str(), rel.as_str());
        let html_url = url_normalize(site_url.as_str());
        OutlineEntry {
            title: f.display_title.clone(),
            text: f.display_title.clone(),
            category,
            xml_url,
            html_url,
        }
    } else {
        OutlineEntry {
            title: f.display_title.clone(),
            text: f.display_title.clone(),
            category,
            xml_url: Some(f.url.clone()),
            html_url: Some(f.feedlink.clone()),
        }
    }
}

/// The entries of the non-hidden feeds carrying `tag`, in feed order.
fn build_group_entries(feeds: &Vec<Feed>, site_url: &String, tag: &String)
    -> (r: Vec<OutlineEntry>)
    ensures
        r@.len() == feeds@.filter(group_pred(tag@)).len(),
        forall|k: int| 0 <= k < r@.len() ==> entry_matches(#[trigger] r@[k],
            feeds@.filter(group_pred(tag@))[k], site_url@, Some(tag@)),
{
    broadcast use vstd::seq_lib::group_seq_properties;

    let ghost pred = group_pred(tag@);
    let mut r: Vec<OutlineEntry> = Vec::new();
    let n = feeds.len();
    let mut k: usize = 0;
    proof {
        assert(feeds@.subrange(0, 0).filter(pred) =~= Seq::<Feed>::empty());
    }
    while k < n
        invariant
            pred == group_pred(tag@),
            n == feeds@.len(),
            k <= n,
            r@.len() == feeds@.subrange(0, k as int).filter(pred).len(),
            forall|j: int| 0 <= j < r@.len() ==> entry_matches(#[trigger] r@[j],
                feeds@.subrange(0, k as int).filter(pred)[j], site_url@, Some(tag@)),
        decreases n - k
    {
        proof {
            assert(feeds@.subrange(0, k + 1 as int)
                =~= feeds@.subrange(0, k as int).push(feeds@[k as int]));
            feeds@.subrange(0, k as int).lemma_filter_push(feeds@[k as int], pred);
        }
        let keep = !feeds[k].is_hidden() && feed_has_tag(&feeds[k], tag);
        proof {
            assert(keep == pred(feeds@[k as int]));
        }
        if keep {
            let e = make_entry(&feeds[k], site_url, Some(tag.clone()));
            r.push(e);
        }
        k += 1;
    }
    proof {
        assert(feeds@.subrange(0, n as int) =~= feeds@);
    }
    r
}

/// The entries of the non-hidden, untagged feeds, in feed order.
fn build_top_entries(feeds: &Vec<Feed>, site_url: &String) -> (r: Vec<OutlineEntry>)
    ensures
        r@.len() == feeds@.filter(top_pred()).len(),
        forall|k: int| 0 <= k < r@.len() ==> entry_matches(#[trigger] r@[k],
            feeds@.filter(top_pred())[k], site_url@, None::<Seq<char>>),
{
    broadcast use vstd::seq_lib::group_seq_properties;

    let ghost pred = top_pred();
    let mut r: Vec<OutlineEntry> = Vec::new();
    let n = feeds.len();
    let mut k: usize = 0;
    proof {
        assert(feeds@.subrange(0, 0).filter(pred) =~= Seq::<Feed>::empty());
    }
    while k < n
        invariant
            pred == top_pred(),
            n == feeds@.len(),
            k <= n,
            r@.len() == feeds@.subrange(0, k as int).filter(pred).len(),
            forall|j: int| 0 <= j < r@.len() ==> entry_matches(#[trigger] r@[j],
                feeds@.subrange(0, k as int).filter(pred)[j], site_url@,
                None::<Seq<char>>),
        decreases n - k
    {
        proof {
            assert(feeds@.subrange(0, k + 1 as int)
                =~= feeds@.subrange(0, k as int).push(feeds@[k as int]));
            feeds@.subrange(0, k as int).lemma_filter_push(feeds@[k as int], pred);
        }
        let keep = !feeds[k].is_hidden() && feeds[k].tags.len() == 0;
        proof {
            assert(keep == pred(feeds@[k as int]));
        }
        if keep {
            let e = make_entry(&feeds[k], site_url, None);
            r.push(e);
        }
        k += 1;
    }
    proof {
        assert(feeds@.subrange(0, n as int) =~= feeds@);
    }
    r
}

/// Lay out the subscription list (see [`plan_matches`]): feeds are
/// grouped by tag, a feed carrying several tags appearing once under each
/// of them; untagged feeds, and query feeds, stand at the top level;
/// hidden feeds appear nowhere.
pub fn opml_plan(feeds: &Vec<Feed>, site_url: &String) -> (r: OpmlPlan)
    ensures
        plan_matches(r, feeds@, site_url@),
{
    let tags = collect_tags(feeds);
    let mut groups: Vec<TagGroup> = Vec::new();
    let n = tags.len();
    let mut g: usize = 0;
    while g < n
        invariant
            n == tags@.len(),
            g <= n,
            groups@.len() == g,
            forall|a: int, b: int| 0 <= a < b < tags@.len()
                ==> (#[trigger] tags@[a])@ != (#[trigger] tags@[b])@,
            forall|j: int| 0 <= j < g
                ==> (#[trigger] groups@[j]).tag@ == tags@[j]@,
            forall|j: int| 0 <= j < g
                ==> group_ok(#[trigger] groups@[j], feeds@, site_url@),
        decreases n - g
    {
        let entries = build_group_entries(feeds, site_url, &tags[g]);
        groups.push(TagGroup { tag: tags[g].clone(), entries });
        g += 1;
    }
    let top = build_top_entries(feeds, site_url);
    let plan = OpmlPlan { groups, top };
    proof {
        assert forall|k: int, ti: int|
            0 <= k < feeds@.len() && !(#[trigger] feeds@[k]).hidden
                && 0 <= ti < feeds@[k].tags@.len() implies
            group_listed(plan.groups@, (#[trigger] feeds@[k].tags@[ti])@) by {
            let g = choose|g: int| 0 <= g < tags@.len()
                && (#[trigger] tags@[g])@ == feeds@[k].tags@[ti]@;
            assert(plan.groups@[g].tag@ == tags@[g]@);
        }
    }
    plan
}

/// The outline element of one subscription entry.
pub open spec fn entry_outline_of(e: OutlineEntry) -> opml::Outline {
    feed_outline_of(e.title@, e.text@, e.category.deep_view(), e.xml_url.deep_view(),
        e.html_url.deep_view())
}

/// The child outlines of one tag group, in order.
pub open spec fn group_children_of(gr: TagGroup) -> Seq<opml::Outline> {
    Seq::new(gr.entries@.len(), |k: int| entry_outline_of(gr.entries@[k]))
}

/// The top-level outlines of a subscription plan: one group outline per
/// tag group, then the untagged entries, in order.
pub open spec fn plan_outlines_of(plan: OpmlPlan) -> Seq<opml::Outline> {
    Seq::new(plan.groups@.len(), |g: int| group_outline_of(plan.groups@[g].tag@,
        plan.groups@[g].tag@, group_children_of(plan.groups@[g])))
        + Seq::new(plan.top@.len(), |k: int| entry_outline_of(plan.top@[k]))
}

/// Generate the OPML 2.0 subscription document: the rendering, under
/// [`opml_doc_of`], of a plan of the feeds (see [`plan_matches`]), headed
/// by the page title with the generation time as both creation and
/// modification date. Nothing when the document writer fails.
pub fn generate_opml(opts: &Options, feeds: &Vec<Feed>, site_url: &String, now: i64)
    -> (r: Option<String>)
    ensures
        exists|plan: OpmlPlan| {
            &&& #[trigger] plan_matches(plan, feeds@, site_url@)
            &&& r.deep_view() == opml_doc_of(opts.title@, rfc2822_of(now as int),
                plan_outlines_of(plan))
        },
{
    let plan = opml_plan(feeds, site_url);
    let ghost plan0 = plan;
    let OpmlPlan { groups: mut groups, top: mut top } = plan;
    let mut outlines: Vec<opml::Outline> = Vec::new();
    let g_total = groups.len();
    let mut gi: usize = 0;
    proof {
        assert(groups@ =~= plan0.groups@.subrange(0, plan0.groups@.len() as int));
    }
    while groups.len() > 0
        invariant
            g_total == plan0.groups@.len(),
            gi + groups@.len() == g_total,
            groups@ == plan0.groups@.subrange(gi as int, plan0.groups@.len() as int),
            top@ == plan0.top@,
            outlines@.len() == gi,
            forall|k: int| 0 <= k < gi ==> #[trigger] outlines@[k] == group_outline_of(
                plan0.groups@[k].tag@, plan0.groups@[k].tag@,
                group_children_of(plan0.groups@[k])),
        decreases groups@.len()
    {
        let group = groups.remove(0);
        proof {
            assert(group == plan0.groups@[gi as int]);
            assert(groups@ =~= plan0.groups@.subrange(gi + 1, plan0.groups@.len() as int));
        }
        let ghost gval = plan0.groups@[gi as int];
        let TagGroup { tag, entries } = group;
        let mut entries = entries;
        let e_total = entries.len();
        let mut children: Vec<opml::Outline> = Vec::new();
        let mut ei: usize = 0;
        proof {
            assert(entries@ =~= gval.entries@.subrange(0, gval.entries@.len() as int));
        }
        while entries.len() > 0
            invariant
                e_total == gval.entries@.len(),
                ei + entries@.len() == e_total,
                entries@ == gval.entries@.subrange(ei as int, gval.entries@.len() as int),
                children@.len() == ei,
                forall|k: int| 0 <= k < ei
                    ==> #[trigger] children@[k] == entry_outline_of(gval.entries@[k]),
            decreases entries@.len()
        {
            let e = entries.remove(0);
            proof {
                assert(e == gval.entries@[ei as int]);
                assert(entries@ =~= gval.entries@.subrange(ei + 1,
                    gval.entries@.len() as int));
            }
            children.push(mk_feed_outline(e.title, e.text, e.category, e.xml_url,
                e.html_url));
            ei += 1;
        }
        proof {
            assert(children@ =~= group_children_of(gval));
        }
        outlines.push(mk_group_outline(tag.clone(), tag, children));
        gi += 1;
    }
    let ghost n_groups = plan0.groups@.len();
    let t_total = top.len();
    let mut ti: usize = 0;
    proof {
        assert(top@ =~= plan0.top@.subrange(0, plan0.top@.len() as int));
    }
    while top.len() > 0
        invariant
            n_groups == plan0.groups@.len(),
            t_total == plan0.top@.len(),
            ti + top@.len() == t_total,
            top@ == plan0.top@.subrange(ti as int, plan0.top@.len() as int),
            outlines@.len() == n_groups + ti,
            forall|k: int| 0 <= k < n_groups ==> #[trigger] outlines@[k]
                == group_outline_of(plan0.groups@[k].tag@, plan0.groups@[k].tag@,
                    group_children_of(plan0.groups@[k])),
            forall|k: int| 0 <= k < ti ==> #[trigger] outlines@[n_groups + k]
                == entry_outline_of(plan0.top@[k]),
        decreases top@.len()
    {
        let e = top.remove(0);
        proof {
            assert(e == plan0.top@[ti as int]);
            assert(top@ =~= plan0.top@.subrange(ti + 1, plan0.top@.len() as int));
        }
        outlines.push(mk_feed_outline(e.title, e.text, e.category, e.xml_url, e.html_url));
        ti += 1;
    }
    proof {
        assert forall|k: int| 0 <= k < outlines@.len() implies
            outlines@[k] == plan_outlines_of(plan0)[k] by {
            if k >= n_groups {
                assert(outlines@[n_groups as int + (k - n_groups)]
                    == entry_outline_of(plan0.top@[k - n_groups]));
            }
        }
        assert(outlines@ =~= plan_outlines_of(plan0));
    }
    let date = rfc2822_utc(now);
    let r = opml_xml(opts.title.clone(), date, outlines);
    proof {
        assert(plan_matches(plan0, feeds@, site_url@));
    }
    r
}

/// Some entry of `es` is the outline entry of feed `f` under `cat`.
pub open spec fn entry_for(
    es: Seq<OutlineEntry>,
    f: Feed,
    site: Seq<char>,
    cat: Option<Seq<char>>,
) -> bool {
    exists|e: int| 0 <= e < es.len() && entry_matches(#[trigger] es[e], f, site, cat)
}

/// Feed `k`'s tag at position `ti` has a group, and that group holds an
/// entry for feed `k`.
pub open spec fn placed_in_groups(
    plan: OpmlPlan,
    feeds: Seq<Feed>,
    site: Seq<char>,
    k: int,
    ti: int,
) -> bool {
    exists|g: int| 0 <= g < plan.groups@.len()
        && (#[trigger] plan.groups@[g]).tag@ == feeds[k].tags@[ti]@
        && entry_for(plan.groups@[g].entries@, feeds[k], site, Some(plan.groups@[g].tag@))
}

/// Where a non-hidden feed stands in the subscription list: an untagged
/// feed has a top-level entry; a tagged feed has an entry under the group
/// of each of its tags, stands in no group whose tag it lacks, and never
/// stands at the top level.
pub proof fn lemma_opml_feed_placement(
    plan: OpmlPlan,
    feeds: Seq<Feed>,
    site: Seq<char>,
    k: int,
)
    requires
        plan_matches(plan, feeds, site),
        0 <= k < feeds.len(),
        !feeds[k].hidden,
    ensures
        feeds[k].tags@.len() == 0
            ==> entry_for(plan.top@, feeds[k], site, None::<Seq<char>>),
        feeds[k].tags@.len() > 0 ==> !feeds.filter(top_pred()).contains(feeds[k]),
        forall|ti: int| 0 <= ti < feeds[k].tags@.len()
            ==> placed_in_groups(plan, feeds, site, k, ti),
        forall|g: int| 0 <= g < plan.groups@.len()
            && !has_tag(feeds[k], (#[trigger] plan.groups@[g]).tag@)
            ==> !feeds.filter(group_pred(plan.groups@[g].tag@)).contains(feeds[k]),
{
    broadcast use vstd::seq_lib::group_filter_ensures;

    if feeds[k].tags@.len() == 0 {
        assert(top_pred()(feeds[k]));
        assert(feeds.filter(top_pred()).contains(feeds[k]));
        let i = choose|i: int| 0 <= i < feeds.filter(top_pred()).len()
            && feeds.filter(top_pred())[i] == feeds[k];
        assert(entry_matches(plan.top@[i], feeds[k], site, None::<Seq<char>>));
    } else {
        if feeds.filter(top_pred()).contains(feeds[k]) {
            let i = choose|i: int| 0 <= i < feeds.filter(top_pred()).len()
                && feeds.filter(top_pred())[i] == feeds[k];
            assert(top_pred()(feeds.filter(top_pred())[i]));
            assert(false);
        }
    }
    assert forall|ti: int| 0 <= ti < feeds[k].tags@.len() implies
        placed_in_groups(plan, feeds, site, k, ti) by {
        assert(group_listed(plan.groups@, feeds[k].tags@[ti]@));
        let g = choose|g: int| 0 <= g < plan.groups@.len()
            && (#[trigger] plan.groups@[g]).tag@ == feeds[k].tags@[ti]@;
        let tag = plan.groups@[g].tag@;
        assert(has_tag(feeds[k], tag)) by {
            assert(feeds[k].tags@[ti]@ == tag);
        }
        assert(group_pred(tag)(feeds[k]));
        assert(feeds.filter(group_pred(tag)).contains(feeds[k]));
        let i = choose|i: int| 0 <= i < feeds.filter(group_pred(tag)).len()
            && feeds.filter(group_pred(tag))[i] == feeds[k];
        assert(group_ok(plan.groups@[g], feeds, site));
        assert(entry_matches(plan.groups@[g].entries@[i], feeds[k], site, Some(tag)));
        assert(entry_for(plan.groups@[g].entries@, feeds[k], site, Some(tag)));
        assert(0 <= g < plan.groups@.len()
            && plan.groups@[g].tag@ == feeds[k].tags@[ti]@
            && entry_for(plan.groups@[g].entries@, feeds[k], site,
                Some(plan.groups@[g].tag@)));
    }
    assert forall|g: int| 0 <= g < plan.groups@.len()
        && !has_tag(feeds[k], (#[trigger] plan.groups@[g]).tag@) implies
        !feeds.filter(group_pred(plan.groups@[g].tag@)).contains(feeds[k]) by {
        let tag = plan.groups@[g].tag@;
        if feeds.filter(group_pred(tag)).contains(feeds[k]) {
            let i = choose|i: int| 0 <= i < feeds.filter(group_pred(tag)).len()
                && feeds.filter(group_pred(tag))[i] == feeds[k];
            assert(group_pred(tag)(feeds.filter(group_pred(tag))[i]));
            assert(false);
        }
    }
}

/// A hidden feed stands nowhere in the subscription list: neither at the
/// top level nor in any tag group.
pub proof fn lemma_opml_excludes_hidden(
    plan: OpmlPlan,
    feeds: Seq<Feed>,
    site: Seq<char>,
    k: int,
)
    requires
        plan_matches(plan, feeds, site),
        0 <= k < feeds.len(),
        feeds[k].hidden,
    ensures
        !feeds.filter(top_pred()).contains(feeds[k]),
        forall|g: int| 0 <= g < plan.groups@.len()
            ==> !feeds.filter(group_pred((#[trigger] plan.groups@[g]).tag@))
                .contains(feeds[k]),
{
    broadcast use vstd::seq_lib::group_filter_ensures;

    if feeds.filter(top_pred()).contains(feeds[k]) {
        let i = choose|i: int| 0 <= i < feeds.filter(top_pred()).len()
            && feeds.filter(top_pred())[i] == feeds[k];
        assert(top_pred()(feeds.filter(top_pred())[i]));
        assert(false);
    }
    assert forall|g: int| 0 <= g < plan.groups@.len() implies
        !feeds.filter(group_pred((#[trigger] plan.groups@[g]).tag@)).contains(feeds[k]) by {
        let tag = plan.groups@[g].tag@;
        if feeds.filter(group_pred(tag)).contains(feeds[k]) {
            let i = choose|i: int| 0 <= i < feeds.filter(group_pred(tag)).len()
                && feeds.filter(group_pred(tag))[i] == feeds[k];
            assert(group_pred(tag)(feeds.filter(group_pred(tag))[i]));
            assert(false);
        }
    }
}

} // verus!
