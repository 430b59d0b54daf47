use liveboat::content::process_article_content;
use liveboat::errors::{ContentError, FeedFault};
use liveboat::feed::build_feed_list;
use liveboat::opml_out::opml_plan;
use liveboat::pipeline::{next_build_state, BuildPhase, BuildState, StepOutcome};
use liveboat::rss_out::aggregate_channel_items;
use liveboat::{Feed, FeedItem, Options};

// The tests evaluate time-dependent behaviour against a fixed moment.
const NOW: i64 = 1733974974;

fn item_at(guid: i64, date: i64) -> FeedItem {
    FeedItem::new("item", "http://test.com/x", "", "", date, true, "", guid)
}

// An article is never younger than zero days; a publication date in the
// future counts as zero.
#[test]
fn age_is_never_negative() {
    let future = item_at(1, NOW + 86_400 * 30);
    assert_eq!(0, future.age(NOW));
    let ancient = item_at(2, -86_400);
    assert!(ancient.age(NOW) >= 0);
    let two_days = item_at(3, NOW - 2 * 86_400 - 10);
    assert_eq!(2, two_days.age(NOW));
}

// With 60 articles and fewer than 50 within the recency cutoff, the live
// window holds exactly 50.
#[test]
fn live_window_caps_at_bound() {
    let mut f = Feed::init("u".to_string(), "t".to_string(), "l".to_string());
    for g in 0..5 {
        f.add_item(item_at(g, NOW - 3600)); // within the two-day cutoff
    }
    for g in 5..60 {
        f.add_item(item_at(g, NOW - 10 * 86_400)); // well past the cutoff
    }
    f.sort_items();
    assert_eq!(50, f.truncated_items_count(NOW));
    f.truncate_items(NOW);
    assert_eq!(50, f.items.len());
}

// With 60 articles and 55 within the cutoff, the live window holds all 55.
#[test]
fn live_window_grows_past_bound_with_recent_articles() {
    let mut f = Feed::init("u".to_string(), "t".to_string(), "l".to_string());
    for g in 0..55 {
        f.add_item(item_at(g, NOW - 3600));
    }
    for g in 55..60 {
        f.add_item(item_at(g, NOW - 10 * 86_400));
    }
    f.sort_items();
    assert_eq!(55, f.truncated_items_count(NOW));
    f.truncate_items(NOW);
    assert_eq!(55, f.items.len());
}

// Reading the latest-article age of an unsorted, non-empty feed is a
// fault, not a stale answer; once sorted, the value comes back.
#[test]
fn latest_article_age_faults_on_unsorted_feed() {
    let mut f = Feed::init("u".to_string(), "t".to_string(), "l".to_string());
    f.add_item(item_at(1, NOW - 3 * 86_400));
    let r = f.checked_attribute_value("latest_article_age", NOW);
    assert!(matches!(r, Err(FeedFault::UnsortedLatestAge)));
    f.sort_items();
    let r = f.checked_attribute_value("latest_article_age", NOW);
    assert_eq!(Ok(Some("3".to_string())), r.map_err(|_| ()));
}

// An empty feed answers with an empty string instead of faulting.
#[test]
fn latest_article_age_empty_feed() {
    let f = Feed::init("u".to_string(), "t".to_string(), "l".to_string());
    let r = f.checked_attribute_value("latest_article_age", NOW);
    assert_eq!(Ok(Some("".to_string())), r.map_err(|_| ()));
}

// Aggregation keeps one article per guid and orders the rest newest-first.
#[test]
fn aggregation_dedups_by_guid_and_sorts() {
    let mut f1 = Feed::init("u1".to_string(), "t1".to_string(), "l1".to_string());
    f1.add_item(item_at(1, 1733000000));
    f1.add_item(item_at(2, 1733100000));
    let mut f2 = Feed::init("u2".to_string(), "t2".to_string(), "l2".to_string());
    f2.add_item(item_at(3, 1733200000));
    f2.add_item(item_at(1, 1733000000)); // duplicate guid, dropped
    let items = aggregate_channel_items(&Vec::from([f1, f2]), NOW);
    let guids: Vec<i64> = items.iter().map(|i| *i.guid()).collect();
    assert_eq!(vec![3, 2, 1], guids);
}

// A feed tagged twice appears once under each tag group and never at the
// top level; an untagged feed appears exactly once at the top level.
#[test]
fn opml_groups_tagged_feeds_and_tops_untagged_ones() {
    let mut tagged = Feed::init("u1".to_string(), "Tagged".to_string(), "l1".to_string());
    tagged.tags.push("dev".to_string());
    tagged.tags.push("news".to_string());
    let untagged = Feed::init("u2".to_string(), "Bare".to_string(), "l2".to_string());
    let plan = opml_plan(
        &Vec::from([tagged, untagged]),
        &"http://example.com".to_string(),
    );
    assert_eq!(2, plan.groups.len());
    let mut entries = 0;
    for g in &plan.groups {
        assert_eq!(1, g.entries.len());
        assert_eq!("Tagged", g.entries[0].title);
        entries += g.entries.len();
    }
    assert_eq!(2, entries);
    assert_eq!(1, plan.top.len());
    assert_eq!("Bare", plan.top[0].title);
}

// Hidden feeds are excluded from the per-feed index, from the
// subscription list, and from the aggregated channel alike.
#[test]
fn hidden_feeds_are_excluded_from_all_outputs() {
    let mut f = Feed::init("u1".to_string(), "Hidden".to_string(), "l1".to_string());
    f.tags.push("dev".to_string());
    f.add_item(item_at(1, NOW));
    f.update_with_url_data(Vec::from(["dev".to_string()]), true, None, 0);
    let feeds = Vec::from([f]);
    let list = build_feed_list(&feeds);
    assert_eq!(0, list.feeds.len());
    let plan = opml_plan(&feeds, &"http://example.com".to_string());
    assert_eq!(0, plan.groups.len());
    assert_eq!(0, plan.top.len());
    let items = aggregate_channel_items(&feeds, NOW);
    assert_eq!(0, items.len());
}

// The per-feed index lists non-empty, non-hidden feeds with their data.
#[test]
fn feed_list_carries_compact_entries() {
    let mut shown = Feed::init("u1".to_string(), "Shown".to_string(), "l1".to_string());
    shown.add_item(item_at(1, NOW));
    let empty = Feed::init("u2".to_string(), "Empty".to_string(), "l2".to_string());
    let list = build_feed_list(&Vec::from([shown, empty]));
    assert_eq!(1, list.feeds.len());
    assert_eq!("Shown", list.feeds[0].title);
    assert_eq!(1, list.feeds[0].num_items);
}

// Reddit link resolution rewrites the working URL to the anchor target
// and keeps the original address as the comments link.
#[test]
fn reddit_resolution_rewrites_url() {
    let url = "https://www.reddit.com/r/test/comments/1".to_string();
    let feedlink = "https://www.reddit.com".to_string();
    let feed_url = "https://www.reddit.com/r/test/.rss".to_string();
    let content = "<a href=\"http://example.org/x\">[link]</a>".to_string();
    let mut opts = Options::default();
    opts.scrape_hn_links = false;
    let res = process_article_content(&url, &feedlink, &feed_url, &content, &opts).unwrap();
    assert_eq!("http://example.org/x", res.url);
    assert_eq!(Some(url), res.comments_url);
}

// A resolved target on one of Reddit's own domains is skipped: the
// working URL stays as it was and no comments link is recorded.
#[test]
fn reddit_resolution_skips_self_referential_targets() {
    let url = "https://www.reddit.com/r/test/comments/1".to_string();
    let feedlink = "https://www.reddit.com".to_string();
    let feed_url = "https://www.reddit.com/r/test/.rss".to_string();
    let content = "<a href=\"https://www.reddit.com/r/test/comments/1\">[link]</a>".to_string();
    let mut opts = Options::default();
    opts.scrape_hn_links = false;
    let res = process_article_content(&url, &feedlink, &feed_url, &content, &opts).unwrap();
    assert_eq!(url, res.url);
    assert_eq!(None, res.comments_url);
}

// An article URL that does not parse fails content processing.
#[test]
fn unparseable_article_url_is_an_error() {
    let url = "not a url".to_string();
    let feedlink = "http://example.com".to_string();
    let feed_url = "http://example.com/rss".to_string();
    let content = "".to_string();
    let opts = Options::default();
    let res = process_article_content(&url, &feedlink, &feed_url, &content, &opts);
    assert!(matches!(res, Err(ContentError::InvalidUrl)));
}

// Comment links of items from the hnrss service are picked out of the
// body; an ask-section feed does not trigger a remote fetch, so the
// content is extracted locally.
#[test]
fn hnrss_comment_links_are_resolved() {
    let url = "http://example.org/story".to_string();
    let feedlink = "https://hnrss.org/ask".to_string();
    let feed_url = "https://hnrss.org/ask".to_string();
    let content = "<p>Article text here.</p>\n<p>Comments URL: <a href=\"https://news.ycombinator.com/item?id=7\">discuss</a></p>".to_string();
    let mut opts = Options::default();
    opts.scrape_reddit_links = false;
    let res = process_article_content(&url, &feedlink, &feed_url, &content, &opts).unwrap();
    assert_eq!(
        Some("https://news.ycombinator.com/item?id=7".to_string()),
        res.comments_url
    );
    assert_eq!(url, res.url);
    assert_eq!(res.text.len(), res.content_length());
}

// A build run walks its phases in order and ends `Done`; a fatal error
// routes through cleanup and ends `Failed`.
#[test]
fn build_run_cleans_up_before_ending() {
    let mut s = BuildState { phase: BuildPhase::Init, failed: false };
    let order = [
        BuildPhase::Fetch,
        BuildPhase::Merge,
        BuildPhase::Enrich,
        BuildPhase::Match,
        BuildPhase::Emit,
        BuildPhase::Publish,
        BuildPhase::Cleanup,
        BuildPhase::Done,
    ];
    for phase in order {
        s = next_build_state(&s, &StepOutcome::Success);
        assert_eq!(phase, s.phase);
    }

    let emitting = BuildState { phase: BuildPhase::Emit, failed: false };
    let s = next_build_state(&emitting, &StepOutcome::Fatal);
    assert_eq!(BuildPhase::Cleanup, s.phase);
    assert!(s.failed);
    let s = next_build_state(&s, &StepOutcome::Success);
    assert_eq!(BuildPhase::Failed, s.phase);
}

// The working URL is rewritten to the parsed form of the target: a bare
// authority gains its canonical trailing slash.
#[test]
fn reddit_resolution_normalizes_target() {
    let url = "https://www.reddit.com/r/test/comments/2".to_string();
    let feedlink = "https://www.reddit.com".to_string();
    let feed_url = "https://www.reddit.com/r/test/.rss".to_string();
    let content = "<a href=\"http://example.org\">[link]</a>".to_string();
    let mut opts = Options::default();
    opts.scrape_hn_links = false;
    let res = process_article_content(&url, &feedlink, &feed_url, &content, &opts).unwrap();
    assert_eq!("http://example.org/", res.url);
}

// An article whose URL path is the Hacker News host string keeps its own
// address as the comments link, without a remote fetch.
#[test]
fn hn_self_path_keeps_article_url_as_comments() {
    let url = "foo:news.ycombinator.com".to_string();
    let feedlink = "https://hnrss.org/frontpage".to_string();
    let feed_url = "https://hnrss.org/frontpage".to_string();
    let content = "<p>text</p>".to_string();
    let mut opts = Options::default();
    opts.scrape_reddit_links = false;
    let res = process_article_content(&url, &feedlink, &feed_url, &content, &opts).unwrap();
    assert_eq!(Some("foo:news.ycombinator.com".to_string()), res.comments_url);
    assert_eq!(url, res.url);
}

// Local readability extraction replaces the raw markup with readable
// content: the bare text keeps the words and drops the tags.
#[test]
fn local_extraction_strips_markup() {
    let url = "http://example.org/a".to_string();
    let feedlink = "http://example.org".to_string();
    let feed_url = "http://example.org/rss".to_string();
    let content =
        "<html><body><article><p>Hello readable world, this text should survive extraction.</p></article></body></html>"
            .to_string();
    let mut opts = Options::default();
    opts.scrape_reddit_links = false;
    opts.scrape_hn_links = false;
    let res = process_article_content(&url, &feedlink, &feed_url, &content, &opts).unwrap();
    assert!(res.text.contains("Hello readable world"));
    assert!(!res.text.contains('<'));
    assert_eq!(res.text.len(), res.content_length());
}
