use libnewsboat::matchable::Matchable;
use liveboat::pipeline::{build_query_feed, merge_url_feeds, populate_url_feeds};
use liveboat::{Feed, FeedItem, UrlReader};

// The tests evaluate time-dependent attributes against a fixed moment.
const NOW: i64 = 1733974974;

// The external filter evaluator matches over the attribute schema the
// library exposes; this adapter hands it one article with its owning feed.
struct MatchTarget<'a> {
    item: &'a FeedItem,
    owner: &'a Feed,
}

impl<'a> Matchable for MatchTarget<'a> {
    fn attribute_value(&self, attr: &str) -> Option<String> {
        self.item.attribute_value(Some(self.owner), attr, NOW)
    }
}

fn match_verdicts(matcher: &libnewsboat::matcher::Matcher, feeds: &Vec<Feed>) -> Vec<Vec<bool>> {
    let mut verdicts = Vec::new();
    for f in feeds {
        let mut row = Vec::new();
        for item in &f.items {
            let target = MatchTarget { item, owner: f };
            row.push(matcher.matches(&target).unwrap_or(false));
        }
        verdicts.push(row);
    }
    verdicts
}

#[test]
fn test_processing_query_feeds_simple() {
    let contents = "
\"query:News:tags # \\\"news\\\"\"
            ";
    let reader = UrlReader::init(contents.to_string());
    let queries = reader.get_query_urls().unwrap();
    assert_eq!(1, queries.len());

    let mut f1 = Feed::init("".to_string(), "Feed1".to_string(), "".to_string());
    f1.update_with_url_data(Vec::from(["news".to_string()]), false, None, 0);
    let item1 = FeedItem::new("Feed1 Item1", "http://feed1.com", "", "", 970000000, true, "", 1);
    f1.add_item(item1);

    let mut f2 = Feed::init("".to_string(), "Feed2".to_string(), "".to_string());
    f2.update_with_url_data(Vec::from(["other".to_string()]), false, None, 0);
    let item2 = FeedItem::new("Feed2 Item1", "http://feed1.com", "", "", 970000000, true, "", 1);
    f2.add_item(item2);

    let feeds = Vec::from([f1, f2]);
    let q = &queries[0];
    let verdicts = match_verdicts(&q.matcher, &feeds);
    let qfeed = build_query_feed(q.title.clone(), q.line_no, &feeds, &verdicts);

    assert_eq!("News", qfeed.title());
    assert_eq!(1, qfeed.items.len());
}

#[test]
fn test_processing_query_feeds_with_multiple_queries() {
    let contents = "
\"query:News:tags # \\\"news\\\" and age < 4 and unread = \\\"yes\\\"\"
            ";
    let reader = UrlReader::init(contents.to_string());
    let queries = reader.get_query_urls().unwrap();
    assert_eq!(1, queries.len());

    let mut f1 = Feed::init("".to_string(), "Feed1".to_string(), "".to_string());
    f1.update_with_url_data(Vec::from(["news".to_string()]), false, None, 0);

    let item1 = FeedItem::new("Feed1 Item1", "http://feed1.com", "", "", 1733974974, true, "", 1);
    f1.add_item(item1);

    // older than 4 days
    let item2 = FeedItem::new("Feed1 Item2", "http://feed1.com", "", "", 1433974974, true, "", 2);
    f1.add_item(item2);

    // not unread
    let item3 = FeedItem::new("Feed1 Item3", "http://feed1.com", "", "", 1733974974, false, "", 3);
    f1.add_item(item3);

    let feeds = Vec::from([f1]);
    let q = &queries[0];
    let verdicts = match_verdicts(&q.matcher, &feeds);
    let qfeed = build_query_feed(q.title.clone(), q.line_no, &feeds, &verdicts);

    assert_eq!(1, qfeed.items.len());
    assert_eq!(&"Feed1 Item1".to_string(), qfeed.items[0].title());
}

#[test]
fn test_populating_url_feeds() {
    let f1 = Feed::init(
        "http://feed1.com".to_string(),
        "Feed1".to_string(),
        "".to_string(),
    );
    let f2 = Feed::init(
        "http://feed2.com".to_string(),
        "Feed2".to_string(),
        "".to_string(),
    );

    let item1 = FeedItem::new(
        "Feed1 Item1",
        "http://feed1.com/1",
        "http://feed1.com",
        "",
        1733974974,
        true,
        "",
        2,
    );
    let item2 = FeedItem::new(
        "Feed1 Item2",
        "http://feed1.com/2",
        "http://feed1.com",
        "",
        1433974974,
        true,
        "",
        2,
    );
    let item3 = FeedItem::new(
        "Feed2 item1",
        "http://feed2.com/1",
        "http://feed2.com",
        "",
        1733974974,
        false,
        "",
        3,
    );
    let item4 = FeedItem::new(
        "Feed0 item1 ",
        "http://feed0.com/1",
        "http://feed0.com",
        "",
        1733974974,
        false,
        "",
        4,
    );
    let mut feeds = Vec::from([f1, f2]);
    let items = Vec::from([item1, item2, item3, item4]);

    populate_url_feeds(&mut feeds, items, true);
    assert_eq!(2, feeds[0].items.len());
    assert_eq!(1, feeds[1].items.len());
}

#[test]
fn test_populating_url_feeds_with_unread_filtering() {
    let f1 = Feed::init(
        "http://feed1.com".to_string(),
        "Feed1".to_string(),
        "".to_string(),
    );

    let item1 = FeedItem::new(
        "Feed1 Item1",
        "http://feed1.com/1",
        "http://feed1.com",
        "",
        1733974974,
        true,
        "",
        2,
    );
    let item2 = FeedItem::new(
        "Feed1 Item2",
        "http://feed1.com/2",
        "http://feed1.com",
        "",
        1433974974,
        false,
        "",
        2,
    );

    let mut feeds = Vec::from([f1]);
    let items = Vec::from([item1, item2]);

    populate_url_feeds(&mut feeds, items, false);
    assert_eq!(1, feeds[0].items.len());
}

#[test]
fn test_processing_url_feeds() {
    let contents = "
http://feed1.com \"~Some feed\" dev
http://feed2.com \"~Some feed 2\"
http://feed3.com
            ";
    let reader = UrlReader::init(contents.to_string());

    let f1 = Feed::init(
        "http://feed1.com".to_string(),
        "Feed1".to_string(),
        "".to_string(),
    );
    let f2 = Feed::init(
        "http://feed2.com".to_string(),
        "Feed2".to_string(),
        "".to_string(),
    );
    let f3 = Feed::init(
        "http://feed3.com".to_string(),
        "Feed3".to_string(),
        "".to_string(),
    );
    let url_feeds = reader.get_url_feeds();
    let feeds = merge_url_feeds(Vec::from([f1, f2, f3]), &url_feeds);
    assert_eq!(3, feeds.len());
    assert_eq!("Feed1", feeds[0].title());
    assert_eq!("Some feed", feeds[0].display_title());
    assert_eq!("Feed2", feeds[1].title());
    assert_eq!("Some feed 2", feeds[1].display_title());
    assert_eq!("Feed3", feeds[2].title());
}
