use liveboat::opml_out::generate_opml;
use liveboat::rss_out::generate_rss_channel;
use liveboat::{Feed, FeedItem, FeedSource, Options, SimpleContext};

// The tests render time-stamped documents against a fixed moment.
const NOW: i64 = 1733974974;

#[test]
fn test_generating_rss_channel_from_feeds() {
    let mut f1 = Feed::init(
        "www.example.com/rss".to_string(),
        "Test feed 1".to_string(),
        "www.example.com".to_string(),
    );
    f1.items.push(FeedItem::new(
        "item1",
        "http://test1.com",
        "",
        "exaroth",
        1733000000,
        false,
        "Test content 1",
        1,
    ));
    f1.items.push(FeedItem::new(
        "item2",
        "http://test2.com",
        "",
        "exaroth",
        1733100000,
        false,
        "Test content 2",
        2,
    ));
    f1.items.push(FeedItem::new(
        "item3",
        "http://test3.com",
        "",
        "exaroth",
        1733200000,
        true,
        "Test content 3",
        3,
    ));
    f1.update_with_url_data(
        Vec::from(["dev".to_string(), "tech".to_string()]),
        false,
        Some("Title override".to_string()),
        1,
    );
    let mut f2 = Feed::init_query_feed("Query feed".to_string(), 1);
    f2.items.push(FeedItem::new(
        "item4",
        "http://test4.com",
        "",
        "exaroth",
        1733000000,
        false,
        "Test content 4",
        4,
    ));
    let mut f3 = Feed::init(
        "www.example.com/rss".to_string(),
        "Test feed 1".to_string(),
        "www.example.com".to_string(),
    );
    f3.items.push(FeedItem::new(
        "item5",
        "http://test5.com",
        "",
        "exaroth",
        1733000000,
        false,
        "Test content 5",
        5,
    ));
    f3.update_with_url_data(Vec::new(), true, None, 1);

    // f3 is hidden, so its article does not enter the aggregated channel.
    let result = generate_rss_channel(&Options::default(), &Vec::from([f1, f2, f3]), true, NOW);
    assert_eq!(result, "<?xml version=\"1.0\" encoding=\"utf-8\"?><rss version=\"2.0\"><channel><title>Liveboat feed page</title><link>http://site-url-not-set.io/you-can-set-it-in-liveboat-config</link><description>Liveboat RSS Feed</description><item><title>item3</title><link>http://test3.com</link><author>exaroth</author><pubDate>Tue, 3 Dec 2024 04:26:40 +0000</pubDate></item><item><title>item2</title><link>http://test2.com</link><author>exaroth</author><pubDate>Mon, 2 Dec 2024 00:40:00 +0000</pubDate></item><item><title>item1</title><link>http://test1.com</link><author>exaroth</author><pubDate>Sat, 30 Nov 2024 20:53:20 +0000</pubDate></item><item><title>item4</title><link>http://test4.com</link><author>exaroth</author><pubDate>Sat, 30 Nov 2024 20:53:20 +0000</pubDate></item></channel></rss>")
}

#[test]
fn test_generating_rss_with_media() {
    let mut f1 = Feed::init(
        "www.example.com/rss".to_string(),
        "Test feed 1".to_string(),
        "www.example.com".to_string(),
    );
    let mut item = FeedItem::new(
        "item1",
        "http://test1.com",
        "",
        "exaroth",
        1733000000,
        false,
        "Test content 1",
        1,
    );
    item.enc_url = Some(String::from("http://www.example.com/test.mp3"));
    item.enc_mime = Some(String::from("audio/mp3"));
    f1.items.push(item);
    let result = generate_rss_channel(&Options::default(), &Vec::from([f1]), true, NOW);
    assert_eq!(result, "<?xml version=\"1.0\" encoding=\"utf-8\"?><rss version=\"2.0\"><channel><title>Liveboat feed page</title><link>http://site-url-not-set.io/you-can-set-it-in-liveboat-config</link><description>Liveboat RSS Feed</description><item><title>item1</title><link>http://test1.com</link><author>exaroth</author><enclosure url=\"http://www.example.com/test.mp3\" length=\"\" type=\"audio/mp3\"/><pubDate>Sat, 30 Nov 2024 20:53:20 +0000</pubDate></item></channel></rss>")
}

#[test]
fn test_generating_channel_feed() {
    let mut f1 = Feed::init(
        "www.example.com/rss".to_string(),
        "Test feed 1".to_string(),
        "www.example.com".to_string(),
    );
    let item = FeedItem::new(
        "item1",
        "http://test1.com",
        "",
        "exaroth",
        1733000000,
        false,
        "Test content 1",
        1,
    );
    f1.items.push(item);
    let result = generate_rss_channel(&Options::default(), &Vec::from([f1]), false, NOW);
    assert_eq!(result, "<?xml version=\"1.0\" encoding=\"utf-8\"?><rss version=\"2.0\"><channel><title>Test feed 1</title><link>http://site-url-not-set.io/you-can-set-it-in-liveboat-config</link><description></description><item><title>item1</title><link>http://test1.com</link><author>exaroth</author><pubDate>Sat, 30 Nov 2024 20:53:20 +0000</pubDate></item></channel></rss>")
}

#[test]
fn test_generating_rss_with_query_feeds() {
    let mut f = Feed::init(
        "www.example.com/rss".to_string(),
        "Test feed".to_string(),
        "www.example.com".to_string(),
    );
    let i1 = FeedItem::new(
        "item1",
        "http://test1.com",
        "",
        "exaroth",
        1733000000,
        false,
        "Test content 1",
        1,
    );
    f.items.push(i1.clone());
    let mut qf = Feed::init_query_feed(String::from("Test query feed"), 1);
    qf.items.push(i1.clone());
    let result = generate_rss_channel(&Options::default(), &Vec::from([f, qf]), true, NOW);
    assert_eq!(result, "<?xml version=\"1.0\" encoding=\"utf-8\"?><rss version=\"2.0\"><channel><title>Liveboat feed page</title><link>http://site-url-not-set.io/you-can-set-it-in-liveboat-config</link><description>Liveboat RSS Feed</description><item><title>item1</title><link>http://test1.com</link><author>exaroth</author><pubDate>Sat, 30 Nov 2024 20:53:20 +0000</pubDate></item></channel></rss>")
}

#[test]
fn test_generting_rss_with_hidden_feeds() {
    let mut f = Feed::init(
        "www.example.com/rss".to_string(),
        "Test feed".to_string(),
        "www.example.com".to_string(),
    );
    f.update_with_url_data(Vec::new(), true, None, 1);
    let i1 = FeedItem::new(
        "item1",
        "http://test1.com",
        "",
        "exaroth",
        1733000000,
        false,
        "Test content 1",
        1,
    );
    f.items.push(i1);
    // A hidden feed's articles stay out of the aggregated channel, as they
    // stay out of the per-feed artifacts and the subscription list.
    let result = generate_rss_channel(&Options::default(), &Vec::from([f]), true, NOW);
    assert_eq!(result, "<?xml version=\"1.0\" encoding=\"utf-8\"?><rss version=\"2.0\"><channel><title>Liveboat feed page</title><link>http://site-url-not-set.io/you-can-set-it-in-liveboat-config</link><description>Liveboat RSS Feed</description></channel></rss>")
}

#[test]
fn test_generating_opml_from_feeds() {
    let f1 = Feed::init(
        "www.test1.com/rss".to_string(),
        "Test feed 1".to_string(),
        "www.example.com".to_string(),
    );
    let mut f2 = Feed::init(
        "www.test2.com/rss".to_string(),
        "Test feed 2".to_string(),
        "www.example2.com".to_string(),
    );
    f2.tags.push("test".to_string());
    let f3 = Feed::init_query_feed("Query feed".to_string(), 1);
    let opts = Options::default();
    let result = generate_opml(
        &opts,
        &Vec::from([f1, f2, f3]),
        &"http://www.example.com".to_string(),
        NOW,
    )
    .unwrap();
    assert_eq!("<opml version=\"2.0\"><head><title>Liveboat feed page</title><dateCreated>Thu, 12 Dec 2024 03:42:54 +0000</dateCreated><dateModified>Thu, 12 Dec 2024 03:42:54 +0000</dateModified></head><body><outline text=\"test\" title=\"test\"><outline text=\"Test feed 2\" type=\"rss\" category=\"test\" xmlUrl=\"www.test2.com/rss\" htmlUrl=\"www.example2.com\" title=\"Test feed 2\"/></outline><outline text=\"Test feed 1\" type=\"rss\" xmlUrl=\"www.test1.com/rss\" htmlUrl=\"www.example.com\" title=\"Test feed 1\"/><outline text=\"Query feed\" type=\"rss\" xmlUrl=\"http://www.example.com/channels/5aSKHsoqmmoCnw.xml\" htmlUrl=\"http://www.example.com/\" title=\"Query feed\"/></body></opml>", result)
}

#[test]
fn test_processing_feeds_for_template() {
    // Feed non hidden with an item
    let item1 = FeedItem::new("item1", "http://test.com", "", "", 123456, false, "", 1);

    let mut f1 = Feed::init(
        "http://example.com".to_string(),
        "Url feed1".to_string(),
        "http://testfeed.com".to_string(),
    );
    f1.update_with_url_data(Vec::new(), false, None, 4);
    f1.add_item(item1.clone());

    // Hidden url feed with items
    let mut f2 = Feed::init(
        "http://example2.com".to_string(),
        "Url feed2".to_string(),
        "http://testfeed.com".to_string(),
    );
    f2.update_with_url_data(Vec::new(), true, None, 2);
    f2.add_item(item1.clone());

    // Feed with no items, non hidden
    let mut f3 = Feed::init(
        "http://example3.com".to_string(),
        "Url feed3".to_string(),
        "http://testfeed.com".to_string(),
    );
    f3.update_with_url_data(Vec::new(), false, None, 1);

    let feeds = Vec::from([f1, f2, f3]);

    let mut query_feeds = Vec::new();
    // Query feed with no items
    query_feeds.push(Feed::init_query_feed(String::from("Query feed1"), 10));
    // Query feed with items
    let mut qfeed = Feed::init_query_feed(String::from("Query feed2"), 2);
    qfeed.add_item(item1.clone());
    query_feeds.push(qfeed);

    let ctx = SimpleContext::init(feeds, query_feeds, 0);

    assert_eq!(4, ctx.feeds.len());
    let titles = ctx
        .feeds
        .iter()
        .map(|f| f.title().clone())
        .collect::<Vec<String>>();
    assert!(titles.contains(&"Url feed1".to_string()));
    assert!(titles.contains(&"Url feed2".to_string()));
    assert!(titles.contains(&"Url feed3".to_string()));
    assert!(titles.contains(&"Query feed2".to_string()));
}

#[test]
fn rss_item_carries_all_fields() {
    let mut item = FeedItem::new(
        "t",
        "http://a.example/x",
        "",
        "au",
        1733000000,
        true,
        "c",
        9,
    );
    item.text = Some("body text".to_string());
    item.enc_url = Some("http://a.example/m.mp3".to_string());
    item.enc_mime = Some("audio/mp3".to_string());
    item.set_source(FeedSource {
        title: "Owner".to_string(),
        feedlink: "http://o.example".to_string(),
        tags: vec!["dev".to_string(), "news".to_string()],
    });
    let r = item.to_rss_item(true);
    assert_eq!(Some("t".to_string()), r.title);
    assert_eq!(Some("http://a.example/x".to_string()), r.link);
    assert_eq!(Some("au".to_string()), r.author);
    assert_eq!(Some("Sat, 30 Nov 2024 20:53:20 +0000".to_string()), r.pub_date);
    assert_eq!(Some("body text".to_string()), r.content);
    let src = r.source.unwrap();
    assert_eq!(Some("Owner".to_string()), src.title);
    assert_eq!("http://o.example", src.url);
    assert_eq!(2, r.categories.len());
    assert_eq!("dev", r.categories[0].name);
    assert_eq!("news", r.categories[1].name);
    let enc = r.enclosure.unwrap();
    assert_eq!("http://a.example/m.mp3", enc.url);
    assert_eq!("audio/mp3", enc.mime_type);
    assert_eq!("", enc.length);
    // without the content flag the body text stays out
    let r2 = item.to_rss_item(false);
    assert_eq!(None, r2.content);
}

#[test]
fn out_of_range_dates_render_empty() {
    // the RFC 2822 format stops at four-digit years; such dates render
    // as an empty publish date instead of aborting the build
    let late = FeedItem::new("t", "u", "", "", 253402300800, true, "", 1);
    assert_eq!(Some(String::new()), late.to_rss_item(false).pub_date);
    let early = FeedItem::new("t", "u", "", "", -62167219201, true, "", 2);
    assert_eq!(Some(String::new()), early.to_rss_item(false).pub_date);
}
