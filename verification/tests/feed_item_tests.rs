use liveboat::{Feed, FeedItem};

// The tests evaluate time-dependent attributes against a fixed moment.
const NOW: i64 = 1733974974;

#[test]
fn test_matching_basic_feed_item_attrs() {
    let item = FeedItem::new(
        "item1",
        "http://test.com",
        "",
        "exaroth",
        123456,
        false,
        "Test content",
        1,
    );
    let mut attr = item.attribute_value(None, "title", NOW);
    assert_eq!(Some("item1".to_string()), attr);
    attr = item.attribute_value(None, "link", NOW);
    assert_eq!(Some("http://test.com".to_string()), attr);
    attr = item.attribute_value(None, "author", NOW);
    assert_eq!(Some("exaroth".to_string()), attr);
    attr = item.attribute_value(None, "unread", NOW);
    assert_eq!(Some("no".to_string()), attr);
    attr = item.attribute_value(None, "date", NOW);
    assert_eq!(Some("123456".to_string()), attr);
    attr = item.attribute_value(None, "age", NOW);
    assert_eq!(Some("20067".to_string()), attr);
    attr = item.attribute_value(None, "content", NOW);
    assert_eq!(Some("Test content".to_string()), attr);
    attr = item.attribute_value(None, "guid", NOW);
    assert_eq!(Some("1".to_string()), attr);
}

#[test]
fn test_matching_optional_feed_item_attrs() {
    let mut item = FeedItem::new(
        "item1",
        "http://test.com",
        "",
        "exaroth",
        123456,
        false,
        "Test content",
        1,
    );
    let mut attr = item.attribute_value(None, "enclosure_url", NOW);
    assert_eq!(Some("".to_string()), attr);
    attr = item.attribute_value(None, "enclosure_type", NOW);
    assert_eq!(Some("".to_string()), attr);
    attr = item.attribute_value(None, "flags", NOW);
    assert_eq!(Some("".to_string()), attr);
    item.enc_url = Some("http://test.com".to_string());
    item.enc_mime = Some("video/mp4".to_string());
    item.flags = Some("flag1 flag2".to_string());
    attr = item.attribute_value(None, "enclosure_url", NOW);
    assert_eq!(Some("http://test.com".to_string()), attr);
    attr = item.attribute_value(None, "enclosure_type", NOW);
    assert_eq!(Some("video/mp4".to_string()), attr);
    attr = item.attribute_value(None, "flags", NOW);
    assert_eq!(Some("flag1 flag2".to_string()), attr);
}

#[test]
fn test_falling_back_to_feed_attribute_if_not_found() {
    let mut f = Feed::init(
        "http://feed.com".to_string(),
        "Feed".to_string(),
        "http://feedlink.com".to_string(),
    );
    let item = FeedItem::new("item1", "http://test.com", "", "", 970000000, false, "", 1);
    f.add_item(item);
    let mut attr = f.items[0].attribute_value(Some(&f), "feedlink", NOW);
    assert_eq!(Some("http://feedlink.com".to_string()), attr);
    attr = f.items[0].attribute_value(Some(&f), "rssurl", NOW);
    assert_eq!(Some("http://feed.com".to_string()), attr);
    attr = f.items[0].attribute_value(Some(&f), "nonexistent", NOW);
    assert!(attr.is_none());
}

#[test]
fn test_retrieving_age_of_the_article() {
    let mut item = FeedItem::new(
        "item1",
        "http://test.com",
        "",
        "exaroth",
        1766842490,
        false,
        "Test content",
        1,
    );
    // Test for invalid dates (in the future)
    let mut age = item.attribute_value(None, "age", NOW);
    assert_eq!(age, Some("0".to_string()));
    // Test current day
    item = FeedItem::new(
        "item1",
        "http://test.com",
        "",
        "exaroth",
        1733974900,
        false,
        "Test content",
        1,
    );
    age = item.attribute_value(None, "age", NOW);
    assert_eq!(age, Some("0".to_string()));
    // 2 days backwards
    item = FeedItem::new(
        "item1",
        "http://test.com",
        "",
        "exaroth",
        1733800000,
        false,
        "Test content",
        1,
    );
    age = item.attribute_value(None, "age", NOW);
    assert_eq!(age, Some("2".to_string()));
}
