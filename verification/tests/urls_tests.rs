use liveboat::errors::UrlReaderError;
use liveboat::UrlReader;

#[test]
fn test_reading_empty_or_commented_lines() {
    let contents = "
# Test

            ";
    let reader = UrlReader::init(contents.to_string());
    assert_eq!(reader.lines.len(), 0);
}

#[test]
fn test_reading_url_or_query_lines() {
    let contents = "
https://hnrss.org/best \"~HN\" dev
exec:~/.scripts/pocket_atom
file:///home/exaroth/.scripts/atom.xml \"~ Atom Pocket\"
\"query:Youtube:tags # \\\"yt\\\"\"
            ";
    let reader = UrlReader::init(contents.to_string());
    assert_eq!(reader.lines.len(), 4);
}

#[test]
fn test_processing_url_feeds_simple() {
    let contents = "
https://hnrss.org/best
http://aphyr.com/posts.atom
            ";
    let reader = UrlReader::init(contents.to_string());
    assert_eq!(reader.lines.len(), 2);
    let feeds = reader.get_url_feeds();
    assert_eq!(2, feeds.len());
    assert_eq!(0, feeds[0].line_no);
    assert_eq!("https://hnrss.org/best", feeds[0].url);
    assert_eq!(false, feeds[0].hidden);
    assert_eq!(0, feeds[0].tags.len());
    assert_eq!(None, feeds[0].title_override);
    assert_eq!(1, feeds[1].line_no);
    assert_eq!("http://aphyr.com/posts.atom", feeds[1].url);
    assert_eq!(false, feeds[1].hidden);
    assert_eq!(None, feeds[1].title_override);
    assert_eq!(0, feeds[1].tags.len());
}

#[test]
fn test_processing_url_feeds_with_title_override() {
    let contents = "
https://hnrss.org/best \"~Override\"
            ";
    let reader = UrlReader::init(contents.to_string());
    assert_eq!(reader.lines.len(), 1);
    let feeds = reader.get_url_feeds();
    assert_eq!(1, feeds.len());
    assert!(feeds[0].title_override.is_some());
    assert_eq!(Some(String::from("Override")), feeds[0].title_override);
}

#[test]
fn test_processing_url_feeds_with_title_with_tags() {
    let contents = "
https://hnrss.org/best \"~Override\" dev news
https://techcrunch.com/feed/ tech
            ";
    let reader = UrlReader::init(contents.to_string());
    assert_eq!(reader.lines.len(), 2);
    let feeds = reader.get_url_feeds();
    assert_eq!(2, feeds.len());
    assert_eq!(2, feeds[0].tags.len());
    assert_eq!(Vec::from(["dev", "news"]), feeds[0].tags);
    assert_eq!(1, feeds[1].tags.len());
    assert_eq!(Vec::from(["tech"]), feeds[1].tags);
}

#[test]
fn test_processing_url_feeds_hidden() {
    let contents = "
https://hnrss.org/best \"~Override\" ! dev news
https://techcrunch.com/feed/ ! tech
https://kubernetes.io/feed.xml \"~Dev - Kubernetes Blog\" !
            ";
    let reader = UrlReader::init(contents.to_string());
    assert_eq!(reader.lines.len(), 3);
    let feeds = reader.get_url_feeds();
    assert_eq!(3, feeds.len());
    assert_eq!(true, feeds[0].hidden);
    assert_eq!(true, feeds[1].hidden);
    assert_eq!(true, feeds[2].hidden);
}

#[test]
fn test_processing_invalid_url_feeds() {
    let contents = "
git+https://invalid.com
gibberish
            ";
    let reader = UrlReader::init(contents.to_string());
    assert_eq!(reader.lines.len(), 2);
    let feeds = reader.get_url_feeds();
    assert_eq!(0, feeds.len());
}

#[test]
fn test_processing_file_based_feeds() {
    let contents = "
file:///home/exaroth/.scripts/atom.xml \"~Atom Pocket\"
            ";
    let reader = UrlReader::init(contents.to_string());
    assert_eq!(reader.lines.len(), 1);
    let feeds = reader.get_url_feeds();
    assert_eq!(1, feeds.len());
    assert_eq!(
        "file:///home/exaroth/.scripts/atom.xml".to_string(),
        feeds[0].url
    );
    assert_eq!(Some("Atom Pocket".to_string()), feeds[0].title_override);
}

#[test]
fn test_processing_exec_statements() {
    let contents = "
exec:~/.scripts/pocket_atom
            ";
    let reader = UrlReader::init(contents.to_string());
    assert_eq!(reader.lines.len(), 1);
    let feeds = reader.get_url_feeds();
    assert_eq!(0, feeds.len());
}

#[test]
fn test_processing_query_urls_simple() {
    let contents = "
\"query:Youtube:tags # \\\"yt\\\"\"
            ";
    let reader = UrlReader::init(contents.to_string());
    assert_eq!(reader.lines.len(), 1);
    let result = reader.get_query_urls();
    assert!(result.is_ok());
    let data = result.unwrap();
    assert_eq!(1, data.len());
    assert_eq!("Youtube".to_string(), data[0].title);
    assert_eq!(0, data[0].line_no);
}

#[test]
fn test_processing_query_urls_with_multiple_filters() {
    let contents = "
\"query:News:tags # \\\"news\\\" and age < 1 and unread = \\\"yes\\\"\"
            ";
    let reader = UrlReader::init(contents.to_string());
    assert_eq!(reader.lines.len(), 1);
    let result = reader.get_query_urls();
    assert!(result.is_ok());
    let data = result.unwrap();
    assert_eq!(1, data.len());
    assert_eq!("News".to_string(), data[0].title);
    assert_eq!(0, data[0].line_no);
}

#[test]
fn test_processing_query_urls_invalid() {
    let contents = "
\"query:Gibberish\"
            ";
    let result = UrlReader::init(contents.to_string()).get_query_urls();
    assert!(result.is_err());
    let contents = "
\"query:Youtube:tags # yt\"
            ";
    let result = UrlReader::init(contents.to_string()).get_query_urls();
    assert!(result.is_err());
}

#[test]
fn test_query_error_kinds() {
    // fewer than three colon-delimited parts
    let result = UrlReader::init("\"query:Gibberish\"".to_string()).get_query_urls();
    assert!(matches!(result, Err(UrlReaderError::InvalidQueryError(_))));
    // a filter the evaluator rejects (unquoted literal)
    let result = UrlReader::init("\"query:Youtube:tags # yt\"".to_string()).get_query_urls();
    assert!(matches!(result, Err(UrlReaderError::MatcherError(_))));
}
