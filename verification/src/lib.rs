use vstd::prelude::*;

pub mod content;
pub mod errors;
pub mod feed;
pub mod feed_item;
pub mod opml_out;
pub mod opts;
pub mod pipeline;
pub mod rss_out;
pub mod template;
pub mod text;
pub mod urls;
mod version;

pub use content::ContentProcessingResult;
pub use feed::{Feed, FeedCompact, FeedList};
pub use feed_item::{FeedItem, FeedSource};
pub use opts::Options;
pub use template::SimpleContext;
pub use urls::{QueryFeed, UrlReader, URLFeed};
pub use version::Version;

verus! {

} // verus!
