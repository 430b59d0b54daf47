use vstd::prelude::*;

verus! {

/// The main configuration options available to the user. Reading and
/// writing the configuration file is the surrounding application's job;
/// the build logic only consumes the plain values.
pub struct Options {
    /// Title of the page.
    pub title: String,
    /// Root path for the feed site.
    pub site_path: String,
    /// Base site URL, required for the self-referential query-feed
    /// channels referenced from the OPML document.
    pub site_url: String,
    /// Whether to show articles already marked as read.
    pub show_read_articles: bool,
    /// Whether to resolve direct links in Reddit feeds.
    pub scrape_reddit_links: bool,
    /// Whether to resolve comment links in Hacker News feeds.
    pub scrape_hn_links: bool,
    /// Whether generated RSS channels carry full article content.
    pub include_article_content_in_rss_feeds: bool,
    /// Path to the feed reader's subscription file.
    pub newsboat_urls_file: String,
    /// Path to the feed reader's cache database.
    pub newsboat_cache_file: String,
    /// How many days back articles are processed for.
    pub time_threshold: u64,
    /// Path of the output directory.
    pub build_dir: String,
    /// Name of the page template to use.
    pub template_name: String,
}

impl Options {
    /// The default option settings.
    pub fn default() -> (r: Options)
        ensures
            r.title@ == "Liveboat feed page"@,
            r.site_path@ == "/"@,
            r.site_url@ == "http://site-url-not-set.io/you-can-set-it-in-liveboat-config"@,
            r.show_read_articles,
            r.scrape_reddit_links,
            r.scrape_hn_links,
            r.include_article_content_in_rss_feeds,
            r.newsboat_urls_file@ == Seq::<char>::empty(),
            r.newsboat_cache_file@ == Seq::<char>::empty(),
            r.time_threshold == 20,
            r.build_dir@ == Seq::<char>::empty(),
            r.template_name@ == "default"@,
    {
        Options {
            title: String::from_str("Liveboat feed page"),
            site_path: String::from_str("/"),
            site_url: String::from_str(
                "http://site-url-not-set.io/you-can-set-it-in-liveboat-config",
            ),
            show_read_articles: true,
            scrape_reddit_links: true,
            scrape_hn_links: true,
            include_article_content_in_rss_feeds: true,
            newsboat_urls_file: String::new(),
            newsboat_cache_file: String::new(),
            time_threshold: 20,
            build_dir: String::new(),
            template_name: String::from_str("default"),
        }
    }

    /// Name of the page template to use.
    pub fn template_name(&self) -> (r: &String)
        ensures
            r == self.template_name,
    {
        &self.template_name
    }
}

} // verus!
