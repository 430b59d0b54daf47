use vstd::prelude::*;
use vstd::arithmetic::div_mod::lemma_div_is_ordered;

verus! {

/// Seconds in one day, used to turn timestamp differences into ages.
pub const SECONDS_PER_DAY: i64 = 86400;

/// A snapshot of the owning feed's presentation data, carried by an
/// article so that channel output can attach source and category
/// information after the article has been copied out of its feed.
pub struct FeedSource {
    /// Display title of the owning feed.
    pub title: String,
    /// Site link of the owning feed.
    pub feedlink: String,
    /// Tags of the owning feed.
    pub tags: Vec<String>,
}

/// The mathematical value of a [`FeedSource`].
#[verifier::ext_equal]
pub struct FeedSourceView {
    pub title: Seq<char>,
    pub feedlink: Seq<char>,
    pub tags: Seq<String>,
}

impl View for FeedSource {
    type V = FeedSourceView;

    open spec fn view(&self) -> FeedSourceView {
        FeedSourceView {
            title: self.title@,
            feedlink: self.feedlink@,
            tags: self.tags@,
        }
    }
}

impl Clone for FeedSource {
    fn clone(&self) -> (r: Self)
        ensures
            r@ == self@,
    {
        let r = FeedSource {
            title: self.title.clone(),
            feedlink: self.feedlink.clone(),
            tags: clone_string_vec(&self.tags),
        };
        proof {
            assert(r@ =~~= self@);
        }
        r
    }
}

/// The age, in whole days, of a timestamp `date` as seen at time `now`,
/// never negative: a date in the future counts as zero days old.
pub open spec fn spec_age(date: int, now: int) -> int {
    if now <= date {
        0
    } else {
        (now - date) / (SECONDS_PER_DAY as int)
    }
}

/// Clone an optional string, preserving its value.
pub fn clone_opt_string(o: &Option<String>) -> (r: Option<String>)
    ensures
        r == *o,
{
    match o {
        Some(s) => Some(s.clone()),
        None => None,
    }
}

/// Clone a vector of strings, preserving its value.
pub fn clone_string_vec(v: &Vec<String>) -> (r: Vec<String>)
    ensures
        r@ == v@,
{
    let mut r: Vec<String> = Vec::new();
    let mut i: usize = 0;
    while i < v.len()
        invariant
            i <= v@.len(),
            r@ == v@.subrange(0, i as int),
        decreases v@.len() - i
    {
        r.push(v[i].clone());
        proof {
            assert(r@ =~= v@.subrange(0, i + 1 as int));
        }
        i += 1;
    }
    proof {
        assert(r@ =~= v@);
    }
    r
}

/// A single article, as cached by the external feed reader, together
/// with the fields this system derives for output.
pub struct FeedItem {
    /// URL of the feed this article was fetched from. For articles shown
    /// under a query feed this still names the source URL feed.
    pub feed_url: String,
    /// Title of the article.
    pub title: String,
    /// URL of the article.
    pub url: String,
    /// Author of the article.
    pub author: String,
    /// Publication timestamp, in epoch seconds.
    pub date: i64,
    /// Whether the article is still unread in the feed reader.
    pub unread: bool,
    /// Raw article content; may contain HTML markup.
    pub content: String,
    /// Extracted readable text, without markup, once enrichment ran.
    pub text: Option<String>,
    /// Stable numeric identifier, unique within the store.
    pub guid: i64,
    /// Length of the extracted text.
    pub content_length: usize,
    /// Link to the comments page, when one was resolved.
    pub comments_url: Option<String>,
    /// URL of an attached media enclosure.
    pub enc_url: Option<String>,
    /// MIME type of the enclosure.
    pub enc_mime: Option<String>,
    /// Feed-reader flags; unused by this system.
    pub flags: Option<String>,
    /// Snapshot of the owning feed's presentation data.
    pub source: Option<FeedSource>,
}

/// The mathematical value of a [`FeedItem`].
#[verifier::ext_equal]
pub struct FeedItemView {
    pub feed_url: Seq<char>,
    pub title: Seq<char>,
    pub url: Seq<char>,
    pub author: Seq<char>,
    pub date: int,
    pub unread: bool,
    pub content: Seq<char>,
    pub text: Option<Seq<char>>,
    pub guid: int,
    pub content_length: nat,
    pub comments_url: Option<Seq<char>>,
    pub enc_url: Option<Seq<char>>,
    pub enc_mime: Option<Seq<char>>,
    pub flags: Option<Seq<char>>,
    pub source: Option<FeedSourceView>,
}

impl View for FeedItem {
    type V = FeedItemView;

    open spec fn view(&self) -> FeedItemView {
        FeedItemView {
            feed_url: self.feed_url@,
            title: self.title@,
            url: self.url@,
            author: self.author@,
            date: self.date as int,
            unread: self.unread,
            content: self.content@,
            text: self.text.deep_view(),
            guid: self.guid as int,
            content_length: self.content_length as nat,
            comments_url: self.comments_url.deep_view(),
            enc_url: self.enc_url.deep_view(),
            enc_mime: self.enc_mime.deep_view(),
            flags: self.flags.deep_view(),
            source: match self.source {
                Some(s) => Some(s@),
                None => None,
            },
        }
    }
}

impl Clone for FeedItem {
    fn clone(&self) -> (r: Self)
        ensures
            r@ == self@,
    {
        let r = FeedItem {
            feed_url: self.feed_url.clone(),
            title: self.title.clone(),
            url: self.url.clone(),
            author: self.author.clone(),
            date: self.date,
            unread: self.unread,
            content: self.content.clone(),
            text: clone_opt_string(&self.text),
            guid: self.guid,
            content_length: self.content_length,
            comments_url: clone_opt_string(&self.comments_url),
            enc_url: clone_opt_string(&self.enc_url),
            enc_mime: clone_opt_string(&self.enc_mime),
            flags: clone_opt_string(&self.flags),
            source: match &self.source {
                Some(s) => Some(s.clone()),
                None => None,
            },
        };
        proof {
            assert(r@ =~~= self@);
        }
        r
    }
}

/// The views of a sequence of articles.
pub open spec fn items_view(s: Seq<FeedItem>) -> Seq<FeedItemView> {
    s.map_values(|it: FeedItem| it@)
}

impl FeedItem {
    /// Build an article from its plain parts; derived fields start empty.
    pub fn new(
        title: &str,
        url: &str,
        feed_url: &str,
        author: &str,
        date: i64,
        unread: bool,
        content: &str,
        guid: i64,
    ) -> (r: FeedItem)
        ensures
            r.title@ == title@,
            r.url@ == url@,
            r.feed_url@ == feed_url@,
            r.author@ == author@,
            r.date == date,
            r.unread == unread,
            r.content@ == content@,
            r.guid == guid,
            r.text is None,
            r.comments_url is None,
            r.enc_url is None,
            r.enc_mime is None,
            r.flags is None,
            r.source is None,
            r.content_length == 0,
    {
        FeedItem {
            feed_url: String::from_str(feed_url),
            title: String::from_str(title),
            url: String::from_str(url),
            author: String::from_str(author),
            date,
            unread,
            content: String::from_str(content),
            text: None,
            guid,
            content_length: 0,
            comments_url: None,
            enc_url: None,
            enc_mime: None,
            flags: None,
            source: None,
        }
    }

    /// URL of the feed this article belongs to.
    pub fn feed_url(&self) -> (r: &String)
        ensures
            r == self.feed_url,
    {
        &self.feed_url
    }

    /// Title of the article.
    pub fn title(&self) -> (r: &String)
        ensures
            r == self.title,
    {
        &self.title
    }

    /// URL of the article.
    pub fn url(&self) -> (r: &String)
        ensures
            r == self.url,
    {
        &self.url
    }

    /// Author of the article.
    pub fn author(&self) -> (r: &String)
        ensures
            r == self.author,
    {
        &self.author
    }

    /// Publication timestamp, in epoch seconds.
    pub fn date(&self) -> (r: i64)
        ensures
            r == self.date,
    {
        self.date
    }

    /// Whether the article is still unread.
    pub fn unread(&self) -> (r: bool)
        ensures
            r == self.unread,
    {
        self.unread
    }

    /// Whether the article is still unread.
    pub fn is_unread(&self) -> (r: bool)
        ensures
            r == self.unread,
    {
        self.unread
    }

    /// Raw article content.
    pub fn content(&self) -> (r: &String)
        ensures
            r == self.content,
    {
        &self.content
    }

    /// Stable numeric identifier of the article.
    pub fn guid(&self) -> (r: &i64)
        ensures
            r == self.guid,
    {
        &self.guid
    }

    /// Link to the comments page, when one was resolved.
    pub fn comments_url(&self) -> (r: &Option<String>)
        ensures
            r == self.comments_url,
    {
        &self.comments_url
    }

    /// Extracted readable text.
    pub fn text(&self) -> (r: &Option<String>)
        ensures
            r == self.text,
    {
        &self.text
    }

    /// Length of the extracted text.
    pub fn content_length(&self) -> (r: usize)
        ensures
            r == self.content_length,
    {
        self.content_length
    }

    /// URL of an attached media enclosure.
    pub fn enc_url(&self) -> (r: &Option<String>)
        ensures
            r == self.enc_url,
    {
        &self.enc_url
    }

    /// MIME type of the enclosure.
    pub fn enc_mime(&self) -> (r: &Option<String>)
        ensures
            r == self.enc_mime,
    {
        &self.enc_mime
    }

    /// Age of the article in whole days at time `now`, never negative;
    /// a publication date in the future counts as zero.
    pub fn age(&self, now: i64) -> (r: i64)
        ensures
            r as int == spec_age(self.date as int, now as int),
            r >= 0,
            self.date >= now ==> r == 0,
    {
        let d: i128 = (now as i128) - (self.date as i128);
        if d <= 0 {
            return 0;
        }
        let q: i128 = d / (SECONDS_PER_DAY as i128);
        proof {
            lemma_div_is_ordered(d as int, 0x2_0000_0000_0000_0000, SECONDS_PER_DAY as int);
        }
        q as i64
    }

    /// Record the owning feed's presentation snapshot.
    pub fn set_source(&mut self, src: FeedSource)
        ensures
            *final(self) == (FeedItem { source: Some(src), ..*old(self) }),
    {
        self.source = Some(src);
    }

    /// Replace the article content.
    pub fn set_content(&mut self, content: String)
        ensures
            *final(self) == (FeedItem { content, ..*old(self) }),
    {
        self.content = content;
    }

    /// Record the length of the extracted text.
    pub fn set_content_length(&mut self, size: usize)
        ensures
            *final(self) == (FeedItem { content_length: size, ..*old(self) }),
    {
        self.content_length = size;
    }

    /// Record the resolved comments link.
    pub fn set_comments_url(&mut self, url: String)
        ensures
            *final(self) == (FeedItem { comments_url: Some(url), ..*old(self) }),
    {
        self.comments_url = Some(url);
    }

    /// Record the extracted readable text.
    pub fn set_text(&mut self, text: String)
        ensures
            *final(self) == (FeedItem { text: Some(text), ..*old(self) }),
    {
        self.text = Some(text);
    }

    /// Replace the working URL of the article.
    pub fn set_url(&mut self, url: String)
        ensures
            *final(self) == (FeedItem { url, ..*old(self) }),
    {
        self.url = url;
    }
}

/// The view an optional string presents to the filter attribute schema:
/// an absent value reads as the empty string, so the filter grammar can
/// still reference the attribute.
pub open spec fn opt_str_view(o: Option<Seq<char>>) -> Seq<char> {
    match o {
        Some(s) => s,
        None => Seq::<char>::empty(),
    }
}

/// An optional string attribute rendered for the filter evaluator:
/// present values pass through and absent ones become the empty string.
pub fn opt_attr_val(attr: &Option<String>) -> (r: Option<String>)
    ensures
        r.deep_view() == Some(opt_str_view(attr.deep_view())),
{
    match attr {
        Some(a) => Some(a.clone()),
        None => Some(String::new()),
    }
}

} // verus!
