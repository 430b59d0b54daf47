use vstd::prelude::*;
use vstd::seq_lib::lemma_multiset_commutative;

use crate::feed_item::{
    clone_string_vec, opt_attr_val, spec_age, FeedItem, FeedItemView, items_view,
};
use crate::errors::FeedFault;
use crate::text::{dec_spec, i64_string, join_spaced, join_with_spaces, str_eq, usize_string};

verus! {

/// Most articles a truncated feed keeps, unless more fall within the
/// recency cutoff.
pub const MAX_TRUNCATED_FEED_ITEMS: usize = 50;

/// Age bound, in days, for the recency cutoff of a truncated feed.
pub const TRUNCATED_FEED_ITEM_TIME_CUTOFF: i64 = 2;

/// A name for what `bs58::encode(..).into_string()` returns on the UTF-8
/// bytes of the given characters: the base-58 rendering of a feed URL or
/// query-feed title, used as the feed's stable identifier.
pub uninterp spec fn base58_of(s: Seq<char>) -> Seq<char>;

/// Relies on `bs58::encode` followed by `EncodeBuilder::into_string`:
/// the result is a function of the input bytes alone.
#[verifier::external_body]
fn base58_id(s: &str) -> (r: String)
    ensures
        r@ == base58_of(s@),
{
    bs58::encode(s).into_string()
}

/// A feed: either one backed by a subscribed URL, or a query feed
/// synthesized from a saved filter.
pub struct Feed {
    /// Stable identifier, derived from the URL (or title, for query feeds).
    pub id: String,
    /// Title as given by the feed source.
    pub title: String,
    /// User-facing title: the subscription override if present, else `title`.
    pub display_title: String,
    /// RSS URL the feed is fetched from; empty for query feeds.
    pub url: String,
    /// Site link of the RSS channel; empty for query feeds.
    pub feedlink: String,
    /// Whether the subscription marks this feed as hidden.
    pub hidden: bool,
    /// Articles of this feed.
    pub items: Vec<FeedItem>,
    /// Tags from the subscription file.
    pub tags: Vec<String>,
    /// Whether this is a query feed.
    pub is_query: bool,
    /// Position of the feed in the subscription file.
    pub order_idx: usize,
    /// Whether `sort_items` has run.
    pub sorted: bool,
}

/// The mathematical value of a [`Feed`].
#[verifier::ext_equal]
pub struct FeedView {
    pub id: Seq<char>,
    pub title: Seq<char>,
    pub display_title: Seq<char>,
    pub url: Seq<char>,
    pub feedlink: Seq<char>,
    pub hidden: bool,
    pub items: Seq<FeedItemView>,
    pub tags: Seq<String>,
    pub is_query: bool,
    pub order_idx: nat,
    pub sorted: bool,
}

impl View for Feed {
    type V = FeedView;

    open spec fn view(&self) -> FeedView {
        FeedView {
            id: self.id@,
            title: self.title@,
            display_title: self.display_title@,
            url: self.url@,
            feedlink: self.feedlink@,
            hidden: self.hidden,
            items: items_view(self.items@),
            tags: self.tags@,
            is_query: self.is_query,
            order_idx: self.order_idx as nat,
            sorted: self.sorted,
        }
    }
}

impl Clone for Feed {
    fn clone(&self) -> (r: Self)
        ensures
            r@ == self@,
    {
        let mut items: Vec<FeedItem> = Vec::new();
        let mut i: usize = 0;
        while i < self.items.len()
            invariant
                i <= self.items@.len(),
                items@.len() == i,
                forall|k: int| 0 <= k < i ==> #[trigger] items@[k]@ == self.items@[k]@,
            decreases self.items@.len() - i
        {
            items.push(self.items[i].clone());
            i += 1;
        }
        let r = Feed {
            id: self.id.clone(),
            title: self.title.clone(),
            display_title: self.display_title.clone(),
            url: self.url.clone(),
            feedlink: self.feedlink.clone(),
            hidden: self.hidden,
            items,
            tags: clone_string_vec(&self.tags),
            is_query: self.is_query,
            order_idx: self.order_idx,
            sorted: self.sorted,
        };
        proof {
            assert(items_view(r.items@) =~= items_view(self.items@));
            assert(r@ =~~= self@);
        }
        r
    }
}

/// Articles sorted from newest to oldest.
pub open spec fn sorted_desc(s: Seq<FeedItem>) -> bool {
    forall|i: int, j: int| 0 <= i < j < s.len() ==> s[i].date >= s[j].date
}

/// Whether an article falls within the recency cutoff at time `now`.
pub open spec fn within_cutoff(it: FeedItem, now: int) -> bool {
    spec_age(it.date as int, now) <= TRUNCATED_FEED_ITEM_TIME_CUTOFF as int
}

/// The recency-cutoff test at time `now`, as a predicate on articles.
pub open spec fn cutoff_pred(now: int) -> spec_fn(FeedItem) -> bool {
    |it: FeedItem| within_cutoff(it, now)
}

/// The number of articles the live window of `items` holds at time `now`:
/// everything if the feed is small enough, otherwise the larger of the
/// fixed bound and the number of articles within the recency cutoff.
pub open spec fn live_count_of(items: Seq<FeedItem>, now: int) -> nat {
    if items.len() <= MAX_TRUNCATED_FEED_ITEMS as nat {
        items.len()
    } else {
        let recent = items.filter(cutoff_pred(now)).len();
        if recent >= MAX_TRUNCATED_FEED_ITEMS as nat {
            recent
        } else {
            MAX_TRUNCATED_FEED_ITEMS as nat
        }
    }
}

/// The live window itself: all articles for a small feed; for a large one
/// the articles within the cutoff when at least the bound many are, else
/// the first bound-many articles.
pub open spec fn live_items_of(items: Seq<FeedItem>, now: int) -> Seq<FeedItem> {
    if items.len() <= MAX_TRUNCATED_FEED_ITEMS as nat {
        items
    } else {
        let recent = items.filter(cutoff_pred(now));
        if recent.len() >= MAX_TRUNCATED_FEED_ITEMS as nat {
            recent
        } else {
            items.subrange(0, MAX_TRUNCATED_FEED_ITEMS as int)
        }
    }
}

/// Inserting an element anywhere adds exactly that element to the multiset.
pub proof fn lemma_insert_multiset<T>(s: Seq<T>, p: int, x: T)
    requires
        0 <= p <= s.len(),
    ensures
        s.insert(p, x).to_multiset() == s.to_multiset().insert(x),
{
    broadcast use vstd::seq_lib::group_to_multiset_ensures;

    let a = s.subrange(0, p);
    let b = s.subrange(p, s.len() as int);
    assert(s.insert(p, x) == a.push(x) + b);
    lemma_multiset_commutative(a.push(x), b);
    lemma_multiset_commutative(a, b);
    assert(a + b =~= s);
    assert(a.push(x).to_multiset() =~= a.to_multiset().insert(x));
    assert((a.to_multiset().insert(x)).add(b.to_multiset())
        =~= (a.to_multiset().add(b.to_multiset())).insert(x));
}

/// Removing the element at `i` removes exactly that element from the multiset.
pub proof fn lemma_remove_multiset<T>(s: Seq<T>, i: int)
    requires
        0 <= i < s.len(),
    ensures
        s.remove(i).to_multiset() == s.to_multiset().remove(s[i]),
{
    broadcast use vstd::seq_lib::group_to_multiset_ensures;
}

/// Sort articles from newest to oldest, by insertion: the result is a
/// rearrangement of the input, sorted by descending timestamp.
pub fn sort_items_desc(v: &mut Vec<FeedItem>)
    ensures
        sorted_desc(final(v)@),
        final(v)@.to_multiset() == old(v)@.to_multiset(),
        final(v)@.len() == old(v)@.len(),
{
    broadcast use vstd::seq_lib::group_to_multiset_ensures;

    let ghost orig = v@;
    let n = v.len();
    if n <= 1 {
        return;
    }
    let mut i: usize = 1;
    while i < n
        invariant
            n == v@.len(),
            1 <= i <= n,
            sorted_desc(v@.subrange(0, i as int)),
            v@.to_multiset() == orig.to_multiset(),
        decreases n - i
    {
        let ghost pre = v@;
        let x = v.remove(i);
        proof {
            lemma_remove_multiset(pre, i as int);
            assert(v@.subrange(0, i as int) =~= pre.subrange(0, i as int));
        }
        // position of the first strictly older entry in the sorted prefix
        let mut p: usize = 0;
        while p < i && v[p].date >= x.date
            invariant
                i < n,
                n == v@.len() + 1,
                p <= i,
                forall|k: int| 0 <= k < p ==> v@[k].date >= x.date,
            decreases i - p
        {
            p += 1;
        }
        let ghost mid = v@;
        v.insert(p, x);
        proof {
            lemma_insert_multiset(mid, p as int, x);
            assert(pre.to_multiset().count(x) >= 1) by {
                pre.to_multiset_ensures();
                assert(pre[i as int] == x);
                assert(pre.contains(x));
            }
            assert(mid.to_multiset().insert(x) =~= pre.to_multiset());
            let s = v@;
            mid.insert_ensures(p as int, x);
            assert forall|a: int, b: int| 0 <= a < b < i + 1 implies
                s[a].date >= s[b].date by {
                assert(sorted_desc(mid.subrange(0, i as int)));
                assert(forall|k: int| 0 <= k < i ==>
                    mid.subrange(0, i as int)[k] == mid[k]);
                if b < p {
                    assert(s[a] == mid[a] && s[b] == mid[b]);
                } else if b == p {
                    assert(s[a] == mid[a] && s[b] == x);
                } else if a < p {
                    assert(s[a] == mid[a] && s[b] == mid[b - 1]);
                    if b - 1 < p {
                    } else if b - 1 == p {
                        assert(p < i);
                        assert(mid[p as int].date < x.date);
                        assert(mid[a].date >= x.date);
                    } else {
                        assert(p < i);
                    }
                } else if a == p {
                    assert(s[a] == x && s[b] == mid[b - 1]);
                    assert(p < i);
                    assert(mid[p as int].date < x.date);
                    if b - 1 > p {
                        assert(mid[b - 1].date <= mid[p as int].date);
                    }
                } else {
                    assert(s[a] == mid[a - 1] && s[b] == mid[b - 1]);
                    assert(p < i);
                    assert(mid[p as int].date < x.date);
                }
            }
            assert(sorted_desc(s.subrange(0, i + 1 as int))) by {
                assert(forall|k: int| 0 <= k < i + 1 ==>
                    s.subrange(0, i + 1 as int)[k] == s[k]);
            }
        }
        i += 1;
    }
    proof {
        assert(v@.subrange(0, n as int) =~= v@);
        assert(v@.to_multiset().len() == orig.to_multiset().len());
    }
}

impl Feed {
    /// A fresh URL-backed feed with no articles, no tags, not hidden,
    /// not yet sorted, its identifier derived from the URL.
    pub fn init(url: String, title: String, feedlink: String) -> (r: Feed)
        ensures
            r.id@ == base58_of(url@),
            r.title == title,
            r.display_title == title,
            r.url == url,
            r.feedlink == feedlink,
            !r.hidden,
            r.items@ == Seq::<FeedItem>::empty(),
            r.tags@ == Seq::<String>::empty(),
            !r.is_query,
            r.order_idx == 0,
            !r.sorted,
    {
        let id = base58_id(url.as_str());
        Feed {
            id,
            title: title.clone(),
            display_title: title.clone(),
            url,
            feedlink,
            hidden: false,
            items: Vec::new(),
            tags: Vec::new(),
            is_query: false,
            order_idx: 0,
            sorted: false,
        }
    }

    /// A fresh query feed: no URL or site link of its own, its identifier
    /// derived from its title, ordered at its subscription-file line.
    pub fn init_query_feed(title: String, line_no: usize) -> (r: Feed)
        ensures
            r.id@ == base58_of(title@),
            r.title == title,
            r.display_title == title,
            r.url@ == Seq::<char>::empty(),
            r.feedlink@ == Seq::<char>::empty(),
            !r.hidden,
            r.items@ == Seq::<FeedItem>::empty(),
            r.tags@ == Seq::<String>::empty(),
            r.is_query,
            r.order_idx == line_no,
            !r.sorted,
    {
        let id = base58_id(title.as_str());
        Feed {
            id,
            title: title.clone(),
            display_title: title.clone(),
            url: String::new(),
            feedlink: String::new(),
            hidden: false,
            items: Vec::new(),
            tags: Vec::new(),
            is_query: true,
            order_idx: line_no,
            sorted: false,
        }
    }

    /// Append an article to the feed.
    pub fn add_item(&mut self, item: FeedItem)
        ensures
            *final(self) == (Feed { items: final(self).items, ..*old(self) }),
            final(self).items@ == old(self).items@.push(item),
    {
        self.items.push(item)
    }

    /// Sort the articles from newest to oldest and mark the feed sorted.
    /// The articles are rearranged, none added or dropped.
    pub fn sort_items(&mut self)
        ensures
            *final(self) == (Feed {
                items: final(self).items,
                sorted: true,
                ..*old(self)
            }),
            sorted_desc(final(self).items@),
            final(self).items@.to_multiset() == old(self).items@.to_multiset(),
            final(self).items@.len() == old(self).items@.len(),
    {
        sort_items_desc(&mut self.items);
        self.sorted = true;
    }

    /// The number of articles within the recency cutoff at time `now`.
    fn recent_count(&self, now: i64) -> (r: usize)
        ensures
            r as nat == self.items@.filter(cutoff_pred(now as int)).len(),
    {
        broadcast use vstd::seq_lib::group_seq_properties;

        let ghost pred = cutoff_pred(now as int);
        let n = self.items.len();
        let mut count: usize = 0;
        let mut i: usize = 0;
        proof {
            assert(self.items@.subrange(0, 0).filter(pred) =~= Seq::<FeedItem>::empty());
        }
        while i < n
            invariant
                pred == cutoff_pred(now as int),
                n == self.items@.len(),
                i <= n,
                count as nat == self.items@.subrange(0, i as int).filter(pred).len(),
                count <= i,
            decreases n - i
        {
            proof {
                assert(self.items@.subrange(0, i + 1 as int)
                    =~= self.items@.subrange(0, i as int).push(self.items@[i as int]));
                self.items@.subrange(0, i as int)
                    .lemma_filter_push(self.items@[i as int], pred);
            }
            let within = self.items[i].age(now) <= TRUNCATED_FEED_ITEM_TIME_CUTOFF;
            proof {
                assert(within == pred(self.items@[i as int]));
            }
            if within {
                count += 1;
            }
            i += 1;
        }
        proof {
            assert(self.items@.subrange(0, n as int) =~= self.items@);
        }
        count
    }

    /// How many articles the live window would keep at time `now`.
    pub fn truncated_items_count(&self, now: i64) -> (r: usize)
        ensures
            r as nat == live_count_of(self.items@, now as int),
    {
        let n = self.items.len();
        if n <= MAX_TRUNCATED_FEED_ITEMS {
            return n;
        }
        let recent = self.recent_count(now);
        if recent >= MAX_TRUNCATED_FEED_ITEMS {
            recent
        } else {
            MAX_TRUNCATED_FEED_ITEMS
        }
    }

    /// Shrink the articles to the live window (see [`live_items_of`]);
    /// nothing else about the feed changes. A caller that also needs the
    /// full list keeps its own copy: the archive artifact is emitted from
    /// the untruncated feed.
    pub fn truncate_items(&mut self, now: i64)
        ensures
            *final(self) == (Feed { items: final(self).items, ..*old(self) }),
            final(self).items@ == live_items_of(old(self).items@, now as int),
    {
        let ghost orig = self.items@;
        let ghost pred = cutoff_pred(now as int);
        let n = self.items.len();
        if n <= MAX_TRUNCATED_FEED_ITEMS {
            return;
        }
        let recent = self.recent_count(now);
        if recent >= MAX_TRUNCATED_FEED_ITEMS {
            let mut kept: Vec<FeedItem> = Vec::new();
            let mut consumed: usize = 0;
            proof {
                assert(orig.subrange(0, 0).filter(pred) =~= Seq::<FeedItem>::empty());
                assert(self.items@ =~= orig.subrange(0, n as int));
            }
            while self.items.len() > 0
                invariant
                    *self == (Feed { items: self.items, ..*old(self) }),
                    pred == cutoff_pred(now as int),
                    n == orig.len(),
                    consumed <= n,
                    self.items@ == orig.subrange(consumed as int, n as int),
                    kept@ == orig.subrange(0, consumed as int).filter(pred),
                decreases n - consumed
            {
                let ghost pre = self.items@;
                let it = self.items.remove(0);
                proof {
                    assert(pre[0] == orig[consumed as int]);
                    assert(self.items@ =~= orig.subrange(consumed + 1, n as int));
                    assert(orig.subrange(0, consumed + 1)
                        =~= orig.subrange(0, consumed as int).push(orig[consumed as int]));
                    orig.subrange(0, consumed as int).lemma_filter_push(
                        orig[consumed as int], pred);
                }
                let within = it.age(now) <= TRUNCATED_FEED_ITEM_TIME_CUTOFF;
                proof {
                    assert(within == pred(orig[consumed as int]));
                }
                if within {
                    kept.push(it);
                }
                consumed += 1;
            }
            proof {
                assert(orig.subrange(0, n as int) =~= orig);
            }
            self.items = kept;
        } else {
            self.items.truncate(MAX_TRUNCATED_FEED_ITEMS);
        }
    }

    /// Copies of the articles in the live window (see [`live_items_of`]),
    /// leaving the feed itself untouched.
    pub fn live_window(&self, now: i64) -> (r: Vec<FeedItem>)
        ensures
            items_view(r@) == items_view(live_items_of(self.items@, now as int)),
    {
        broadcast use vstd::seq_lib::group_seq_properties;

        let ghost orig = self.items@;
        let ghost pred = cutoff_pred(now as int);
        let n = self.items.len();
        let mut out: Vec<FeedItem> = Vec::new();
        if n <= MAX_TRUNCATED_FEED_ITEMS {
            let mut i: usize = 0;
            proof {
                assert(items_view(out@) =~= items_view(orig.subrange(0, 0)));
            }
            while i < n
                invariant
                    n == self.items@.len(),
                    self.items@ == orig,
                    n <= MAX_TRUNCATED_FEED_ITEMS,
                    i <= n,
                    items_view(out@) == items_view(orig.subrange(0, i as int)),
                decreases n - i
            {
                let ghost pre = out@;
                let c = self.items[i].clone();
                out.push(c);
                proof {
                    assert(items_view(out@) =~= items_view(pre).push(orig[i as int]@));
                    assert(orig.subrange(0, i + 1 as int)
                        =~= orig.subrange(0, i as int).push(orig[i as int]));
                    assert(items_view(orig.subrange(0, i + 1 as int))
                        =~= items_view(orig.subrange(0, i as int)).push(orig[i as int]@));
                }
                i += 1;
            }
            proof {
                assert(orig.subrange(0, n as int) =~= orig);
            }
            return out;
        }
        let recent = self.recent_count(now);
        if recent >= MAX_TRUNCATED_FEED_ITEMS {
            let mut i: usize = 0;
            proof {
                assert(orig.subrange(0, 0).filter(pred) =~= Seq::<FeedItem>::empty());
                assert(items_view(out@)
                    =~= items_view(orig.subrange(0, 0).filter(pred)));
            }
            while i < n
                invariant
                    pred == cutoff_pred(now as int),
                    n == self.items@.len(),
                    self.items@ == orig,
                    i <= n,
                    items_view(out@) == items_view(orig.subrange(0, i as int).filter(pred)),
                decreases n - i
            {
                proof {
                    assert(orig.subrange(0, i + 1 as int)
                        =~= orig.subrange(0, i as int).push(orig[i as int]));
                    orig.subrange(0, i as int).lemma_filter_push(orig[i as int], pred);
                }
                let within = self.items[i].age(now) <= TRUNCATED_FEED_ITEM_TIME_CUTOFF;
                proof {
                    assert(within == pred(orig[i as int]));
                }
                if within {
                    let ghost pre = out@;
                    let c = self.items[i].clone();
                    out.push(c);
                    proof {
                        assert(items_view(out@) =~= items_view(pre).push(orig[i as int]@));
                        assert(items_view(orig.subrange(0, i + 1 as int).filter(pred))
                            =~= items_view(orig.subrange(0, i as int).filter(pred))
                                .push(orig[i as int]@));
                    }
                }
                i += 1;
            }
            proof {
                assert(orig.subrange(0, n as int) =~= orig);
            }
            out
        } else {
            let mut i: usize = 0;
            proof {
                assert(items_view(out@) =~= items_view(orig.subrange(0, 0)));
            }
            while i < MAX_TRUNCATED_FEED_ITEMS
                invariant
                    n == self.items@.len(),
                    self.items@ == orig,
                    n > MAX_TRUNCATED_FEED_ITEMS,
                    i <= MAX_TRUNCATED_FEED_ITEMS,
                    items_view(out@) == items_view(orig.subrange(0, i as int)),
                decreases MAX_TRUNCATED_FEED_ITEMS - i
            {
                let ghost pre = out@;
                let c = self.items[i].clone();
                out.push(c);
                proof {
                    assert(items_view(out@) =~= items_view(pre).push(orig[i as int]@));
                    assert(orig.subrange(0, i + 1 as int)
                        =~= orig.subrange(0, i as int).push(orig[i as int]));
                    assert(items_view(orig.subrange(0, i + 1 as int))
                        =~= items_view(orig.subrange(0, i as int)).push(orig[i as int]@));
                }
                i += 1;
            }
            out
        }
    }

    /// Replace subscription-derived metadata: tags, hidden flag, position,
    /// and, when an override is given, the display title.
    pub fn update_with_url_data(
        &mut self,
        tags: Vec<String>,
        hidden: bool,
        title_override: Option<String>,
        line_no: usize,
    )
        ensures
            *final(self) == (Feed {
                tags: final(self).tags,
                hidden,
                order_idx: line_no,
                display_title: final(self).display_title,
                ..*old(self)
            }),
            final(self).tags == tags,
            final(self).display_title == (match title_override {
                Some(t) => t,
                None => old(self).display_title,
            }),
    {
        self.tags = tags;
        self.hidden = hidden;
        self.order_idx = line_no;
        if let Some(title) = title_override {
            self.display_title = title;
        }
    }

    /// Stable identifier of the feed.
    pub fn id(&self) -> (r: &String)
        ensures
            r == self.id,
    {
        &self.id
    }

    /// RSS URL the feed is fetched from.
    pub fn url(&self) -> (r: &String)
        ensures
            r == self.url,
    {
        &self.url
    }

    /// Title as given by the feed source.
    pub fn title(&self) -> (r: &String)
        ensures
            r == self.title,
    {
        &self.title
    }

    /// User-facing title.
    pub fn display_title(&self) -> (r: &String)
        ensures
            r == self.display_title,
    {
        &self.display_title
    }

    /// Site link of the RSS channel.
    pub fn feedlink(&self) -> (r: &String)
        ensures
            r == self.feedlink,
    {
        &self.feedlink
    }

    /// Whether `sort_items` has run.
    pub fn is_sorted(&self) -> (r: bool)
        ensures
            r == self.sorted,
    {
        self.sorted
    }

    /// Whether the subscription marks this feed as hidden.
    pub fn is_hidden(&self) -> (r: bool)
        ensures
            r == self.hidden,
    {
        self.hidden
    }

    /// Whether this is a query feed.
    pub fn is_query_feed(&self) -> (r: bool)
        ensures
            r == self.is_query,
    {
        self.is_query
    }

    /// Whether the feed has no articles.
    pub fn is_empty(&self) -> (r: bool)
        ensures
            r == (self.items@.len() == 0),
    {
        self.items.len() == 0
    }

    /// Whether the per-feed artifacts include this feed: it has articles
    /// and is not hidden.
    pub fn is_json_eligible(&self) -> (r: bool)
        ensures
            r == json_pred()(*self),
    {
        self.items.len() > 0 && !self.hidden
    }

    /// Position of the feed in the subscription file.
    pub fn order_idx(&self) -> (r: &usize)
        ensures
            r == self.order_idx,
    {
        &self.order_idx
    }

    /// The number of unread articles.
    fn unread_count(&self) -> (r: usize)
        ensures
            r as nat == self.items@.filter(unread_pred()).len(),
    {
        broadcast use vstd::seq_lib::group_seq_properties;

        let ghost pred = unread_pred();
        let n = self.items.len();
        let mut count: usize = 0;
        let mut i: usize = 0;
        proof {
            assert(self.items@.subrange(0, 0).filter(pred) =~= Seq::<FeedItem>::empty());
        }
        while i < n
            invariant
                pred == unread_pred(),
                n == self.items@.len(),
                i <= n,
                count as nat == self.items@.subrange(0, i as int).filter(pred).len(),
                count <= i,
            decreases n - i
        {
            proof {
                assert(self.items@.subrange(0, i + 1 as int)
                    =~= self.items@.subrange(0, i as int).push(self.items@[i as int]));
                self.items@.subrange(0, i as int)
                    .lemma_filter_push(self.items@[i as int], pred);
            }
            if self.items[i].is_unread() {
                count += 1;
            }
            i += 1;
        }
        proof {
            assert(self.items@.subrange(0, n as int) =~= self.items@);
        }
        count
    }

    /// The named attribute this feed exposes to the external filter
    /// evaluator, following the schema of [`feed_attr_spec`]. Querying
    /// the latest-article age of an unsorted, non-empty feed is a
    /// programming error and is excluded here; `checked_attribute_value`
    /// reports it as a fault instead.
    pub fn attribute_value(&self, attr: &str, now: i64) -> (r: Option<String>)
        requires
            !feed_attr_fault(*self, attr@),
        ensures
            r.deep_view() == feed_attr_spec(*self, attr@, now as int),
    {
        if str_eq(attr, "feedtitle") {
            Some(self.title.clone())
        } else if str_eq(attr, "rssurl") {
            Some(self.url.clone())
        } else if str_eq(attr, "feedlink") {
            Some(self.feedlink.clone())
        } else if str_eq(attr, "total_count") {
            Some(usize_string(self.items.len()))
        } else if str_eq(attr, "tags") {
            Some(join_with_spaces(&self.tags))
        } else if str_eq(attr, "latest_article_age") {
            if self.items.len() == 0 {
                Some(String::new())
            } else {
                Some(i64_string(self.items[0].age(now)))
            }
        } else if str_eq(attr, "unread_count") {
            Some(usize_string(self.unread_count()))
        } else if str_eq(attr, "description") {
            Some(String::new())
        } else if str_eq(attr, "feeddate") {
            Some(String::new())
        } else if str_eq(attr, "feedindex") {
            Some(String::new())
        } else {
            None
        }
    }

    /// Like `attribute_value`, but reports the programming-error fault of
    /// reading the latest-article age of an unsorted, non-empty feed as
    /// an `Err` instead of faulting.
    pub fn checked_attribute_value(&self, attr: &str, now: i64)
        -> (r: Result<Option<String>, FeedFault>)
        ensures
            r is Err <==> feed_attr_fault(*self, attr@),
            (match r {
                Ok(v) => v.deep_view() == feed_attr_spec(*self, attr@, now as int),
                Err(f) => f is UnsortedLatestAge,
            }),
    {
        if str_eq(attr, "latest_article_age") && self.items.len() > 0 && !self.sorted {
            return Err(FeedFault::UnsortedLatestAge);
        }
        Ok(self.attribute_value(attr, now))
    }
}

/// The unread test, as a predicate on articles.
pub open spec fn unread_pred() -> spec_fn(FeedItem) -> bool {
    |it: FeedItem| it.unread
}

/// Reading the latest-article age of a non-empty feed whose articles have
/// not been sorted is a programming-error fault.
pub open spec fn feed_attr_fault(f: Feed, attr: Seq<char>) -> bool {
    attr == "latest_article_age"@ && f.items@.len() > 0 && !f.sorted
}

/// The feed attributes exposed to the external filter evaluator.
/// `None` means the attribute is not recognized, which is distinct from
/// a present-but-empty value.
pub open spec fn feed_attr_spec(f: Feed, attr: Seq<char>, now: int) -> Option<Seq<char>> {
    if attr == "feedtitle"@ {
        Some(f.title@)
    } else if attr == "rssurl"@ {
        Some(f.url@)
    } else if attr == "feedlink"@ {
        Some(f.feedlink@)
    } else if attr == "total_count"@ {
        Some(dec_spec(f.items@.len()))
    } else if attr == "tags"@ {
        Some(join_spaced(f.tags.deep_view()))
    } else if attr == "latest_article_age"@ {
        if f.items@.len() == 0 {
            Some(Seq::<char>::empty())
        } else {
            Some(crate::text::dec_int_spec(spec_age(f.items@[0].date as int, now)))
        }
    } else if attr == "unread_count"@ {
        Some(dec_spec(f.items@.filter(unread_pred()).len()))
    } else if attr == "description"@ {
        Some(Seq::<char>::empty())
    } else if attr == "feeddate"@ {
        Some(Seq::<char>::empty())
    } else if attr == "feedindex"@ {
        Some(Seq::<char>::empty())
    } else {
        None
    }
}

/// The article attributes exposed to the external filter evaluator.
/// `None` means the attribute is not recognized by the article itself
/// and resolution falls back to the owning feed.
pub open spec fn item_attr_spec(it: FeedItem, attr: Seq<char>, now: int) -> Option<Seq<char>> {
    if attr == "title"@ {
        Some(it.title@)
    } else if attr == "link"@ {
        Some(it.url@)
    } else if attr == "author"@ {
        Some(it.author@)
    } else if attr == "unread"@ {
        Some(if it.unread { "yes"@ } else { "no"@ })
    } else if attr == "date"@ {
        Some(crate::text::dec_int_spec(it.date as int))
    } else if attr == "age"@ {
        Some(crate::text::dec_int_spec(spec_age(it.date as int, now)))
    } else if attr == "content"@ {
        Some(it.content@)
    } else if attr == "guid"@ {
        Some(crate::text::dec_int_spec(it.guid as int))
    } else if attr == "enclosure_url"@ {
        Some(crate::feed_item::opt_str_view(it.enc_url.deep_view()))
    } else if attr == "enclosure_type"@ {
        Some(crate::feed_item::opt_str_view(it.enc_mime.deep_view()))
    } else if attr == "flags"@ {
        Some(crate::feed_item::opt_str_view(it.flags.deep_view()))
    } else if attr == "articleindex"@ {
        Some(Seq::<char>::empty())
    } else {
        None
    }
}

impl FeedItem {
    /// The named attribute this article exposes to the external filter
    /// evaluator. An attribute the article does not recognize is
    /// forwarded to the owning feed's resolver when one is given; when
    /// neither recognizes it, resolution yields no value, which the
    /// evaluator treats as non-matching.
    pub fn attribute_value(&self, owner: Option<&Feed>, attr: &str, now: i64)
        -> (r: Option<String>)
        requires
            (match owner {
                Some(f) => !feed_attr_fault(*f, attr@),
                None => true,
            }),
        ensures
            r.deep_view() == (match item_attr_spec(*self, attr@, now as int) {
                Some(v) => Some(v),
                None => match owner {
                    Some(f) => feed_attr_spec(*f, attr@, now as int),
                    None => None::<Seq<char>>,
                },
            }),
    {
        if str_eq(attr, "title") {
            Some(self.title.clone())
        } else if str_eq(attr, "link") {
            Some(self.url.clone())
        } else if str_eq(attr, "author") {
            Some(self.author.clone())
        } else if str_eq(attr, "unread") {
            if self.unread {
                Some(String::from_str("yes"))
            } else {
                Some(String::from_str("no"))
            }
        } else if str_eq(attr, "date") {
            Some(i64_string(self.date))
        } else if str_eq(attr, "age") {
            Some(i64_string(self.age(now)))
        } else if str_eq(attr, "content") {
            Some(self.content.clone())
        } else if str_eq(attr, "guid") {
            Some(i64_string(self.guid))
        } else if str_eq(attr, "enclosure_url") {
            opt_attr_val(&self.enc_url)
        } else if str_eq(attr, "enclosure_type") {
            opt_attr_val(&self.enc_mime)
        } else if str_eq(attr, "flags") {
            opt_attr_val(&self.flags)
        } else if str_eq(attr, "articleindex") {
            Some(String::new())
        } else {
            match owner {
                Some(f) => f.attribute_value(attr, now),
                None => None,
            }
        }
    }
}

/// A compact rendering of a feed, used in the navigation index.
pub struct FeedCompact {
    pub id: String,
    pub title: String,
    pub display_title: String,
    pub url: String,
    pub feedlink: String,
    pub hidden: bool,
    pub is_query: bool,
    pub tags: Vec<String>,
    pub num_items: usize,
}

/// Whether `c` is the compact rendering of feed `f`.
pub open spec fn compact_matches(c: FeedCompact, f: Feed) -> bool {
    &&& c.id == f.id
    &&& c.title == f.title
    &&& c.display_title == f.display_title
    &&& c.url == f.url
    &&& c.feedlink == f.feedlink
    &&& c.hidden == f.hidden
    &&& c.is_query == f.is_query
    &&& c.tags@ == f.tags@
    &&& c.num_items as nat == f.items@.len()
}

impl FeedCompact {
    /// The compact rendering of `f`.
    pub fn from_feed(f: &Feed) -> (r: FeedCompact)
        ensures
            compact_matches(r, *f),
    {
        FeedCompact {
            id: f.id.clone(),
            title: f.title.clone(),
            display_title: f.display_title.clone(),
            url: f.url.clone(),
            feedlink: f.feedlink.clone(),
            hidden: f.hidden,
            is_query: f.is_query,
            tags: clone_string_vec(&f.tags),
            num_items: f.items.len(),
        }
    }
}

/// The navigation index: compact renderings of the eligible feeds.
pub struct FeedList {
    pub feeds: Vec<FeedCompact>,
}

impl FeedList {
    /// An empty feed list.
    pub fn new() -> (r: FeedList)
        ensures
            r.feeds@ == Seq::<FeedCompact>::empty(),
    {
        FeedList { feeds: Vec::new() }
    }

    /// Append the compact rendering of every feed in `v`, in order.
    pub fn from_vec(v: Vec<Feed>) -> (r: FeedList)
        ensures
            r.feeds@.len() == v@.len(),
            forall|k: int| 0 <= k < v@.len() ==> compact_matches(#[trigger] r.feeds@[k], v@[k]),
    {
        let mut f = FeedList::new();
        let mut i: usize = 0;
        while i < v.len()
            invariant
                i <= v@.len(),
                f.feeds@.len() == i,
                forall|k: int| 0 <= k < i ==> compact_matches(#[trigger] f.feeds@[k], v@[k]),
            decreases v@.len() - i
        {
            let ghost prev = f.feeds@;
            f.add_feed(&v[i]);
            proof {
                assert(forall|k: int| 0 <= k < i ==>
                    f.feeds@.subrange(0, prev.len() as int)[k] == f.feeds@[k]);
                assert(f.feeds@[i as int] == f.feeds@.last());
            }
            i += 1;
        }
        f
    }

    /// Append the compact rendering of one feed.
    pub fn add_feed(&mut self, f: &Feed)
        ensures
            final(self).feeds@.len() == old(self).feeds@.len() + 1,
            final(self).feeds@.subrange(0, old(self).feeds@.len() as int)
                == old(self).feeds@,
            compact_matches(final(self).feeds@.last(), *f),
    {
        self.feeds.push(FeedCompact::from_feed(f));
        proof {
            assert(self.feeds@.subrange(0, self.feeds@.len() - 1)
                =~= old(self).feeds@);
        }
    }
}


/// The test for a feed that the per-feed artifacts include: it has
/// articles and is not hidden.
pub open spec fn json_pred() -> spec_fn(Feed) -> bool {
    |f: Feed| f.items@.len() > 0 && !f.hidden
}

/// The navigation index of `feeds`: one compact entry per non-empty,
/// non-hidden feed, in order. Hidden and empty feeds are left out.
pub fn build_feed_list(feeds: &Vec<Feed>) -> (r: FeedList)
    ensures
        r.feeds@.len() == feeds@.filter(json_pred()).len(),
        forall|k: int| 0 <= k < r.feeds@.len() ==> compact_matches(
            #[trigger] r.feeds@[k], feeds@.filter(json_pred())[k]),
{
    broadcast use vstd::seq_lib::group_seq_properties;

    let ghost pred = json_pred();
    let mut r = FeedList::new();
    let n = feeds.len();
    let mut k: usize = 0;
    proof {
        assert(feeds@.subrange(0, 0).filter(pred) =~= Seq::<Feed>::empty());
    }
    while k < n
        invariant
            pred == json_pred(),
            n == feeds@.len(),
            k <= n,
            r.feeds@.len() == feeds@.subrange(0, k as int).filter(pred).len(),
            forall|j: int| 0 <= j < r.feeds@.len() ==> compact_matches(
                #[trigger] r.feeds@[j], feeds@.subrange(0, k as int).filter(pred)[j]),
        decreases n - k
    {
        proof {
            assert(feeds@.subrange(0, k + 1 as int)
                =~= feeds@.subrange(0, k as int).push(feeds@[k as int]));
            feeds@.subrange(0, k as int).lemma_filter_push(feeds@[k as int], pred);
        }
        let keep = feeds[k].items.len() > 0 && !feeds[k].is_hidden();
        proof {
            assert(keep == pred(feeds@[k as int]));
        }
        if keep {
            let ghost pre = r.feeds@;
            r.add_feed(&feeds[k]);
            proof {
                assert(forall|j: int| 0 <= j < pre.len()
                    ==> r.feeds@.subrange(0, pre.len() as int)[j] == r.feeds@[j]);
                assert(r.feeds@[pre.len() as int] == r.feeds@.last());
            }
        }
        k += 1;
    }
    proof {
        assert(feeds@.subrange(0, n as int) =~= feeds@);
    }
    r
}

/// A hidden feed never enters the navigation index: the index is drawn
/// from the feeds that pass [`json_pred`], and a hidden feed never does.
pub proof fn lemma_json_list_excludes_hidden(feeds: Seq<Feed>, k: int)
    requires
        0 <= k < feeds.len(),
        feeds[k].hidden,
    ensures
        !feeds.filter(json_pred()).contains(feeds[k]),
{
    broadcast use vstd::seq_lib::group_filter_ensures;

    if feeds.filter(json_pred()).contains(feeds[k]) {
        let i = choose|i: int| 0 <= i < feeds.filter(json_pred()).len()
            && feeds.filter(json_pred())[i] == feeds[k];
        assert(json_pred()(feeds.filter(json_pred())[i]));
        assert(false);
    }
}

} // verus!
