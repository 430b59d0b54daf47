use vstd::prelude::*;

use crate::content::{enrich_plan, extraction_of, process_article_content};
use crate::feed::{live_count_of, sorted_desc, Feed};
use crate::feed_item::{items_view, FeedItem, FeedItemView, FeedSourceView};
use crate::opts::Options;
use crate::urls::URLFeed;

verus! {

// ---------------------------------------------------------------------------
// Multisets of article views.
// ---------------------------------------------------------------------------

/// Sequences with equal multisets have view sequences with equal multisets.
pub proof fn lemma_view_multiset(s1: Seq<FeedItem>, s2: Seq<FeedItem>)
    requires
        s1.to_multiset() == s2.to_multiset(),
    ensures
        items_view(s1).to_multiset() == items_view(s2).to_multiset(),
    decreases s1.len()
{
    broadcast use vstd::seq_lib::group_to_multiset_ensures;

    if s1.len() == 0 {
        assert(s2.to_multiset().len() == 0);
        assert(s2.len() == 0);
        assert(items_view(s1) =~= items_view(s2));
    } else {
        let x = s1.last();
        assert(s1.contains(x));
        assert(s1.to_multiset().count(x) > 0);
        assert(s2.contains(x));
        let j = choose|j: int| 0 <= j < s2.len() && s2[j] == x;
        assert(s1.drop_last() =~= s1.remove(s1.len() - 1));
        assert(s1.remove(s1.len() - 1).to_multiset() == s1.to_multiset().remove(x));
        assert(s2.remove(j).to_multiset() == s2.to_multiset().remove(x));
        lemma_view_multiset(s1.drop_last(), s2.remove(j));
        assert(items_view(s1) =~= items_view(s1.drop_last()).push(x@));
        assert(items_view(s1).to_multiset()
            == items_view(s1.drop_last()).to_multiset().insert(x@));
        assert(items_view(s2.remove(j)) =~= items_view(s2).remove(j));
        assert(items_view(s2).remove(j).to_multiset()
            == items_view(s2).to_multiset().remove(items_view(s2)[j]));
        assert(items_view(s2)[j] == x@);
        assert(items_view(s2).contains(x@)) by {
            assert(items_view(s2)[j] == x@);
        }
        assert(items_view(s2).to_multiset().count(x@) > 0);
        assert(items_view(s1).to_multiset()
            =~= items_view(s2).to_multiset());
    }
}

// ---------------------------------------------------------------------------
// Merging subscription metadata onto fetched feeds.
// ---------------------------------------------------------------------------

/// The first subscription declaration whose URL equals `url`.
pub open spec fn decl_for(decls: Seq<URLFeed>, url: Seq<char>, from: nat) -> Option<nat>
    decreases decls.len() - from when from <= decls.len()
{
    if from >= decls.len() {
        None
    } else if decls[from as int].url@ == url {
        Some(from)
    } else {
        decl_for(decls, url, (from + 1) as nat)
    }
}

/// Whether `out` is feed `f` with the metadata of declaration `u`
/// merged in: tags, hidden flag, order, and the optional title override.
pub open spec fn merged_matches(out: Feed, f: Feed, u: URLFeed) -> bool {
    &&& out == (Feed {
        tags: out.tags,
        hidden: u.hidden,
        order_idx: out.order_idx,
        display_title: out.display_title,
        ..f
    })
    &&& out.tags@ == u.tags@
    &&& out.order_idx == u.line_no
    &&& out.display_title == (match u.title_override {
        Some(t) => t,
        None => f.display_title,
    })
}

/// The positions in `feed_data` that have a subscription declaration.
pub open spec fn subscribed_pred(feeds: Seq<Feed>, decls: Seq<URLFeed>) -> spec_fn(int) -> bool {
    |k: int| decl_for(decls, feeds[k].url@, 0) is Some
}

/// The positions of the subscribed feeds among the first `upto` fetched ones.
pub open spec fn subscribed_idxs(feeds: Seq<Feed>, decls: Seq<URLFeed>, upto: nat) -> Seq<int> {
    Seq::new(upto, |k: int| k).filter(subscribed_pred(feeds, decls))
}

/// Merge subscription metadata onto each fetched feed: a feed keeps its
/// store data, takes tags, hidden flag, position and title override from
/// the first declaration with its URL, and is dropped when no declaration
/// names it.
pub fn merge_url_feeds(feed_data: Vec<Feed>, url_feeds: &Vec<URLFeed>) -> (r: Vec<Feed>)
    ensures
        ({
            let feeds = feed_data@;
            let decls = url_feeds@;
            let idxs = subscribed_idxs(feeds, decls, feeds.len());
            &&& r@.len() == idxs.len()
            &&& forall|k: int| 0 <= k < idxs.len() ==> merged_matches(
                #[trigger] r@[k],
                feeds[idxs[k]],
                decls[decl_for(decls, feeds[idxs[k]].url@, 0).unwrap() as int],
            )
        }),
{
    broadcast use vstd::seq_lib::group_seq_properties;

    let ghost feeds0 = feed_data@;
    let ghost decls = url_feeds@;
    let ghost pred = subscribed_pred(feeds0, decls);
    let mut result: Vec<Feed> = Vec::new();
    let mut rest = feed_data;
    let mut i: usize = 0;
    let n = rest.len();
    proof {
        assert(Seq::new(0, |k: int| k).filter(pred) =~= Seq::<int>::empty());
        assert(rest@ =~= feeds0.subrange(0, n as int));
    }
    while i < n
        invariant
            n == feeds0.len(),
            decls == url_feeds@,
            pred == subscribed_pred(feeds0, decls),
            i <= n,
            rest@ == feeds0.subrange(i as int, n as int),
            result@.len() == subscribed_idxs(feeds0, decls, i as nat).len(),
            forall|k: int| 0 <= k < result@.len() ==> merged_matches(
                #[trigger] result@[k],
                feeds0[subscribed_idxs(feeds0, decls, i as nat)[k]],
                decls[decl_for(decls,
                    feeds0[subscribed_idxs(feeds0, decls, i as nat)[k]].url@, 0).unwrap() as int],
            ),
        decreases n - i
    {
        proof {
            assert(Seq::new((i + 1) as nat, |k: int| k)
                =~= Seq::new(i as nat, |k: int| k).push(i as int));
            Seq::new(i as nat, |k: int| k).lemma_filter_push(i as int, pred);
        }
        let ghost pre = rest@;
        let mut f = rest.remove(0);
        proof {
            assert(pre[0] == feeds0[i as int]);
            assert(rest@ =~= feeds0.subrange(i + 1, n as int));
        }
        match find_decl(url_feeds, &f.url) {
            Some(d) => {
                proof {
                    assert(pred(i as int));
                }
                let u = &url_feeds[d];
                let tags = crate::feed_item::clone_string_vec(&u.tags);
                let title_override = crate::feed_item::clone_opt_string(&u.title_override);
                f.update_with_url_data(tags, u.hidden, title_override, u.line_no);
                result.push(f);
                proof {
                    let idxs = subscribed_idxs(feeds0, decls, (i + 1) as nat);
                    assert(idxs
                        == subscribed_idxs(feeds0, decls, i as nat).push(i as int));
                    assert(idxs[idxs.len() - 1] == i as int);
                }
            },
            None => {
                proof {
                    assert(!pred(i as int));
                }
            },
        }
        i += 1;
    }
    result
}

/// The position of the first declaration whose URL equals `url`.
fn find_decl(url_feeds: &Vec<URLFeed>, url: &String) -> (r: Option<usize>)
    ensures
        (match r {
            Some(d) => Some(d as nat) == decl_for(url_feeds@, url@, 0)
                && d < url_feeds@.len(),
            None => decl_for(url_feeds@, url@, 0) is None,
        }),
{
    let n = url_feeds.len();
    let mut i: usize = 0;
    while i < n
        invariant
            n == url_feeds@.len(),
            i <= n,
            decl_for(url_feeds@, url@, 0) == decl_for(url_feeds@, url@, i as nat),
        decreases n - i
    {
        proof {
            reveal_with_fuel(decl_for, 2);
        }
        if crate::text::str_eq(url_feeds[i].url.as_str(), url.as_str()) {
            return Some(i);
        }
        i += 1;
    }
    proof {
        reveal_with_fuel(decl_for, 1);
    }
    None
}

// ---------------------------------------------------------------------------
// Attaching articles to their feeds.
// ---------------------------------------------------------------------------

/// The first feed whose URL is `url`.
pub open spec fn owner_for(feeds: Seq<Feed>, url: Seq<char>, from: nat) -> Option<nat>
    decreases feeds.len() - from when from <= feeds.len()
{
    if from >= feeds.len() {
        None
    } else if feeds[from as int].url@ == url {
        Some(from)
    } else {
        owner_for(feeds, url, (from + 1) as nat)
    }
}

/// The presentation snapshot an article carries of its owning feed.
pub open spec fn source_view_of(f: Feed) -> FeedSourceView {
    FeedSourceView { title: f.display_title@, feedlink: f.feedlink@, tags: f.tags@ }
}

/// The view of an article once attached to feed `f`: the article itself,
/// now carrying the owner snapshot.
pub open spec fn attached_view(it: FeedItem, f: Feed) -> FeedItemView {
    FeedItemView { source: Some(source_view_of(f)), ..it@ }
}

/// Whether an article belongs to feed `k` of `feeds` under the read
/// filter: feed `k` is the first with the article's feed URL, and read
/// articles only count when `show_read` is on.
pub open spec fn attaches_to(
    feeds: Seq<Feed>,
    it: FeedItem,
    k: int,
    show_read: bool,
) -> bool {
    owner_for(feeds, it.feed_url@, 0) == Some(k as nat) && (show_read || it.unread)
}

/// The views of the articles of `items` that attach to feed `k`, in input
/// order, each carrying the owner snapshot.
pub open spec fn attached_views(
    feeds: Seq<Feed>,
    items: Seq<FeedItem>,
    k: int,
    show_read: bool,
) -> Seq<FeedItemView> {
    items.filter(|it: FeedItem| attaches_to(feeds, it, k, show_read))
        .map_values(|it: FeedItem| attached_view(it, feeds[k]))
}

/// The position of the first feed whose URL is `url`.
fn find_owner(feeds: &Vec<Feed>, url: &String) -> (r: Option<usize>)
    ensures
        (match r {
            Some(d) => Some(d as nat) == owner_for(feeds@, url@, 0) && d < feeds@.len(),
            None => owner_for(feeds@, url@, 0) is None,
        }),
{
    let n = feeds.len();
    let mut i: usize = 0;
    while i < n
        invariant
            n == feeds@.len(),
            i <= n,
            owner_for(feeds@, url@, 0) == owner_for(feeds@, url@, i as nat),
        decreases n - i
    {
        proof {
            reveal_with_fuel(owner_for, 2);
        }
        if crate::text::str_eq(feeds[i].url.as_str(), url.as_str()) {
            return Some(i);
        }
        i += 1;
    }
    proof {
        reveal_with_fuel(owner_for, 1);
    }
    None
}

/// Attach each article to the first feed with its URL, dropping read
/// articles when `show_read` is off, then sort every feed newest-first.
/// Each feed ends with its original articles plus, as a set, exactly the
/// articles that attach to it, each carrying the owner snapshot.
pub fn populate_url_feeds(feeds: &mut Vec<Feed>, feed_items: Vec<FeedItem>, show_read: bool)
    ensures
        final(feeds)@.len() == old(feeds)@.len(),
        forall|k: int| 0 <= k < old(feeds)@.len() ==> {
            let f0 = old(feeds)@[k];
            let f1 = #[trigger] final(feeds)@[k];
            &&& f1 == (Feed { items: f1.items, sorted: true, ..f0 })
            &&& sorted_desc(f1.items@)
            &&& items_view(f1.items@).to_multiset() == (items_view(f0.items@)
                + attached_views(old(feeds)@, feed_items@, k, show_read)).to_multiset()
        },
{
    broadcast use vstd::seq_lib::group_seq_properties;

    let ghost feeds0 = feeds@;
    let ghost all = feed_items@;
    let mut rest = feed_items;
    let mut consumed: usize = 0;
    let total = rest.len();
    proof {
        assert(rest@ =~= all.subrange(0, total as int));
        assert forall|k: int| 0 <= k < feeds0.len() implies
            items_view((#[trigger] feeds@[k]).items@)
                =~= items_view(feeds0[k].items@)
                    + attached_views_upto(feeds0, all, k, show_read, 0) by {
            assert(all.subrange(0, 0).filter(attach_pred(feeds0, k, show_read))
                =~= Seq::<FeedItem>::empty());
        }
    }
    while consumed < total
        invariant
            total == all.len(),
            consumed <= total,
            rest@ == all.subrange(consumed as int, total as int),
            feeds@.len() == feeds0.len(),
            forall|k: int| 0 <= k < feeds0.len() ==> {
                let f0 = feeds0[k];
                let f1 = #[trigger] feeds@[k];
                &&& f1 == (Feed { items: f1.items, ..f0 })
                &&& items_view(f1.items@) == items_view(f0.items@)
                    + attached_views_upto(feeds0, all, k, show_read, consumed as int)
            },
        decreases total - consumed
    {
        let ghost pre = rest@;
        let item = rest.remove(0);
        proof {
            assert(pre[0] == all[consumed as int]);
            assert(rest@ =~= all.subrange(consumed + 1, total as int));
        }
        let keep = show_read || item.is_unread();
        let owner = find_owner(feeds, &item.feed_url);
        proof {
            lemma_owner_same(feeds@, feeds0, item.feed_url@, 0);
        }
        match owner {
            Some(k) => {
                if keep {
                    let mut it = item;
                    let src = crate::feed_item::FeedSource {
                        title: feeds[k].display_title.clone(),
                        feedlink: feeds[k].feedlink.clone(),
                        tags: crate::feed_item::clone_string_vec(&feeds[k].tags),
                    };
                    it.set_source(src);
                    let ghost fpre = feeds@;
                    let ghost prev = feeds@[k as int].items@;
                    let mut f = feeds.remove(k);
                    f.add_item(it);
                    feeds.insert(k, f);
                    proof {
                        assert(feeds@ =~= fpre.update(k as int, feeds@[k as int]));
                        assert forall|j: int| 0 <= j < feeds0.len() implies
                            #[trigger] attached_views_upto(feeds0, all, j, show_read,
                                consumed + 1 as int)
                                == if j == k as int && attaches_to(feeds0,
                                    all[consumed as int], j, show_read) {
                                    attached_views_upto(feeds0, all, j, show_read,
                                        consumed as int).push(attached_view(
                                        all[consumed as int], feeds0[j]))
                                } else {
                                    attached_views_upto(feeds0, all, j, show_read,
                                        consumed as int)
                                } by {
                            lemma_attach_step(feeds0, all, show_read, consumed as int, j);
                            if j != k as int {
                                assert(!attaches_to(feeds0, all[consumed as int], j,
                                    show_read));
                            }
                        }
                        assert(items_view(feeds@[k as int].items@)
                            =~= items_view(prev).push(attached_view(all[consumed as int],
                                feeds0[k as int])));
                    }
                } else {
                    proof {
                        assert forall|j: int| 0 <= j < feeds0.len() implies
                            #[trigger] attached_views_upto(feeds0, all, j, show_read,
                                consumed + 1 as int)
                                == attached_views_upto(feeds0, all, j, show_read,
                                    consumed as int) by {
                            lemma_attach_step(feeds0, all, show_read, consumed as int, j);
                            assert(!attaches_to(feeds0, all[consumed as int], j, show_read));
                        }
                    }
                }
            },
            None => {
                proof {
                    assert forall|j: int| 0 <= j < feeds0.len() implies
                        #[trigger] attached_views_upto(feeds0, all, j, show_read,
                            consumed + 1 as int)
                            == attached_views_upto(feeds0, all, j, show_read,
                                consumed as int) by {
                        lemma_attach_step(feeds0, all, show_read, consumed as int, j);
                        assert(!attaches_to(feeds0, all[consumed as int], j, show_read));
                    }
                }
            },
        }
        consumed += 1;
    }
    // sort every feed
    let n = feeds.len();
    let mut k: usize = 0;
    while k < n
        invariant
            n == feeds@.len() == feeds0.len(),
            k <= n,
            forall|j: int| k <= j < n ==> {
                let f0 = feeds0[j];
                let f1 = #[trigger] feeds@[j];
                &&& f1 == (Feed { items: f1.items, ..f0 })
                &&& items_view(f1.items@) == items_view(f0.items@)
                    + attached_views(feeds0, all, j, show_read)
            },
            forall|j: int| 0 <= j < k ==> {
                let f0 = feeds0[j];
                let f1 = #[trigger] feeds@[j];
                &&& f1 == (Feed { items: f1.items, sorted: true, ..f0 })
                &&& sorted_desc(f1.items@)
                &&& items_view(f1.items@).to_multiset() == (items_view(f0.items@)
                    + attached_views(feeds0, all, j, show_read)).to_multiset()
            },
        decreases n - k
    {
        proof {
            assert(all.subrange(0, all.len() as int) =~= all);
        }
        let ghost fpre = feeds@;
        let ghost before = feeds@[k as int].items@;
        let mut f = feeds.remove(k);
        f.sort_items();
        feeds.insert(k, f);
        proof {
            assert(feeds@ =~= fpre.update(k as int, feeds@[k as int]));
            lemma_view_multiset(feeds@[k as int].items@, before);
        }
        k += 1;
    }
}

/// The attachment test for feed `k`, as a predicate on articles.
pub open spec fn attach_pred(feeds: Seq<Feed>, k: int, show_read: bool)
    -> spec_fn(FeedItem) -> bool {
    |it: FeedItem| attaches_to(feeds, it, k, show_read)
}

/// The attached views drawn from the first `upto` articles.
pub open spec fn attached_views_upto(
    feeds: Seq<Feed>,
    items: Seq<FeedItem>,
    k: int,
    show_read: bool,
    upto: int,
) -> Seq<FeedItemView> {
    items.subrange(0, upto).filter(attach_pred(feeds, k, show_read))
        .map_values(|it: FeedItem| attached_view(it, feeds[k]))
}

/// Scanning one more article extends the attached views of its owner by
/// its view, and leaves every other feed's attached views unchanged.
proof fn lemma_attach_step(
    feeds: Seq<Feed>,
    items: Seq<FeedItem>,
    show_read: bool,
    i: int,
    k: int,
)
    requires
        0 <= i < items.len(),
        0 <= k < feeds.len(),
    ensures
        attached_views_upto(feeds, items, k, show_read, i + 1)
            == if attaches_to(feeds, items[i], k, show_read) {
                attached_views_upto(feeds, items, k, show_read, i)
                    .push(attached_view(items[i], feeds[k]))
            } else {
                attached_views_upto(feeds, items, k, show_read, i)
            },
{
    broadcast use vstd::seq_lib::group_seq_properties;

    let pred = attach_pred(feeds, k, show_read);
    assert(items.subrange(0, i + 1) =~= items.subrange(0, i).push(items[i]));
    items.subrange(0, i).lemma_filter_push(items[i], pred);
    if pred(items[i]) {
        assert(items.subrange(0, i + 1).filter(pred)
            .map_values(|it: FeedItem| attached_view(it, feeds[k]))
            =~= items.subrange(0, i).filter(pred)
                .map_values(|it: FeedItem| attached_view(it, feeds[k]))
                .push(attached_view(items[i], feeds[k])));
    }
}

/// The first feed with a given URL does not change while only feed items
/// are attached: attachment edits items alone, never a feed's URL.
proof fn lemma_owner_same(feeds1: Seq<Feed>, feeds2: Seq<Feed>, url: Seq<char>, from: nat)
    requires
        from <= feeds1.len(),
        feeds1.len() == feeds2.len(),
        forall|k: int| 0 <= k < feeds1.len() ==> (#[trigger] feeds1[k]).url@ == feeds2[k].url@,
    ensures
        owner_for(feeds1, url, from) == owner_for(feeds2, url, from),
    decreases feeds1.len() - from
{
    if from >= feeds1.len() {
    } else if feeds1[from as int].url@ == url {
    } else {
        lemma_owner_same(feeds1, feeds2, url, (from + 1) as nat);
    }
}


// ---------------------------------------------------------------------------
// Enriching the live window of a feed.
// ---------------------------------------------------------------------------

/// How one article looks after enrichment ran on it, at the level of
/// article values. The enrichment decision (see
/// [`crate::content::enrich_plan`]) fixes the working URL and comments
/// link; extraction fills content, text length and nothing else. A failed
/// decision is recovered locally: the content is cleared and everything
/// else kept.
pub open spec fn enrich_rel(
    old_it: FeedItemView,
    new_it: FeedItemView,
    feedlink: Seq<char>,
    scrape_reddit: bool,
    scrape_hn: bool,
) -> bool {
    let plan = enrich_plan(old_it.url, feedlink, old_it.feed_url, old_it.content,
        scrape_reddit, scrape_hn);
    match plan {
        Err(_) => new_it == (FeedItemView { content: Seq::<char>::empty(), ..old_it }),
        Ok(p) => {
            &&& new_it == (FeedItemView {
                url: new_it.url,
                content: new_it.content,
                content_length: new_it.content_length,
                comments_url: new_it.comments_url,
                ..old_it
            })
            &&& new_it.url == p.url
            &&& new_it.comments_url == (match p.comments_url {
                Some(c) => Some(c),
                None => old_it.comments_url,
            })
            &&& (!p.scrape ==> (match extraction_of(old_it.content, p.url) {
                Some(e) => new_it.content == e.0
                    && new_it.content_length
                        == (vstd::utf8::encode_utf8(e.1).len() as usize) as nat,
                None => new_it.content == Seq::<char>::empty()
                    && new_it.content_length == 0,
            }))
        },
    }
}

/// Run content enrichment over the live window of a feed: every article
/// the window holds is processed once (see [`enrich_rel`]); everything
/// past the window, and the feed itself, stays untouched.
pub fn enrich_feed(feed: &mut Feed, options: &Options, now: i64)
    ensures
        *final(feed) == (Feed { items: final(feed).items, ..*old(feed) }),
        final(feed).items@.len() == old(feed).items@.len(),
        forall|i: int| 0 <= i < old(feed).items@.len()
            ==> if i < live_count_of(old(feed).items@, now as int) {
                enrich_rel(old(feed).items@[i]@, (#[trigger] final(feed).items@[i])@,
                    old(feed).feedlink@, options.scrape_reddit_links,
                    options.scrape_hn_links)
            } else {
                final(feed).items@[i] == old(feed).items@[i]
            },
{
    broadcast use vstd::seq_lib::group_seq_properties;

    let ghost orig = feed.items@;
    let count = feed.truncated_items_count(now);
    let n = feed.items.len();
    proof {
        // the live window never exceeds the article count
        orig.lemma_filter_len(crate::feed::cutoff_pred(now as int));
        assert(count <= n);
    }
    let mut i: usize = 0;
    while i < count
        invariant
            count as nat == live_count_of(orig, now as int),
            count <= n,
            i <= count,
            n == feed.items@.len(),
            orig.len() == n,
            *feed == (Feed { items: feed.items, ..*old(feed) }),
            forall|j: int| i <= j < n ==> feed.items@[j] == orig[j],
            forall|j: int| 0 <= j < i ==> enrich_rel(orig[j]@,
                (#[trigger] feed.items@[j])@, old(feed).feedlink@,
                options.scrape_reddit_links, options.scrape_hn_links),
        decreases count - i
    {
        let ghost pre_items = feed.items@;
        let mut it = feed.items.remove(i);
        proof {
            assert(it == orig[i as int]);
        }
        let res = process_article_content(&it.url, &feed.feedlink, &it.feed_url,
            &it.content, options);
        let ghost old_view = it@;
        match res {
            Ok(r) => {
                let len = r.content_length();
                it.set_content_length(len);
                it.set_content(r.content);
                it.set_url(r.url);
                match r.comments_url {
                    Some(c) => {
                        it.set_comments_url(c);
                    },
                    None => {},
                }
                proof {
                    let plan = enrich_plan(old_view.url, old(feed).feedlink@,
                        old_view.feed_url, old_view.content,
                        options.scrape_reddit_links, options.scrape_hn_links);
                    assert(plan is Ok);
                    assert(it@ =~= (FeedItemView {
                        url: it@.url,
                        content: it@.content,
                        content_length: it@.content_length,
                        comments_url: it@.comments_url,
                        ..old_view
                    }));
                }
            },
            Err(_) => {
                it.set_content(String::new());
                proof {
                    assert(it@ =~= (FeedItemView {
                        content: Seq::<char>::empty(),
                        ..old_view
                    }));
                }
            },
        }
        feed.items.insert(i, it);
        proof {
            assert(feed.items@ =~= pre_items.update(i as int, feed.items@[i as int]));
            assert(enrich_rel(orig[i as int]@, feed.items@[i as int]@,
                old(feed).feedlink@, options.scrape_reddit_links,
                options.scrape_hn_links));
        }
        i += 1;
    }
}

// ---------------------------------------------------------------------------
// Building query feeds from match verdicts.
// ---------------------------------------------------------------------------

/// The articles of `items` picked by the verdicts `v`, in order.
pub open spec fn picked(items: Seq<FeedItem>, v: Seq<bool>) -> Seq<FeedItem>
    decreases items.len()
{
    if items.len() == 0 {
        Seq::<FeedItem>::empty()
    } else {
        picked(items.drop_last(), v.drop_last())
            + if v.len() == items.len() && v.last() {
                seq![items.last()]
            } else {
                Seq::<FeedItem>::empty()
            }
    }
}

/// The articles of all feeds picked by the per-feed verdicts, feeds in
/// order, each feed's articles in order.
pub open spec fn matched_upto(feeds: Seq<Feed>, verdicts: Seq<Seq<bool>>, upto: int)
    -> Seq<FeedItem>
    decreases upto
{
    if upto <= 0 {
        Seq::<FeedItem>::empty()
    } else {
        matched_upto(feeds, verdicts, upto - 1)
            + picked(feeds[upto - 1].items@, verdicts[upto - 1])
    }
}

/// Extending the picked articles by one position.
proof fn lemma_picked_step(items: Seq<FeedItem>, v: Seq<bool>, j: int)
    requires
        0 <= j < items.len(),
        v.len() == items.len(),
    ensures
        picked(items.subrange(0, j + 1), v.subrange(0, j + 1))
            == picked(items.subrange(0, j), v.subrange(0, j))
                + if v[j] { seq![items[j]] } else { Seq::<FeedItem>::empty() },
{
    let a = items.subrange(0, j + 1);
    let b = v.subrange(0, j + 1);
    assert(a.drop_last() =~= items.subrange(0, j));
    assert(b.drop_last() =~= v.subrange(0, j));
    assert(a.last() == items[j]);
    assert(b.last() == v[j]);
}

/// Build one query feed from the external evaluator's verdicts: for every
/// article of every feed, `verdicts` says whether the filter matched it.
/// The result is a sorted query feed holding exactly the matched
/// articles.
pub fn build_query_feed(
    title: String,
    line_no: usize,
    feeds: &Vec<Feed>,
    verdicts: &Vec<Vec<bool>>,
) -> (r: Feed)
    requires
        verdicts@.len() == feeds@.len(),
        forall|k: int| 0 <= k < feeds@.len()
            ==> (#[trigger] verdicts@[k])@.len() == feeds@[k].items@.len(),
    ensures
        r.is_query,
        r.title == title,
        r.display_title == title,
        r.order_idx == line_no,
        r.id@ == crate::feed::base58_of(title@),
        r.url@ == Seq::<char>::empty(),
        r.feedlink@ == Seq::<char>::empty(),
        !r.hidden,
        r.sorted,
        sorted_desc(r.items@),
        items_view(r.items@).to_multiset()
            == items_view(matched_upto(feeds@, verdicts.deep_view(), feeds@.len() as int))
                .to_multiset(),
{
    let ghost dv = verdicts.deep_view();
    proof {
        assert forall|j: int| 0 <= j < verdicts@.len() implies
            #[trigger] dv[j] == verdicts@[j]@ by {
            assert(dv[j] =~= verdicts@[j]@);
        }
    }
    let mut q = Feed::init_query_feed(title, line_no);
    let ghost q0 = q;
    let n = feeds.len();
    let mut k: usize = 0;
    proof {
        assert(items_view(q.items@)
            =~= items_view(matched_upto(feeds@, dv, 0)));
    }
    while k < n
        invariant
            dv == verdicts.deep_view(),
            n == feeds@.len(),
            verdicts@.len() == n,
            forall|j: int| 0 <= j < n ==> #[trigger] dv[j] == verdicts@[j]@,
            forall|j: int| 0 <= j < n
                ==> (#[trigger] verdicts@[j])@.len() == feeds@[j].items@.len(),
            k <= n,
            q == (Feed { items: q.items, ..q0 }),
            items_view(q.items@) == items_view(matched_upto(feeds@, dv, k as int)),
        decreases n - k
    {
        let m = feeds[k].items.len();
        let mut j: usize = 0;
        proof {
            assert(feeds@[k as int].items@.subrange(0, 0) =~= Seq::<FeedItem>::empty());
            assert(dv[k as int].subrange(0, 0) =~= Seq::<bool>::empty());
            assert(picked(Seq::<FeedItem>::empty(), Seq::<bool>::empty())
                =~= Seq::<FeedItem>::empty());
            assert(items_view(q.items@) =~= items_view(matched_upto(feeds@, dv, k as int)
                + picked(feeds@[k as int].items@.subrange(0, 0),
                    dv[k as int].subrange(0, 0))));
        }
        while j < m
            invariant
                dv == verdicts.deep_view(),
                n == feeds@.len(),
                verdicts@.len() == n,
                forall|jj: int| 0 <= jj < n ==> #[trigger] dv[jj] == verdicts@[jj]@,
                forall|jj: int| 0 <= jj < n
                    ==> (#[trigger] verdicts@[jj])@.len() == feeds@[jj].items@.len(),
                k < n,
                m == feeds@[k as int].items@.len(),
                j <= m,
                q == (Feed { items: q.items, ..q0 }),
                items_view(q.items@) == items_view(matched_upto(feeds@, dv, k as int)
                    + picked(feeds@[k as int].items@.subrange(0, j as int),
                        dv[k as int].subrange(0, j as int))),
            decreases m - j
        {
            proof {
                lemma_picked_step(feeds@[k as int].items@, dv[k as int], j as int);
            }
            if verdicts[k][j] {
                let it = feeds[k].items[j].clone();
                let ghost pre = q.items@;
                q.add_item(it);
                proof {
                    assert(items_view(q.items@)
                        =~= items_view(pre).push(feeds@[k as int].items@[j as int]@));
                    assert(items_view(matched_upto(feeds@, dv, k as int)
                        + picked(feeds@[k as int].items@.subrange(0, j + 1 as int),
                            dv[k as int].subrange(0, j + 1 as int)))
                        =~= items_view(matched_upto(feeds@, dv, k as int)
                            + picked(feeds@[k as int].items@.subrange(0, j as int),
                                dv[k as int].subrange(0, j as int)))
                            .push(feeds@[k as int].items@[j as int]@));
                }
            } else {
                proof {
                    assert(matched_upto(feeds@, dv, k as int)
                        + picked(feeds@[k as int].items@.subrange(0, j + 1 as int),
                            dv[k as int].subrange(0, j + 1 as int))
                        =~= matched_upto(feeds@, dv, k as int)
                            + picked(feeds@[k as int].items@.subrange(0, j as int),
                                dv[k as int].subrange(0, j as int)));
                }
            }
            j += 1;
        }
        proof {
            assert(feeds@[k as int].items@.subrange(0, m as int)
                =~= feeds@[k as int].items@);
            assert(dv[k as int].subrange(0, m as int) =~= dv[k as int]);
            assert(matched_upto(feeds@, dv, k + 1 as int)
                == matched_upto(feeds@, dv, k as int)
                    + picked(feeds@[k as int].items@, dv[k as int]));
        }
        k += 1;
    }
    let ghost before_sort = q.items@;
    q.sort_items();
    proof {
        lemma_view_multiset(q.items@, before_sort);
    }
    q
}

// ---------------------------------------------------------------------------
// The build run as a state machine.
// ---------------------------------------------------------------------------

/// The phases of one build run, in order; `Done` and `Failed` are
/// terminal.
#[derive(Clone, Copy, PartialEq, Eq, Structural, Debug)]
pub enum BuildPhase {
    Init,
    Fetch,
    Merge,
    Enrich,
    Match,
    Emit,
    Publish,
    Cleanup,
    Done,
    Failed,
}

/// What one phase's work reported back.
#[derive(Clone, Copy, PartialEq, Eq, Structural, Debug)]
pub enum StepOutcome {
    Success,
    Fatal,
}

/// Where a build run stands: its phase, and whether a fatal error has
/// struck.
#[derive(Clone, Copy, PartialEq, Eq, Structural, Debug)]
pub struct BuildState {
    pub phase: BuildPhase,
    pub failed: bool,
}

/// The phase after `p` on success.
pub open spec fn phase_successor(p: BuildPhase) -> BuildPhase {
    match p {
        BuildPhase::Init => BuildPhase::Fetch,
        BuildPhase::Fetch => BuildPhase::Merge,
        BuildPhase::Merge => BuildPhase::Enrich,
        BuildPhase::Enrich => BuildPhase::Match,
        BuildPhase::Match => BuildPhase::Emit,
        BuildPhase::Emit => BuildPhase::Publish,
        BuildPhase::Publish => BuildPhase::Cleanup,
        BuildPhase::Cleanup => BuildPhase::Done,
        BuildPhase::Done => BuildPhase::Done,
        BuildPhase::Failed => BuildPhase::Failed,
    }
}

/// The next state of a build run. A fatal error anywhere jumps to
/// `Cleanup` and marks the run failed; cleanup itself always runs to
/// completion, its own outcome ignored, and then the run ends `Done` or
/// `Failed` according to whether an error struck earlier.
pub open spec fn spec_next_state(s: BuildState, o: StepOutcome) -> BuildState {
    match s.phase {
        BuildPhase::Done => s,
        BuildPhase::Failed => s,
        BuildPhase::Cleanup => BuildState {
            phase: if s.failed {
                BuildPhase::Failed
            } else {
                BuildPhase::Done
            },
            failed: s.failed,
        },
        _ => match o {
            StepOutcome::Success => BuildState {
                phase: phase_successor(s.phase),
                failed: s.failed,
            },
            StepOutcome::Fatal => BuildState { phase: BuildPhase::Cleanup, failed: true },
        },
    }
}

/// Advance a build run by one step.
pub fn next_build_state(s: &BuildState, o: &StepOutcome) -> (r: BuildState)
    ensures
        r == spec_next_state(*s, *o),
{
    match s.phase {
        BuildPhase::Done => *s,
        BuildPhase::Failed => *s,
        BuildPhase::Cleanup => BuildState {
            phase: if s.failed {
                BuildPhase::Failed
            } else {
                BuildPhase::Done
            },
            failed: s.failed,
        },
        _ => match o {
            StepOutcome::Success => BuildState {
                phase: match s.phase {
                    BuildPhase::Init => BuildPhase::Fetch,
                    BuildPhase::Fetch => BuildPhase::Merge,
                    BuildPhase::Merge => BuildPhase::Enrich,
                    BuildPhase::Enrich => BuildPhase::Match,
                    BuildPhase::Match => BuildPhase::Emit,
                    BuildPhase::Emit => BuildPhase::Publish,
                    BuildPhase::Publish => BuildPhase::Cleanup,
                    BuildPhase::Cleanup => BuildPhase::Done,
                    BuildPhase::Done => BuildPhase::Done,
                    BuildPhase::Failed => BuildPhase::Failed,
                },
                failed: s.failed,
            },
            StepOutcome::Fatal => BuildState { phase: BuildPhase::Cleanup, failed: true },
        },
    }
}

/// A build run never ends without cleanup: a terminal state is only ever
/// entered from `Cleanup` (or is already terminal), and a fatal outcome
/// never ends the run by itself — it routes through `Cleanup` first.
pub proof fn lemma_cleanup_runs_before_terminal(s: BuildState, o: StepOutcome)
    ensures
        (spec_next_state(s, o).phase == BuildPhase::Done
            || spec_next_state(s, o).phase == BuildPhase::Failed)
            ==> (s.phase == BuildPhase::Cleanup || s.phase == BuildPhase::Done
                || s.phase == BuildPhase::Failed),
        o == StepOutcome::Fatal && s.phase != BuildPhase::Cleanup
            && s.phase != BuildPhase::Done && s.phase != BuildPhase::Failed
            ==> spec_next_state(s, o).phase == BuildPhase::Cleanup
                && spec_next_state(s, o).failed,
{
}

} // verus!
