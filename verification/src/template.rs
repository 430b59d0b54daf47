use vstd::prelude::*;

use crate::feed::{lemma_insert_multiset, lemma_remove_multiset, Feed};

verus! {

/// Feeds ordered by their subscription-file position.
pub open spec fn sorted_by_order(s: Seq<Feed>) -> bool {
    forall|i: int, j: int| 0 <= i < j < s.len() ==> s[i].order_idx <= s[j].order_idx
}

/// The test for a feed that has articles.
pub open spec fn nonempty_pred() -> spec_fn(Feed) -> bool {
    |f: Feed| f.items@.len() > 0
}

/// Sort feeds by subscription-file position, by insertion: the result is
/// a rearrangement of the input.
fn sort_feeds_by_order(v: &mut Vec<Feed>)
    ensures
        sorted_by_order(final(v)@),
        final(v)@.to_multiset() == old(v)@.to_multiset(),
        final(v)@.len() == old(v)@.len(),
{
    broadcast use vstd::seq_lib::group_to_multiset_ensures;

    let ghost orig = v@;
    let n = v.len();
    if n <= 1 {
        return;
    }
    let mut i: usize = 1;
    while i < n
        invariant
            n == v@.len(),
            1 <= i <= n,
            sorted_by_order(v@.subrange(0, i as int)),
            v@.to_multiset() == orig.to_multiset(),
        decreases n - i
    {
        let ghost pre = v@;
        let x = v.remove(i);
        proof {
            lemma_remove_multiset(pre, i as int);
            assert(v@.subrange(0, i as int) =~= pre.subrange(0, i as int));
        }
        // position of the first entry placed later in the subscription file
        let mut p: usize = 0;
        while p < i && v[p].order_idx <= x.order_idx
            invariant
                i < n,
                n == v@.len() + 1,
                p <= i,
                forall|k: int| 0 <= k < p ==> v@[k].order_idx <= x.order_idx,
            decreases i - p
        {
            p += 1;
        }
        let ghost mid = v@;
        v.insert(p, x);
        proof {
            lemma_insert_multiset(mid, p as int, x);
            assert(pre.to_multiset().count(x) >= 1) by {
                pre.to_multiset_ensures();
                assert(pre[i as int] == x);
                assert(pre.contains(x));
            }
            assert(mid.to_multiset().insert(x) =~= pre.to_multiset());
            let s = v@;
            mid.insert_ensures(p as int, x);
            assert forall|a: int, b: int| 0 <= a < b < i + 1 implies
                s[a].order_idx <= s[b].order_idx by {
                assert(sorted_by_order(mid.subrange(0, i as int)));
                assert(forall|k: int| 0 <= k < i ==>
                    mid.subrange(0, i as int)[k] == mid[k]);
                if b < p {
                    assert(s[a] == mid[a] && s[b] == mid[b]);
                } else if b == p {
                    assert(s[a] == mid[a] && s[b] == x);
                } else if a < p {
                    assert(s[a] == mid[a] && s[b] == mid[b - 1]);
                    if b - 1 < p {
                    } else if b - 1 == p {
                        assert(p < i);
                        assert(mid[p as int].order_idx > x.order_idx);
                        assert(mid[a].order_idx <= x.order_idx);
                    } else {
                        assert(p < i);
                    }
                } else if a == p {
                    assert(s[a] == x && s[b] == mid[b - 1]);
                    assert(p < i);
                    assert(mid[p as int].order_idx > x.order_idx);
                    if b - 1 > p {
                        assert(mid[b - 1].order_idx >= mid[p as int].order_idx);
                    }
                } else {
                    assert(s[a] == mid[a - 1] && s[b] == mid[b - 1]);
                    assert(p < i);
                    assert(mid[p as int].order_idx > x.order_idx);
                }
            }
            assert(sorted_by_order(s.subrange(0, i + 1 as int))) by {
                assert(forall|k: int| 0 <= k < i + 1 ==>
                    s.subrange(0, i + 1 as int)[k] == s[k]);
            }
        }
        i += 1;
    }
    proof {
        assert(v@.subrange(0, n as int) =~= v@);
        assert(v@.to_multiset().len() == orig.to_multiset().len());
    }
}

/// The context handed to the external template engine: every URL feed,
/// every non-empty query feed, in subscription-file order, together with
/// the moment the page was built.
pub struct SimpleContext {
    /// The feeds of the page.
    pub feeds: Vec<Feed>,
    /// When the page was built, in epoch seconds.
    pub build_time: u64,
}

impl SimpleContext {
    /// Assemble the page context: the URL feeds, plus each query feed
    /// that matched at least one article, sorted by subscription-file
    /// position.
    pub fn init(url_feeds: Vec<Feed>, query_feeds: Vec<Feed>, build_time: u64)
        -> (r: SimpleContext)
        ensures
            r.build_time == build_time,
            sorted_by_order(r.feeds@),
            r.feeds@.to_multiset()
                == (url_feeds@ + query_feeds@.filter(nonempty_pred())).to_multiset(),
    {
        broadcast use vstd::seq_lib::group_seq_properties;

        let ghost urls0 = url_feeds@;
        let ghost queries0 = query_feeds@;
        let ghost pred = nonempty_pred();
        let mut feeds = url_feeds;
        let mut rest = query_feeds;
        let mut i: usize = 0;
        let m = rest.len();
        proof {
            assert(queries0.subrange(0, 0).filter(pred) =~= Seq::<Feed>::empty());
            assert(feeds@ =~= urls0 + queries0.subrange(0, 0).filter(pred));
            assert(rest@ =~= queries0.subrange(0, m as int));
        }
        while i < m
            invariant
                pred == nonempty_pred(),
                m == queries0.len(),
                i <= m,
                rest@ == queries0.subrange(i as int, m as int),
                feeds@ == urls0 + queries0.subrange(0, i as int).filter(pred),
            decreases m - i
        {
            proof {
                assert(queries0.subrange(0, i + 1 as int)
                    =~= queries0.subrange(0, i as int).push(queries0[i as int]));
                queries0.subrange(0, i as int).lemma_filter_push(queries0[i as int], pred);
            }
            let ghost rpre = rest@;
            let q = rest.remove(0);
            proof {
                assert(rpre[0] == queries0[i as int]);
                assert(rest@ =~= queries0.subrange(i + 1, m as int));
            }
            if q.items.len() > 0 {
                feeds.push(q);
            }
            i += 1;
        }
        proof {
            assert(queries0.subrange(0, m as int) =~= queries0);
        }
        let ghost combined = feeds@;
        sort_feeds_by_order(&mut feeds);
        SimpleContext { feeds, build_time }
    }

    /// The feeds of the page.
    pub fn feeds(&self) -> (r: &Vec<Feed>)
        ensures
            r == self.feeds,
    {
        &self.feeds
    }

    /// When the page was built.
    pub fn build_time(&self) -> (r: u64)
        ensures
            r == self.build_time,
    {
        self.build_time
    }
}

} // verus!
