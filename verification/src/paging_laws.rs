//! What holds of pages taken together: they neither skip nor repeat a flow, and lead back.
use vstd::prelude::*;

use crate::domain::{FlowPageDirection, FlowView};
use crate::paging::{PageView, RequestView};

verus! {

/// The text comes before the other, character by character.
pub open spec fn text_less(a: Seq<char>, b: Seq<char>) -> bool
    decreases a.len(),
{
    if b.len() == 0 {
        false
    } else if a.len() == 0 {
        true
    } else {
        a[0] < b[0] || (a[0] == b[0] && text_less(a.drop_first(), b.drop_first()))
    }
}

/// By what flows are ordered: the time at which they were last seen, then their identity.
pub open spec fn order_key(f: FlowView) -> (i64, Seq<char>) {
    (f.last_seen, f.flow_id)
}

/// The first is newer than the second.
pub open spec fn is_newer(a: (i64, Seq<char>), b: (i64, Seq<char>)) -> bool {
    a.0 > b.0 || (a.0 == b.0 && text_less(b.1, a.1))
}

/// The flows stand from the newest to the oldest.
pub open spec fn in_order(all: Seq<FlowView>) -> bool {
    forall|i: int, j: int|
        0 <= i < j < all.len() ==> is_newer(
            order_key(#[trigger] all[i]),
            order_key(#[trigger] all[j]),
        )
}

/// The first flows of a list, at most `n`.
pub open spec fn at_most(s: Seq<FlowView>, n: int) -> Seq<FlowView> {
    if s.len() > n {
        s.take(n)
    } else {
        s
    }
}

/// The rows that are read for a request where `all` are the flows of the device in the window, from
/// the newest to the oldest: the newest ones, or those next to the anchor, nearest first; one more
/// than the page holds.
pub open spec fn rows_for(all: Seq<FlowView>, request: RequestView) -> Seq<FlowView> {
    let n = request.limit + 1;
    match request.anchor {
        None => at_most(all, n),
        Some(a) => match request.direction {
            FlowPageDirection::Older => at_most(
                all.filter(|f: FlowView| is_newer(a, order_key(f))),
                n,
            ),
            FlowPageDirection::Newer => at_most(
                all.filter(|f: FlowView| is_newer(order_key(f), a)).reverse(),
                n,
            ),
        },
    }
}

proof fn lemma_text_order(a: Seq<char>, b: Seq<char>, c: Seq<char>)
    ensures
        text_less(a, b) ==> !text_less(b, a),
        text_less(a, b) && text_less(b, c) ==> text_less(a, c),
    decreases a.len(),
{
    if a.len() > 0 && b.len() > 0 {
        if c.len() > 0 {
            lemma_text_order(a.drop_first(), b.drop_first(), c.drop_first());
        } else {
            lemma_text_order(a.drop_first(), b.drop_first(), c);
        }
    }
}

proof fn lemma_newer_order(a: (i64, Seq<char>), b: (i64, Seq<char>), c: (i64, Seq<char>))
    ensures
        is_newer(a, b) ==> !is_newer(b, a),
        is_newer(a, b) && is_newer(b, c) ==> is_newer(a, c),
{
    lemma_text_order(b.1, a.1, c.1);
    lemma_text_order(c.1, b.1, a.1);
}

proof fn lemma_in_order_prefix(all: Seq<FlowView>)
    requires
        in_order(all),
        all.len() > 0,
    ensures
        in_order(all.drop_last()),
{
    let t = all.drop_last();
    assert forall|i: int, j: int| 0 <= i < j < t.len() implies is_newer(
        order_key(#[trigger] t[i]),
        order_key(#[trigger] t[j]),
    ) by {
        assert(is_newer(order_key(all[i]), order_key(all[j])));
    }
}

/// Where the flows that are older than an anchor begin.
proof fn lemma_older_start(all: Seq<FlowView>, a: (i64, Seq<char>)) -> (j: int)
    requires
        in_order(all),
    ensures
        0 <= j <= all.len(),
        forall|i: int|
            0 <= i < all.len() ==> is_newer(a, order_key(#[trigger] all[i])) == (i >= j),
        all.filter(|f: FlowView| is_newer(a, order_key(f))) == all.subrange(j, all.len() as int),
    decreases all.len(),
{
    reveal(Seq::filter);
    let p = |f: FlowView| is_newer(a, order_key(f));
    if all.len() == 0 {
        assert(all.filter(p) =~= all.subrange(0, 0));
        0
    } else {
        lemma_in_order_prefix(all);
        let t = all.drop_last();
        let j = lemma_older_start(t, a);
        assert(forall|i: int| 0 <= i < t.len() ==> t[i] == all[i]);
        if p(all.last()) {
            assert(all.filter(p) =~= t.filter(p).push(all.last()));
            assert(all.filter(p) =~= all.subrange(j, all.len() as int));
            assert forall|i: int| 0 <= i < all.len() implies is_newer(
                a,
                order_key(#[trigger] all[i]),
            ) == (i >= j) by {
                if i < t.len() {
                    assert(is_newer(a, order_key(t[i])) == (i >= j));
                }
            }
            j
        } else {
            if j < t.len() {
                assert(is_newer(a, order_key(t[j])));
                assert(is_newer(order_key(all[j]), order_key(all[all.len() - 1])));
                lemma_newer_order(a, order_key(all[j]), order_key(all.last()));
            }
            assert(all.filter(p) =~= all.subrange(all.len() as int, all.len() as int));
            assert forall|i: int| 0 <= i < all.len() implies is_newer(
                a,
                order_key(#[trigger] all[i]),
            ) == (i >= all.len()) by {
                if i < t.len() {
                    assert(is_newer(a, order_key(t[i])) == (i >= j));
                }
            }
            all.len() as int
        }
    }
}

/// Where the flows that are newer than an anchor end.
proof fn lemma_newer_end(all: Seq<FlowView>, a: (i64, Seq<char>)) -> (j: int)
    requires
        in_order(all),
    ensures
        0 <= j <= all.len(),
        forall|i: int|
            0 <= i < all.len() ==> is_newer(order_key(#[trigger] all[i]), a) == (i < j),
        all.filter(|f: FlowView| is_newer(order_key(f), a)) == all.subrange(0, j),
    decreases all.len(),
{
    reveal(Seq::filter);
    let p = |f: FlowView| is_newer(order_key(f), a);
    if all.len() == 0 {
        assert(all.filter(p) =~= all.subrange(0, 0));
        0
    } else {
        lemma_in_order_prefix(all);
        let t = all.drop_last();
        let j = lemma_newer_end(t, a);
        assert(forall|i: int| 0 <= i < t.len() ==> t[i] == all[i]);
        if p(all.last()) {
            if j < t.len() {
                assert(is_newer(order_key(t[j]), a) == (j < j));
                assert(is_newer(order_key(all[j]), order_key(all[all.len() - 1])));
                lemma_newer_order(order_key(all[j]), order_key(all.last()), a);
            }
            assert(all.filter(p) =~= t.filter(p).push(all.last()));
            assert(all.filter(p) =~= all.subrange(0, all.len() as int));
            assert forall|i: int| 0 <= i < all.len() implies is_newer(
                order_key(#[trigger] all[i]),
                a,
            ) == (i < all.len()) by {
                if i < t.len() {
                    assert(is_newer(order_key(t[i]), a) == (i < j));
                }
            }
            all.len() as int
        } else {
            assert(all.filter(p) =~= all.subrange(0, j));
            assert forall|i: int| 0 <= i < all.len() implies is_newer(
                order_key(#[trigger] all[i]),
                a,
            ) == (i < j) by {
                if i < t.len() {
                    assert(is_newer(order_key(t[i]), a) == (i < j));
                }
            }
            j
        }
    }
}

/// The request is one that can be made: without an anchor it goes towards older flows.
pub open spec fn request_valid(request: RequestView) -> bool {
    &&& crate::paging::limit_valid(request.limit)
    &&& request.anchor is None ==> request.direction == FlowPageDirection::Older
}

/// The part of the list that a page shows.
proof fn lemma_page_range(all: Seq<FlowView>, request: RequestView) -> (r: (int, int))
    requires
        in_order(all),
        request_valid(request),
    ensures
        0 <= r.0 <= r.1 <= all.len(),
        crate::paging::shown(request, rows_for(all, request)) == all.subrange(r.0, r.1),
        request.direction == FlowPageDirection::Older ==> r.1 == if r.0 + request.limit
            < all.len() {
            r.0 + request.limit
        } else {
            all.len() as int
        } && (rows_for(all, request).len() > request.limit) == (r.0 + request.limit < all.len()),
        request.direction == FlowPageDirection::Newer ==> r.0 == if r.1 > request.limit {
            r.1 - request.limit
        } else {
            0
        } && (rows_for(all, request).len() > request.limit) == (r.1 > request.limit),
        request.anchor is None ==> r.0 == 0,
        request.anchor matches Some(a) ==> match request.direction {
            FlowPageDirection::Older => forall|i: int|
                0 <= i < all.len() ==> is_newer(a, order_key(#[trigger] all[i])) == (i >= r.0),
            FlowPageDirection::Newer => forall|i: int|
                0 <= i < all.len() ==> is_newer(order_key(#[trigger] all[i]), a) == (i < r.1),
        },
{
    let limit = request.limit as int;
    let len = all.len() as int;
    let rows = rows_for(all, request);
    let items = crate::paging::shown(request, rows);
    match request.anchor {
        None => {
            let q = if limit < len {
                limit
            } else {
                len
            };
            assert(items =~= all.subrange(0, q));
            (0, q)
        },
        Some(a) => match request.direction {
            FlowPageDirection::Older => {
                let j = lemma_older_start(all, a);
                let q = if j + limit < len {
                    j + limit
                } else {
                    len
                };
                assert(items =~= all.subrange(j, q));
                (j, q)
            },
            FlowPageDirection::Newer => {
                let k = lemma_newer_end(all, a);
                let p = if k > limit {
                    k - limit
                } else {
                    0
                };
                let near = all.subrange(0, k).reverse();
                assert(rows == at_most(near, limit + 1));
                assert(items =~= all.subrange(p, k));
                (p, k)
            },
        },
    }
}

/// A page never holds more flows than it may, and they are flows of the device, in order: a part of
/// the list, without gaps.
pub proof fn pages_are_parts_of_the_list(all: Seq<FlowView>, request: RequestView)
    requires
        in_order(all),
        request_valid(request),
    ensures
        crate::paging::shown(request, rows_for(all, request)).len() <= request.limit,
        exists|p: int, q: int|
            0 <= p <= q <= all.len() && crate::paging::shown(request, rows_for(all, request))
                == #[trigger] all.subrange(p, q),
{
    let (p, q) = lemma_page_range(all, request);
    assert(crate::paging::shown(request, rows_for(all, request)) == all.subrange(p, q));
}

/// The first page begins with the newest flow.
pub proof fn first_page_begins_with_the_newest(all: Seq<FlowView>, request: RequestView)
    requires
        in_order(all),
        request_valid(request),
        request.anchor is None,
        all.len() > 0,
    ensures
        ({
            let items = crate::paging::shown(request, rows_for(all, request));
            items.len() > 0 && items[0] == all[0]
        }),
{
    let (p, q) = lemma_page_range(all, request);
}

proof fn lemma_anchor_is_apart(all: Seq<FlowView>, j: int)
    requires
        in_order(all),
        0 <= j < all.len(),
    ensures
        forall|i: int|
            0 <= i < all.len() ==> is_newer(order_key(all[j]), order_key(#[trigger] all[i])) == (i
                > j),
        forall|i: int|
            0 <= i < all.len() ==> is_newer(order_key(#[trigger] all[i]), order_key(all[j])) == (i
                < j),
{
    assert forall|i: int| 0 <= i < all.len() implies is_newer(
        order_key(all[j]),
        order_key(#[trigger] all[i]),
    ) == (i > j) by {
        lemma_newer_order(order_key(all[i]), order_key(all[j]), order_key(all[j]));
        lemma_newer_order(order_key(all[j]), order_key(all[i]), order_key(all[i]));
    }
    assert forall|i: int| 0 <= i < all.len() implies is_newer(
        order_key(#[trigger] all[i]),
        order_key(all[j]),
    ) == (i < j) by {
        lemma_newer_order(order_key(all[i]), order_key(all[j]), order_key(all[j]));
        lemma_newer_order(order_key(all[j]), order_key(all[i]), order_key(all[i]));
    }
}

/// The next page begins where a page ends: no flow is skipped, and none is shown twice.
pub proof fn next_page_continues(
    all: Seq<FlowView>,
    key: Seq<char>,
    hours: u32,
    request: RequestView,
    next: RequestView,
    now_ms: i64,
)
    requires
        in_order(all),
        request_valid(request),
        crate::paging::page_of(key, request, rows_for(all, request)).next_cursor matches Some(c)
            && crate::paging::continued(key, hours, c, now_ms) == Ok::<
            RequestView,
            crate::paging::QueryFault,
        >(next),
    ensures
        ({
            let first = crate::paging::shown(request, rows_for(all, request));
            let second = crate::paging::shown(next, rows_for(all, next));
            exists|p: int, q: int, r: int|
                0 <= p <= q <= r <= all.len() && first == #[trigger] all.subrange(p, q) && second
                    == #[trigger] all.subrange(q, r) && (r == all.len() || r == q + request.limit)
        }),
{
    let (p, q) = lemma_page_range(all, request);
    assert(all.subrange(p, q).last() == all[q - 1]);
    lemma_anchor_is_apart(all, q - 1);
    let (u, r) = lemma_page_range(all, next);
    if u < q {
        assert(is_newer(order_key(all[q - 1]), order_key(all[u])) == (u > q - 1));
    } else if u > q {
        assert(is_newer(order_key(all[q - 1]), order_key(all[q])) == (q > q - 1));
    }
    assert(all.subrange(q, r) == all.subrange(u, r));
}

/// The second request asks for the page after that of the first.
pub open spec fn leads_to(
    all: Seq<FlowView>,
    key: Seq<char>,
    hours: u32,
    request: RequestView,
    next: RequestView,
    now_ms: i64,
) -> bool {
    match crate::paging::page_of(key, request, rows_for(all, request)).next_cursor {
        Some(c) => crate::paging::continued(key, hours, c, now_ms) == Ok::<
            RequestView,
            crate::paging::QueryFault,
        >(next),
        None => false,
    }
}

/// Each request but the first asks for the page after the one before it.
pub open spec fn follows(
    all: Seq<FlowView>,
    key: Seq<char>,
    hours: u32,
    requests: Seq<RequestView>,
    times: Seq<i64>,
) -> bool {
    forall|i: int|
        0 <= i < requests.len() - 1 ==> leads_to(
            all,
            key,
            hours,
            #[trigger] requests[i],
            requests[i + 1],
            times[i],
        )
}

/// The flows on the pages of requests, one page after the other.
pub open spec fn all_shown(all: Seq<FlowView>, requests: Seq<RequestView>) -> Seq<FlowView>
    decreases requests.len(),
{
    if requests.len() == 0 {
        Seq::empty()
    } else {
        all_shown(all, requests.drop_last()) + crate::paging::shown(
            requests.last(),
            rows_for(all, requests.last()),
        )
    }
}

proof fn lemma_followed(
    all: Seq<FlowView>,
    key: Seq<char>,
    hours: u32,
    requests: Seq<RequestView>,
    times: Seq<i64>,
    n: int,
) -> (p: int)
    requires
        in_order(all),
        1 <= n <= requests.len(),
        request_valid(requests[0]),
        requests[0].anchor is None,
        follows(all, key, hours, requests, times),
    ensures
        n - 1 <= p <= all.len(),
        request_valid(requests[n - 1]),
        requests[n - 1].direction == FlowPageDirection::Older,
        n > 1 ==> p < all.len(),
        all_shown(all, requests.take(n - 1)) == all.take(p),
        all_shown(all, requests.take(n)) == all.take(
            if p + requests[n - 1].limit < all.len() {
                p + requests[n - 1].limit
            } else {
                all.len() as int
            },
        ),
        (rows_for(all, requests[n - 1]).len() > requests[n - 1].limit) == (p + requests[n
            - 1].limit < all.len()),
    decreases n,
{
    let request = requests[n - 1];
    assert(requests.take(n).drop_last() =~= requests.take(n - 1));
    assert(requests.take(n).last() == request);
    if n == 1 {
        let (p, q) = lemma_page_range(all, request);
        assert(requests.take(0) =~= Seq::<RequestView>::empty());
        assert(all.take(0) =~= Seq::<FlowView>::empty());
        assert(all_shown(all, requests.take(0)) =~= Seq::<FlowView>::empty());
        assert(all_shown(all, requests.take(1)) =~= all.subrange(0, q));
        assert(all.subrange(0, q) =~= all.take(q));
        0
    } else {
        let before = lemma_followed(all, key, hours, requests, times, n - 1);
        let last = requests[n - 2];
        assert(requests[n - 2 + 1] == request);
        let (p, q) = lemma_page_range(all, last);
        let shown = crate::paging::shown(last, rows_for(all, last));
        assert(requests.take(n - 1).drop_last() =~= requests.take(n - 2));
        assert(requests.take(n - 1).last() == last);
        // The pages so far end where the last one does.
        let end = before + last.limit;
        assert(rows_for(all, last).len() > last.limit);
        assert(end < all.len());
        assert(all_shown(all, requests.take(n - 1)) == all.take(before) + shown);
        assert(shown.len() == last.limit);
        assert(shown.last() == all[end - 1]) by {
            assert((all.take(before) + shown)[end - 1] == all.take(end)[end - 1]);
        }
        lemma_anchor_is_apart(all, end - 1);
        let (u, r) = lemma_page_range(all, request);
        if u < end {
            assert(is_newer(order_key(all[end - 1]), order_key(all[u])) == (u > end - 1));
        } else if u > end {
            assert(is_newer(order_key(all[end - 1]), order_key(all[end])) == (end > end - 1));
        }
        assert(all.take(end) + all.subrange(end, r) =~= all.take(r));
        end
    }
}

/// Following the pages from the first one to the one that leads no further shows every flow once,
/// from the newest to the oldest, and there are no more pages than flows (one where there are no
/// flows).
pub proof fn following_pages_shows_every_flow(
    all: Seq<FlowView>,
    key: Seq<char>,
    hours: u32,
    requests: Seq<RequestView>,
    times: Seq<i64>,
)
    requires
        in_order(all),
        requests.len() > 0,
        request_valid(requests[0]),
        requests[0].anchor is None,
        follows(all, key, hours, requests, times),
        crate::paging::page_of(
            key,
            requests.last(),
            rows_for(all, requests.last()),
        ).next_cursor is None,
    ensures
        all_shown(all, requests) == all,
        requests.len() <= all.len() || requests.len() == 1,
{
    let n = requests.len() as int;
    let p = lemma_followed(all, key, hours, requests, times, n);
    let request = requests[n - 1];
    assert(requests.take(n) =~= requests);
    let (u, r) = lemma_page_range(all, request);
    if p + request.limit < all.len() {
        assert(rows_for(all, request).len() > request.limit);
        assert(crate::paging::shown(request, rows_for(all, request)).len() > 0);
    }
    assert(all.take(all.len() as int) =~= all);
}

/// Going on to the next page and back again shows the same page.
pub proof fn paging_back_returns_the_page(
    all: Seq<FlowView>,
    key: Seq<char>,
    hours: u32,
    request: RequestView,
    next: RequestView,
    now_ms: i64,
    back: RequestView,
    then_ms: i64,
)
    requires
        in_order(all),
        request_valid(request),
        crate::paging::page_of(key, request, rows_for(all, request)).next_cursor matches Some(c)
            && crate::paging::continued(key, hours, c, now_ms) == Ok::<
            RequestView,
            crate::paging::QueryFault,
        >(next),
        crate::paging::page_of(key, next, rows_for(all, next)).previous_cursor matches Some(c)
            && crate::paging::continued(key, hours, c, then_ms) == Ok::<
            RequestView,
            crate::paging::QueryFault,
        >(back),
    ensures
        crate::paging::shown(back, rows_for(all, back)) == crate::paging::shown(
            request,
            rows_for(all, request),
        ),
{
    let (p, q) = lemma_page_range(all, request);
    assert(all.subrange(p, q).last() == all[q - 1]);
    lemma_anchor_is_apart(all, q - 1);
    let (u, r) = lemma_page_range(all, next);
    if u < q {
        assert(is_newer(order_key(all[q - 1]), order_key(all[u])) == (u > q - 1));
    } else if u > q {
        assert(is_newer(order_key(all[q - 1]), order_key(all[q])) == (q > q - 1));
    }
    assert(u == q);
    assert(all.subrange(u, r).first() == all[q]);
    lemma_anchor_is_apart(all, q);
    let (v, w) = lemma_page_range(all, back);
    if w < q {
        assert(is_newer(order_key(all[w]), order_key(all[q])) == (w < q));
    } else if w > q {
        assert(is_newer(order_key(all[q]), order_key(all[q])) == (q < q));
    }
    assert(w == q && v == p);
}

/// The list is that of the flows of a device that were seen from a time on, each of them once, from
/// the newest to the oldest.
pub open spec fn is_listing(
    all: Seq<FlowView>,
    stored: Seq<FlowView>,
    mac: Seq<char>,
    since_ms: i64,
) -> bool {
    &&& in_order(all)
    &&& forall|f: FlowView| #[trigger]
        all.contains(f) <==> (stored.contains(f) && f.client_mac == mac && f.last_seen >= since_ms)
}

/// The flow can be named by a cursor: it has an identity, and was not seen in the time to come.
pub open spec fn is_nameable(f: FlowView, now_ms: i64) -> bool {
    f.flow_id.len() > 0 && f.last_seen <= now_ms
}

proof fn lemma_walk(
    all: Seq<FlowView>,
    key: Seq<char>,
    hours: u32,
    requests: Seq<RequestView>,
    now_ms: i64,
    i: int,
)
    requires
        in_order(all),
        forall|j: int|
            0 <= j < all.len() ==> is_nameable(#[trigger] all[j], now_ms) && all[j].last_seen
                >= requests[0].since_ms,
        0 <= i < requests.len(),
        request_valid(requests[0]),
        requests[0].anchor is None,
        requests[0].since_ms == crate::paging::later(
            crate::paging::window_start(now_ms, requests[0].window),
            crate::paging::retention_cutoff(now_ms, hours),
        ),
        follows(all, key, hours, requests, Seq::new(requests.len(), |j: int| now_ms)),
    ensures
        request_valid(requests[i]),
        requests[i].direction == FlowPageDirection::Older,
        requests[i].since_ms == requests[0].since_ms,
        requests[i].window == requests[0].window,
        requests[i].limit == requests[0].limit,
        i > 0 ==> requests[i].continuation,
        match crate::paging::page_of(key, requests[i], rows_for(all, requests[i])).next_cursor {
            Some(c) => crate::paging::continued(key, hours, c, now_ms) is Ok
                && crate::paging::shown(requests[i], rows_for(all, requests[i])).len()
                == requests[i].limit,
            None => true,
        },
    decreases i,
{
    let request = requests[i];
    if i > 0 {
        lemma_walk(all, key, hours, requests, now_ms, i - 1);
        assert(leads_to(all, key, hours, requests[i - 1], requests[i - 1 + 1], now_ms));
    }
    let (p, q) = lemma_page_range(all, request);
    let items = crate::paging::shown(request, rows_for(all, request));
    if crate::paging::page_of(key, request, rows_for(all, request)).next_cursor is Some {
        assert(items.last() == all[q - 1]);
        assert(is_nameable(all[q - 1], now_ms));
    }
}

/// With the clock standing still, the pages of a device that are asked for one after the other,
/// each by the cursor of the one before it, all begin at the same time and hold as many flows as
/// the first one may, but for the last. From each page that is not the last the next one can be
/// asked for, and the first leads to no newer one. From each other page the cursor for newer flows
/// leads back to the page before it. Once a page leads no further, the pages joined are the flows
/// of the device from that time on, each of them once, from the newest to the oldest. For another
/// device each of these cursors is refused.
pub proof fn pages_join_up(
    stored: Seq<FlowView>,
    all: Seq<FlowView>,
    mac: Seq<char>,
    key: Seq<char>,
    other_key: Seq<char>,
    hours: u32,
    window: Option<Seq<char>>,
    limit: Option<usize>,
    requests: Seq<RequestView>,
    now_ms: i64,
)
    requires
        requests.len() > 0,
        crate::paging::initial(hours, window, limit, now_ms) == Ok::<
            RequestView,
            crate::paging::QueryFault,
        >(requests[0]),
        is_listing(all, stored, mac, requests[0].since_ms),
        forall|j: int| 0 <= j < stored.len() ==> is_nameable(#[trigger] stored[j], now_ms),
        follows(all, key, hours, requests, Seq::new(requests.len(), |j: int| now_ms)),
        other_key != key,
    ensures
        forall|i: int|
            0 <= i < requests.len() ==> (#[trigger] requests[i]).since_ms == requests[0].since_ms
                && requests[i].limit == requests[0].limit,
        forall|i: int|
            0 <= i < requests.len() - 1 ==> crate::paging::shown(
                #[trigger] requests[i],
                rows_for(all, requests[i]),
            ).len() == requests[0].limit,
        crate::paging::page_of(
            key,
            requests[0],
            rows_for(all, requests[0]),
        ).previous_cursor is None,
        forall|i: int|
            0 <= i < requests.len() - 1 ==> leads_back(
                all,
                key,
                hours,
                #[trigger] requests[i],
                requests[i + 1],
                now_ms,
            ),
        forall|i: int|
            0 <= i < requests.len() ==> refuses(
                key,
                other_key,
                hours,
                #[trigger] requests[i],
                rows_for(all, requests[i]),
                now_ms,
            ),
        match crate::paging::page_of(
            key,
            requests.last(),
            rows_for(all, requests.last()),
        ).next_cursor {
            Some(c) => crate::paging::continued(key, hours, c, now_ms) is Ok,
            None => all_shown(all, requests) == all,
        },
{
    let times = Seq::new(requests.len(), |j: int| now_ms);
    assert forall|j: int| 0 <= j < all.len() implies is_nameable(#[trigger] all[j], now_ms)
        && all[j].last_seen >= requests[0].since_ms by {
        assert(all.contains(all[j]));
        let k = choose|k: int| 0 <= k < stored.len() && stored[k] == all[j];
        assert(is_nameable(stored[k], now_ms));
    }
    assert forall|i: int| 0 <= i < requests.len() implies (#[trigger] requests[i]).since_ms
        == requests[0].since_ms && requests[i].limit == requests[0].limit by {
        lemma_walk(all, key, hours, requests, now_ms, i);
    }
    assert forall|i: int| 0 <= i < requests.len() - 1 implies crate::paging::shown(
        #[trigger] requests[i],
        rows_for(all, requests[i]),
    ).len() == requests[0].limit && leads_back(
        all,
        key,
        hours,
        requests[i],
        requests[i + 1],
        now_ms,
    ) by {
        lemma_walk(all, key, hours, requests, now_ms, i);
        lemma_walk(all, key, hours, requests, now_ms, i + 1);
        assert(leads_to(all, key, hours, requests[i], requests[i + 1], times[i]));
        let request = requests[i];
        let next = requests[i + 1];
        let (p, q) = lemma_page_range(all, request);
        assert(all.subrange(p, q).last() == all[q - 1]);
        lemma_anchor_is_apart(all, q - 1);
        let (u, r) = lemma_page_range(all, next);
        if u < q {
            assert(is_newer(order_key(all[q - 1]), order_key(all[u])) == (u > q - 1));
        } else if u > q {
            assert(is_newer(order_key(all[q - 1]), order_key(all[q])) == (q > q - 1));
        }
        assert(u == q && q < all.len());
        assert(all.subrange(u, r).first() == all[q]);
        assert(is_nameable(all[q], now_ms));
        let page = crate::paging::page_of(key, next, rows_for(all, next));
        let c = page.previous_cursor->0;
        let back = crate::paging::continued(key, hours, c, now_ms)->Ok_0;
        paging_back_returns_the_page(all, key, hours, request, next, now_ms, back, now_ms);
    }
    let n = requests.len() as int;
    lemma_walk(all, key, hours, requests, now_ms, n - 1);
    if crate::paging::page_of(
        key,
        requests.last(),
        rows_for(all, requests.last()),
    ).next_cursor is None {
        following_pages_shows_every_flow(all, key, hours, requests, times);
    }
}

/// The cursor for newer flows on the second page leads back to the first.
pub open spec fn leads_back(
    all: Seq<FlowView>,
    key: Seq<char>,
    hours: u32,
    request: RequestView,
    next: RequestView,
    now_ms: i64,
) -> bool {
    match crate::paging::page_of(key, next, rows_for(all, next)).previous_cursor {
        Some(c) => match crate::paging::continued(key, hours, c, now_ms) {
            Ok(back) => crate::paging::shown(back, rows_for(all, back)) == crate::paging::shown(
                request,
                rows_for(all, request),
            ) && back.since_ms == request.since_ms,
            Err(_) => false,
        },
        None => false,
    }
}

/// No cursor of the page is taken for another device.
pub open spec fn refuses(
    key: Seq<char>,
    other_key: Seq<char>,
    hours: u32,
    request: RequestView,
    rows: Seq<FlowView>,
    now_ms: i64,
) -> bool {
    let page = crate::paging::page_of(key, request, rows);
    &&& page.next_cursor matches Some(c) ==> crate::paging::continued(
        other_key,
        hours,
        c,
        now_ms,
    ) == Err::<RequestView, crate::paging::QueryFault>(crate::paging::QueryFault::Device)
    &&& page.previous_cursor matches Some(c) ==> crate::paging::continued(
        other_key,
        hours,
        c,
        now_ms,
    ) == Err::<RequestView, crate::paging::QueryFault>(crate::paging::QueryFault::Device)
}

/// A page that was asked for by a cursor can be left the way it was come by, and the first page
/// cannot be left towards newer flows.
pub proof fn pages_lead_back(key: Seq<char>, request: RequestView, rows: Seq<FlowView>)
    requires
        request.direction == FlowPageDirection::Older,
    ensures
        ({
            let page: PageView = crate::paging::page_of(key, request, rows);
            &&& page.previous_cursor is Some <==> request.continuation && page.items.len() > 0
            &&& page.next_cursor is Some <==> rows.len() > request.limit && page.items.len() > 0
        }),
{
}

/// A cursor is only good for the device that it was made for.
pub proof fn cursors_are_bound_to_their_device(
    key: Seq<char>,
    hours: u32,
    c: crate::paging::CursorView,
    now_ms: i64,
)
    requires
        c.device_key != key,
    ensures
        crate::paging::continued(key, hours, c, now_ms) == Err::<
            RequestView,
            crate::paging::QueryFault,
        >(crate::paging::QueryFault::Device),
{
}

/// No page reaches further back than its window and the time for which flows are kept.
pub proof fn pages_stay_in_the_window(
    key: Seq<char>,
    hours: u32,
    window: Option<Seq<char>>,
    limit: Option<usize>,
    cursor: Option<Option<crate::paging::CursorView>>,
    now_ms: i64,
)
    ensures
        crate::paging::page_request(key, hours, window, limit, cursor, now_ms) matches Ok(request)
            ==> {
            &&& request.since_ms >= crate::paging::retention_cutoff(now_ms, hours)
            &&& request.since_ms >= crate::paging::window_start(now_ms, request.window)
            &&& crate::paging::limit_valid(request.limit)
        },
{
}

} // verus!
