//! Which flows a request asks for, and what a page of them leads on to.
use vstd::prelude::*;

use crate::domain::{FlowPageDirection, FlowView};
use crate::paging::{CursorView, FlowQueryError, FlowWindow, QueryFault, RequestView};

verus! {

/// The hours of a window.
pub open spec fn hours_of(window: FlowWindow) -> int {
    match window {
        FlowWindow::Hours1 => 1,
        FlowWindow::Hours6 => 6,
        FlowWindow::Hours24 => 24,
    }
}

/// Windows are named by their hours; a day is meant where none is named, and nothing else is a
/// name.
pub proof fn windows_are_named_by_their_hours(value: Option<Seq<char>>, window: FlowWindow)
    ensures
        FlowWindow::Hours1.text() == "1h"@,
        FlowWindow::Hours6.text() == "6h"@,
        FlowWindow::Hours24.text() == "24h"@,
        window.length_ms() == hours_of(window) * 60 * 60 * 1_000,
        value is None ==> crate::paging::window_of(value) == Some(FlowWindow::Hours24),
        value is Some ==> (crate::paging::window_of(value) == Some(window) <==> value->0
            == window.text()),
        value is Some ==> (crate::paging::window_of(value) is None <==> value->0 != "1h"@
            && value->0 != "6h"@ && value->0 != "24h"@),
{
    reveal_strlit("1h");
    reveal_strlit("6h");
    reveal_strlit("24h");
    assert("1h"@[0] != "6h"@[0]);
    assert("24h"@[0] != "6h"@[0]);
    assert("24h"@[0] != "1h"@[0]);
}

/// The time is the beginning of a stretch of hours that ends now, unless there is no such time.
pub open spec fn reaches_back(since: i64, now_ms: i64, hours: int) -> bool {
    since == now_ms - hours * 60 * 60 * 1_000 || (since == i64::MIN && now_ms - hours * 60 * 60
        * 1_000 < i64::MIN)
}

/// Windows and the time for which flows are kept reach back by their hours.
pub proof fn windows_reach_back_by_their_hours(now_ms: i64, hours: u32, window: FlowWindow)
    ensures
        reaches_back(crate::paging::window_start(now_ms, window), now_ms, hours_of(window)),
        reaches_back(crate::paging::retention_cutoff(now_ms, hours), now_ms, hours as int),
        ({
            let start = crate::service::overview_start(now_ms, hours);
            let least = if hours < 24 {
                hours as int
            } else {
                24int
            };
            reaches_back(start, now_ms, least)
        }),
{
}

/// The time is the latest of some times.
pub open spec fn is_latest(r: i64, times: Seq<i64>) -> bool {
    times.contains(r) && forall|i: int| 0 <= i < times.len() ==> #[trigger] times[i] <= r
}

/// A first page has the window that is named, 50 flows where nothing else is asked for, never none
/// and never more than 500, and begins with the newest flow that is kept.
pub proof fn first_pages_are_as_asked_for(
    hours: u32,
    window: Option<Seq<char>>,
    limit: Option<usize>,
    now_ms: i64,
)
    ensures
        ({
            let r = crate::paging::initial(hours, window, limit, now_ms);
            let size: int = match limit {
                Some(n) => n as int,
                None => 50,
            };
            let w = crate::paging::window_of(window);
            &&& r == Err::<RequestView, QueryFault>(QueryFault::Window) <==> w is None
            &&& r == Err::<RequestView, QueryFault>(QueryFault::Limit) <==> w is Some && !(1 <= size
                <= 500)
            &&& r is Ok <==> w is Some && 1 <= size <= 500
            &&& r is Ok ==> {
                let q = r->Ok_0;
                &&& Some(q.window) == w
                &&& q.limit == size
                &&& q.direction is Older
                &&& q.anchor is None
                &&& !q.continuation
                &&& is_latest(
                    q.since_ms,
                    seq![
                        crate::paging::window_start(now_ms, q.window),
                        crate::paging::retention_cutoff(now_ms, hours),
                    ],
                )
            }
        }),
{
    let r = crate::paging::initial(hours, window, limit, now_ms);
    if r is Ok {
        let q = r->Ok_0;
        let times = seq![
            crate::paging::window_start(now_ms, q.window),
            crate::paging::retention_cutoff(now_ms, hours),
        ];
        assert(times[0] == q.since_ms || times[1] == q.since_ms);
    }
}

/// A cursor is good for the device for which it was made, in the first version, with a limit from 1
/// to 500, at a flow that lies between the beginning of its list and now.
pub open spec fn is_good(c: CursorView, key: Seq<char>, now_ms: i64) -> bool {
    &&& c.device_key == key
    &&& c.version == 1
    &&& 1 <= c.limit <= 500
    &&& c.flow_id.len() > 0
    &&& c.since_ms <= c.last_seen <= now_ms
}

/// A good cursor, and no other, leads to the page next to its flow, on the side that it names, with
/// the window and limit of the first page, and no further back than that page or what is kept.
pub proof fn cursors_lead_on(key: Seq<char>, hours: u32, c: CursorView, now_ms: i64)
    ensures
        ({
            let r = crate::paging::continued(key, hours, c, now_ms);
            &&& r is Ok <==> is_good(c, key, now_ms)
            &&& r == Err::<RequestView, QueryFault>(QueryFault::Device) <==> c.device_key != key
            &&& r == Err::<RequestView, QueryFault>(QueryFault::Limit) <==> c.device_key == key
                && c.version == 1 && !(1 <= c.limit <= 500)
            &&& !(r == Err::<RequestView, QueryFault>(QueryFault::Window))
            &&& r is Ok ==> {
                let q = r->Ok_0;
                &&& q.window == c.window
                &&& q.limit == c.limit
                &&& q.direction is Older <==> c.direction is Older
                &&& q.direction is Newer <==> c.direction is Newer
                &&& q.anchor == Some((c.last_seen, c.flow_id))
                &&& q.continuation
                &&& is_latest(
                    q.since_ms,
                    seq![
                        c.since_ms,
                        crate::paging::window_start(now_ms, c.window),
                        crate::paging::retention_cutoff(now_ms, hours),
                    ],
                )
            }
        }),
{
    let r = crate::paging::continued(key, hours, c, now_ms);
    if r is Ok {
        let q = r->Ok_0;
        let times = seq![
            c.since_ms,
            crate::paging::window_start(now_ms, c.window),
            crate::paging::retention_cutoff(now_ms, hours),
        ];
        assert(times[0] == q.since_ms || times[1] == q.since_ms || times[2] == q.since_ms);
    }
}

/// A request without a cursor asks for a first page. One with a cursor may name nothing else, and
/// one whose cursor cannot be read is refused.
pub proof fn cursors_stand_alone(
    key: Seq<char>,
    hours: u32,
    window: Option<Seq<char>>,
    limit: Option<usize>,
    c: CursorView,
    now_ms: i64,
)
    ensures
        crate::paging::page_request(key, hours, window, limit, None, now_ms)
            == crate::paging::initial(hours, window, limit, now_ms),
        crate::paging::page_request(key, hours, window, limit, Some(None), now_ms) == Err::<
            RequestView,
            QueryFault,
        >(QueryFault::Cursor),
        window is Some || limit is Some ==> crate::paging::page_request(
            key,
            hours,
            window,
            limit,
            Some(Some(c)),
            now_ms,
        ) == Err::<RequestView, QueryFault>(QueryFault::Cursor),
        crate::paging::page_request(key, hours, None, None, Some(Some(c)), now_ms)
            == crate::paging::continued(key, hours, c, now_ms),
{
}

/// The page shows the rows that it got, up to its limit: those of a page towards older flows in
/// their order, those of a page towards newer ones in the other.
pub proof fn pages_show_their_rows(
    key: Seq<char>,
    request: RequestView,
    rows: Seq<FlowView>,
    k: int,
)
    ensures
        ({
            let page = crate::paging::page_of(key, request, rows);
            let n: int = if rows.len() > request.limit {
                request.limit as int
            } else {
                rows.len() as int
            };
            &&& page.items.len() == n
            &&& 0 <= k < n ==> page.items[k] == rows[
                if request.direction is Newer {
                    n - 1 - k
                } else {
                    k
                }]
            &&& page.since_ms == request.since_ms
            &&& page.limit == request.limit
            &&& page.window == request.window.text()
        }),
{
}

/// The cursor is the one that goes on from a flow.
pub open spec fn goes_on(
    c: CursorView,
    key: Seq<char>,
    request: RequestView,
    flow: FlowView,
    older: bool,
) -> bool {
    &&& c.version == 1
    &&& c.device_key == key
    &&& c.window == request.window
    &&& c.since_ms == request.since_ms
    &&& c.limit == request.limit
    &&& c.direction is Older <==> older
    &&& c.last_seen == flow.last_seen
    &&& c.flow_id == flow.flow_id
}

/// A page with flows leads on to older flows, from its last one, where more rows came than it shows
/// or where it was reached from older ones. It leads back to newer flows, from its first one, where
/// it was reached by a cursor from newer ones or where more rows came than it shows.
pub proof fn pages_lead_on(key: Seq<char>, request: RequestView, rows: Seq<FlowView>)
    ensures
        ({
            let page = crate::paging::page_of(key, request, rows);
            let more = rows.len() > request.limit;
            &&& page.items.len() == 0 ==> page.next_cursor is None && page.previous_cursor is None
            &&& page.items.len() > 0 && request.direction is Older ==> {
                &&& page.next_cursor is Some <==> more
                &&& page.previous_cursor is Some <==> request.continuation
            }
            &&& page.items.len() > 0 && request.direction is Newer ==> {
                &&& page.next_cursor is Some
                &&& page.previous_cursor is Some <==> more
            }
            &&& page.next_cursor is Some ==> goes_on(
                page.next_cursor->0,
                key,
                request,
                page.items.last(),
                true,
            )
            &&& page.previous_cursor is Some ==> goes_on(
                page.previous_cursor->0,
                key,
                request,
                page.items[0],
                false,
            )
        }),
{
}

/// What is wrong with a request is told.
pub proof fn faults_are_told(e: FlowQueryError)
    ensures
        e is InvalidWindow ==> e.text() == "window must be 1h, 6h, or 24h"@,
        e is InvalidLimit ==> e.text() == "limit must be between 1 and 500"@,
        e is InvalidCursor ==> e.text() == "invalid flow cursor"@,
        e is CursorDeviceMismatch ==> e.text() == "flow cursor belongs to another device"@,
        e matches FlowQueryError::Database(d) ==> e.text() == "flow query failed: "@ + d.text(),
        crate::paging::reports(e, QueryFault::Window) <==> e is InvalidWindow,
        crate::paging::reports(e, QueryFault::Limit) <==> e is InvalidLimit,
        crate::paging::reports(e, QueryFault::Cursor) <==> e is InvalidCursor,
        crate::paging::reports(e, QueryFault::Device) <==> e is CursorDeviceMismatch,
{
}

/// The command that reads a page asks for the flows of the device from a time on: the newest ones,
/// or those on one side of the anchor, and no more than the limit.
pub proof fn pages_are_read_by_their_command(
    mac: Seq<char>,
    since_ms: i64,
    anchor: Option<(i64, Seq<char>)>,
    direction: FlowPageDirection,
    limit: usize,
)
    ensures
        ({
            let c = crate::sqlite::flow_page(mac, since_ms, anchor, direction, limit);
            &&& c.one_row is None
            &&& c.params[0] == crate::sql::SqlView::Text(mac)
            &&& c.params[1] == crate::sql::SqlView::Integer(since_ms)
            &&& limit <= i64::MAX ==> c.params.last() == crate::sql::SqlView::Integer(limit as i64)
            &&& limit > i64::MAX ==> c.params.last() == crate::sql::SqlView::Integer(i64::MAX)
            &&& anchor is None ==> c.sql == crate::sqlite::SELECT_FLOWS@ && c.params.len() == 3
            &&& anchor is Some ==> {
                &&& c.params.len() == 5
                &&& c.params[2] == crate::sql::SqlView::Integer((anchor->0).0)
                &&& c.params[3] == crate::sql::SqlView::Text((anchor->0).1)
                &&& direction is Older ==> c.sql == crate::sqlite::SELECT_OLDER_FLOWS@
                &&& direction is Newer ==> c.sql == crate::sqlite::SELECT_NEWER_FLOWS@
            }
        }),
{
}

} // verus!
