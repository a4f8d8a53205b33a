//! Pages of flows, and the cursors that lead from one to the next.
//!
//! A page begins at the latest flow of a window of time, or next to the flow that a cursor names. A
//! cursor is bound to the device and the window that it was made for.
use vstd::prelude::*;
use vstd::string::*;

use crate::crypto::{base64url_decode, base64url_encode, sha256_digest};
use crate::domain::{Flow, FlowPageAnchor, FlowPageDirection};
use crate::num::saturating_sub_i64;
use crate::sql::StorageError;
use crate::text::{str_eq, to_ascii_lowercase, trim};

verus! {

/// How many flows a page holds where no number is given.
pub const DEFAULT_FLOW_PAGE_LIMIT: usize = 50;

/// How many flows a page may hold.
pub const MAX_FLOW_PAGE_LIMIT: usize = 500;

/// The version of the cursors that are made and understood.
pub const FLOW_CURSOR_VERSION: u8 = 1;

/// The window of time that pages show.
#[derive(Debug, Clone, Copy, PartialEq, Eq, Structural)]
pub enum FlowWindow {
    Hours1,
    Hours6,
    Hours24,
}

/// Why a page cannot be shown.
#[derive(Debug)]
pub enum FlowQueryError {
    InvalidWindow,
    InvalidLimit,
    InvalidCursor,
    CursorDeviceMismatch,
    Database(StorageError),
}

impl FlowQueryError {
    /// The text that describes the error.
    pub open spec fn text(self) -> Seq<char> {
        match self {
            FlowQueryError::InvalidWindow => "window must be 1h, 6h, or 24h"@,
            FlowQueryError::InvalidLimit => "limit must be between 1 and 500"@,
            FlowQueryError::InvalidCursor => "invalid flow cursor"@,
            FlowQueryError::CursorDeviceMismatch => "flow cursor belongs to another device"@,
            FlowQueryError::Database(error) => "flow query failed: "@ + error.text(),
        }
    }

    /// Tells whether the request is at fault, not the database.
    pub fn is_bad_request(&self) -> (r: bool)
        ensures
            r == !(self is Database),
    {
        !matches!(self, FlowQueryError::Database(_))
    }

    /// Describes the error.
    pub fn message(&self) -> (r: String)
        ensures
            r@ == self.text(),
    {
        match self {
            FlowQueryError::InvalidWindow => "window must be 1h, 6h, or 24h".to_owned(),
            FlowQueryError::InvalidLimit => "limit must be between 1 and 500".to_owned(),
            FlowQueryError::InvalidCursor => "invalid flow cursor".to_owned(),
            FlowQueryError::CursorDeviceMismatch => {
                "flow cursor belongs to another device".to_owned()
            },
            FlowQueryError::Database(error) => {
                let mut out = "flow query failed: ".to_owned();
                out.append(error.message().as_str());
                out
            },
        }
    }
}

/// The window that a text names; a day where none is given.
pub open spec fn window_of(value: Option<Seq<char>>) -> Option<FlowWindow> {
    let text = match value {
        Some(text) => text,
        None => "24h"@,
    };
    if text == "1h"@ {
        Some(FlowWindow::Hours1)
    } else if text == "6h"@ {
        Some(FlowWindow::Hours6)
    } else if text == "24h"@ {
        Some(FlowWindow::Hours24)
    } else {
        None
    }
}

impl FlowWindow {
    /// The text that names the window.
    pub open spec fn text(self) -> Seq<char> {
        match self {
            FlowWindow::Hours1 => "1h"@,
            FlowWindow::Hours6 => "6h"@,
            FlowWindow::Hours24 => "24h"@,
        }
    }

    /// The length of the window in milliseconds.
    pub open spec fn length_ms(self) -> i64 {
        match self {
            FlowWindow::Hours1 => 3_600_000,
            FlowWindow::Hours6 => 21_600_000,
            FlowWindow::Hours24 => 86_400_000,
        }
    }

    /// Finds the window that a text names.
    pub fn parse(value: Option<&str>) -> (r: Result<Self, FlowQueryError>)
        ensures
            match r {
                Ok(window) => window_of(crate::storage::opt_str_view(value)) == Some(window),
                Err(e) => window_of(crate::storage::opt_str_view(value)) is None
                    && e is InvalidWindow,
            },
    {
        let text = match value {
            Some(text) => text,
            None => "24h",
        };
        if str_eq(text, "1h") {
            Ok(FlowWindow::Hours1)
        } else if str_eq(text, "6h") {
            Ok(FlowWindow::Hours6)
        } else if str_eq(text, "24h") {
            Ok(FlowWindow::Hours24)
        } else {
            Err(FlowQueryError::InvalidWindow)
        }
    }

    /// The text that names the window.
    pub fn as_str(self) -> (r: &'static str)
        ensures
            r@ == self.text(),
    {
        match self {
            FlowWindow::Hours1 => "1h",
            FlowWindow::Hours6 => "6h",
            FlowWindow::Hours24 => "24h",
        }
    }

    /// The length of the window in milliseconds.
    pub fn duration_ms(self) -> (r: i64)
        ensures
            r == self.length_ms(),
    {
        match self {
            FlowWindow::Hours1 => 3_600_000,
            FlowWindow::Hours6 => 21_600_000,
            FlowWindow::Hours24 => 86_400_000,
        }
    }
}

/// The name of a window is read back as that window.
pub proof fn window_names_read_back(window: FlowWindow)
    ensures
        window_of(Some(window.text())) == Some(window),
{
    reveal_strlit("1h");
    reveal_strlit("6h");
    reveal_strlit("24h");
    assert("1h"@[0] == '1' && "6h"@[0] == '6' && "24h"@[0] == '2');
}

/// Which way a cursor leads.
#[derive(Debug, Clone, Copy, PartialEq, Eq, Structural)]
pub enum CursorDirection {
    Older,
    Newer,
}

impl CursorDirection {
    /// The way that a page goes.
    pub open spec fn way(self) -> FlowPageDirection {
        match self {
            CursorDirection::Older => FlowPageDirection::Older,
            CursorDirection::Newer => FlowPageDirection::Newer,
        }
    }

    fn page_direction(self) -> (r: FlowPageDirection)
        ensures
            r == self.way(),
    {
        match self {
            CursorDirection::Older => FlowPageDirection::Older,
            CursorDirection::Newer => FlowPageDirection::Newer,
        }
    }
}

/// What a cursor holds.
#[derive(Debug, PartialEq, Eq)]
pub struct FlowCursorPayload {
    pub version: u8,
    pub device_key: String,
    pub window: FlowWindow,
    pub since_ms: i64,
    pub limit: usize,
    pub direction: CursorDirection,
    pub last_seen: i64,
    pub flow_id: String,
}

/// A cursor as a mathematical value.
#[verifier::ext_equal]
pub struct CursorView {
    pub version: u8,
    pub device_key: Seq<char>,
    pub window: FlowWindow,
    pub since_ms: i64,
    pub limit: usize,
    pub direction: CursorDirection,
    pub last_seen: i64,
    pub flow_id: Seq<char>,
}

impl View for FlowCursorPayload {
    type V = CursorView;

    open spec fn view(&self) -> CursorView {
        CursorView {
            version: self.version,
            device_key: self.device_key@,
            window: self.window,
            since_ms: self.since_ms,
            limit: self.limit,
            direction: self.direction,
            last_seen: self.last_seen,
            flow_id: self.flow_id@,
        }
    }
}

/// The view of an optional cursor.
pub open spec fn cursor_view(c: Option<FlowCursorPayload>) -> Option<CursorView> {
    match c {
        Some(c) => Some(c@),
        None => None,
    }
}

/// A page of flows.
#[derive(Debug, PartialEq, Eq)]
pub struct FlowPage {
    pub items: Vec<Flow>,
    pub next_cursor: Option<FlowCursorPayload>,
    pub previous_cursor: Option<FlowCursorPayload>,
    pub window: String,
    pub since_ms: i64,
    pub limit: usize,
}

/// A page as a mathematical value.
#[verifier::ext_equal]
pub struct PageView {
    pub items: Seq<crate::domain::FlowView>,
    pub next_cursor: Option<CursorView>,
    pub previous_cursor: Option<CursorView>,
    pub window: Seq<char>,
    pub since_ms: i64,
    pub limit: usize,
}

impl View for FlowPage {
    type V = PageView;

    open spec fn view(&self) -> PageView {
        PageView {
            items: crate::dns::flow_views(self.items@),
            next_cursor: cursor_view(self.next_cursor),
            previous_cursor: cursor_view(self.previous_cursor),
            window: self.window@,
            since_ms: self.since_ms,
            limit: self.limit,
        }
    }
}

/// The limit is in the range that pages may have.
pub open spec fn limit_valid(limit: usize) -> bool {
    1 <= limit <= MAX_FLOW_PAGE_LIMIT
}

/// Checks the limit of a page.
pub fn validate_flow_limit(limit: usize) -> (r: Result<(), FlowQueryError>)
    ensures
        match r {
            Ok(_) => limit_valid(limit),
            Err(e) => !limit_valid(limit) && e is InvalidLimit,
        },
{
    if 1 <= limit && limit <= MAX_FLOW_PAGE_LIMIT {
        Ok(())
    } else {
        Err(FlowQueryError::InvalidLimit)
    }
}

/// The key by which cursors name a device: a digest of its MAC address, without regard to case and
/// surrounding blanks.
pub open spec fn device_key_of(mac: Seq<char>) -> Seq<char> {
    crate::crypto::base64url(
        crate::crypto::sha256(
            vstd::utf8::encode_utf8(crate::text::lower_spec(crate::text::trim_spec(mac))),
        ),
    )
}

/// Makes the key by which cursors name a device.
pub fn device_key(mac_address: &str) -> (r: String)
    ensures
        r@ == device_key_of(mac_address@),
{
    let normalized = to_ascii_lowercase(trim(mac_address).as_str());
    let digest = sha256_digest(normalized.as_str().as_bytes());
    base64url_encode(digest.as_slice())
}

/// The same device has the same key, however its address is written.
pub proof fn device_key_ignores_case_and_blanks(a: Seq<char>, b: Seq<char>)
    requires
        crate::text::lower_spec(crate::text::trim_spec(a)) == crate::text::lower_spec(
            crate::text::trim_spec(b),
        ),
    ensures
        device_key_of(a) == device_key_of(b),
{
}

/// Writes the bytes of a cursor as text that can stand in a URL.
pub fn cursor_text(payload: &Vec<u8>) -> (r: String)
    requires
        payload@.len() * 2 <= isize::MAX,
    ensures
        r@ == crate::crypto::base64url(payload@),
        crate::crypto::base64url_bytes(r@) == Some(payload@),
{
    base64url_encode(payload.as_slice())
}

/// Reads the bytes of a cursor from its text.
pub fn cursor_bytes(cursor: &str) -> (r: Result<Vec<u8>, FlowQueryError>)
    ensures
        match r {
            Ok(bytes) => crate::crypto::base64url_bytes(cursor@) == Some(bytes@),
            Err(e) => crate::crypto::base64url_bytes(cursor@) is None && e is InvalidCursor,
        },
{
    match base64url_decode(cursor) {
        Ok(bytes) => Ok(bytes),
        Err(_) => Err(FlowQueryError::InvalidCursor),
    }
}

/// The cursor that leads on from a flow.
pub open spec fn cursor_at(
    key: Seq<char>,
    window: FlowWindow,
    since_ms: i64,
    limit: usize,
    direction: CursorDirection,
    flow: crate::domain::FlowView,
) -> CursorView {
    CursorView {
        version: FLOW_CURSOR_VERSION,
        device_key: key,
        window,
        since_ms,
        limit,
        direction,
        last_seen: flow.last_seen,
        flow_id: flow.flow_id,
    }
}

/// Makes the cursor that leads on from a flow.
pub fn encode_flow_cursor(
    mac_address: &str,
    window: FlowWindow,
    since_ms: i64,
    limit: usize,
    direction: CursorDirection,
    flow: &Flow,
) -> (r: FlowCursorPayload)
    ensures
        r@ == cursor_at(
            device_key_of(mac_address@),
            window,
            since_ms,
            limit,
            direction,
            flow@,
        ),
{
    FlowCursorPayload {
        version: FLOW_CURSOR_VERSION,
        device_key: device_key(mac_address),
        window,
        since_ms,
        limit,
        direction,
        last_seen: flow.last_seen,
        flow_id: flow.flow_id.clone(),
    }
}

/// What is asked of the repository for a page.
#[derive(Debug)]
pub struct PageRequest {
    pub window: FlowWindow,
    pub since_ms: i64,
    pub limit: usize,
    pub direction: FlowPageDirection,
    pub anchor: Option<FlowPageAnchor>,
    /// The page was asked for by a cursor.
    pub continuation: bool,
}

/// A request as a mathematical value.
#[verifier::ext_equal]
pub struct RequestView {
    pub window: FlowWindow,
    pub since_ms: i64,
    pub limit: usize,
    pub direction: FlowPageDirection,
    pub anchor: Option<(i64, Seq<char>)>,
    pub continuation: bool,
}

impl View for PageRequest {
    type V = RequestView;

    open spec fn view(&self) -> RequestView {
        RequestView {
            window: self.window,
            since_ms: self.since_ms,
            limit: self.limit,
            direction: self.direction,
            anchor: match self.anchor {
                Some(a) => Some((a.last_seen, a.flow_id@)),
                None => None,
            },
            continuation: self.continuation,
        }
    }
}

/// What is wrong with a request.
pub enum QueryFault {
    Window,
    Limit,
    Cursor,
    Device,
}

/// The error says that this is wrong.
pub open spec fn reports(e: FlowQueryError, fault: QueryFault) -> bool {
    match fault {
        QueryFault::Window => e is InvalidWindow,
        QueryFault::Limit => e is InvalidLimit,
        QueryFault::Cursor => e is InvalidCursor,
        QueryFault::Device => e is CursorDeviceMismatch,
    }
}

/// The later of two times.
pub open spec fn later(a: i64, b: i64) -> i64 {
    if a >= b {
        a
    } else {
        b
    }
}

/// The time from which flows are kept.
pub open spec fn retention_cutoff(now_ms: i64, hours: u32) -> i64 {
    crate::num::clamp_i64(now_ms - hours * 3_600_000)
}

/// The time at which a window begins.
pub open spec fn window_start(now_ms: i64, window: FlowWindow) -> i64 {
    crate::num::clamp_i64(now_ms - window.length_ms())
}

/// The request that a cursor makes. A cursor is refused where it is of another device or version,
/// or names a time that it cannot have been made for.
pub open spec fn continued(
    key: Seq<char>,
    hours: u32,
    c: CursorView,
    now_ms: i64,
) -> Result<RequestView, QueryFault> {
    if c.device_key != key {
        Err(QueryFault::Device)
    } else if c.version != FLOW_CURSOR_VERSION {
        Err(QueryFault::Cursor)
    } else if !limit_valid(c.limit) {
        Err(QueryFault::Limit)
    } else if c.flow_id.len() == 0 || c.since_ms > now_ms || c.last_seen > now_ms || c.last_seen
        < c.since_ms {
        Err(QueryFault::Cursor)
    } else {
        Ok(
            RequestView {
                window: c.window,
                since_ms: later(
                    later(c.since_ms, retention_cutoff(now_ms, hours)),
                    window_start(now_ms, c.window),
                ),
                limit: c.limit,
                direction: c.direction.way(),
                anchor: Some((c.last_seen, c.flow_id)),
                continuation: true,
            },
        )
    }
}

/// The request that is made without a cursor.
pub open spec fn initial(
    hours: u32,
    window: Option<Seq<char>>,
    limit: Option<usize>,
    now_ms: i64,
) -> Result<RequestView, QueryFault> {
    let size = match limit {
        Some(limit) => limit,
        None => DEFAULT_FLOW_PAGE_LIMIT,
    };
    match window_of(window) {
        None => Err(QueryFault::Window),
        Some(w) => if !limit_valid(size) {
            Err(QueryFault::Limit)
        } else {
            Ok(
                RequestView {
                    window: w,
                    since_ms: later(window_start(now_ms, w), retention_cutoff(now_ms, hours)),
                    limit: size,
                    direction: FlowPageDirection::Older,
                    anchor: None,
                    continuation: false,
                },
            )
        },
    }
}

/// The request for a page. A cursor stands alone: with a window or a limit beside it, and where it
/// could not be read, it is refused.
pub open spec fn page_request(
    key: Seq<char>,
    hours: u32,
    window: Option<Seq<char>>,
    limit: Option<usize>,
    cursor: Option<Option<CursorView>>,
    now_ms: i64,
) -> Result<RequestView, QueryFault> {
    match cursor {
        None => initial(hours, window, limit, now_ms),
        Some(None) => Err(QueryFault::Cursor),
        Some(Some(c)) => if window is Some || limit is Some {
            Err(QueryFault::Cursor)
        } else {
            continued(key, hours, c, now_ms)
        },
    }
}

/// The view of a cursor that was given, and may have been unreadable.
pub open spec fn given_view(c: Option<Option<FlowCursorPayload>>) -> Option<Option<CursorView>> {
    match c {
        None => None,
        Some(c) => Some(cursor_view(c)),
    }
}

fn max_i64(a: i64, b: i64) -> (r: i64)
    ensures
        r == later(a, b),
{
    if a >= b {
        a
    } else {
        b
    }
}

/// Decides what is asked of the repository for a page.
pub fn request_page(
    mac_address: &str,
    flow_retention_hours: u32,
    window: Option<&str>,
    limit: Option<usize>,
    cursor: Option<Option<FlowCursorPayload>>,
    now_ms: i64,
) -> (r: Result<PageRequest, FlowQueryError>)
    ensures
        match (
            r,
            page_request(
                device_key_of(mac_address@),
                flow_retention_hours,
                crate::storage::opt_str_view(window),
                limit,
                given_view(cursor),
                now_ms,
            ),
        ) {
            (Ok(request), Ok(v)) => request@ == v,
            (Err(e), Err(fault)) => reports(e, fault),
            _ => false,
        },
{
    let kept_since: i64 = saturating_sub_i64(now_ms, flow_retention_hours as i64 * 3_600_000);
    match cursor {
        Some(cursor) => {
            if window.is_some() || limit.is_some() {
                return Err(FlowQueryError::InvalidCursor);
            }
            let payload = match cursor {
                Some(payload) => payload,
                None => {
                    return Err(FlowQueryError::InvalidCursor);
                },
            };
            let expected_device_key = device_key(mac_address);
            if !str_eq(payload.device_key.as_str(), expected_device_key.as_str()) {
                return Err(FlowQueryError::CursorDeviceMismatch);
            }
            if payload.version != FLOW_CURSOR_VERSION {
                return Err(FlowQueryError::InvalidCursor);
            }
            if let Err(e) = validate_flow_limit(payload.limit) {
                return Err(e);
            }
            if crate::domain::is_blank(&payload.flow_id) || payload.since_ms > now_ms
                || payload.last_seen > now_ms || payload.last_seen < payload.since_ms {
                return Err(FlowQueryError::InvalidCursor);
            }
            let window_cutoff: i64 = saturating_sub_i64(now_ms, payload.window.duration_ms());
            Ok(
                PageRequest {
                    window: payload.window,
                    since_ms: max_i64(max_i64(payload.since_ms, kept_since), window_cutoff),
                    limit: payload.limit,
                    direction: payload.direction.page_direction(),
                    anchor: Some(
                        FlowPageAnchor { last_seen: payload.last_seen, flow_id: payload.flow_id },
                    ),
                    continuation: true,
                },
            )
        },
        None => {
            let window = match FlowWindow::parse(window) {
                Ok(window) => window,
                Err(e) => {
                    return Err(e);
                },
            };
            let limit: usize = match limit {
                Some(limit) => limit,
                None => DEFAULT_FLOW_PAGE_LIMIT,
            };
            if let Err(e) = validate_flow_limit(limit) {
                return Err(e);
            }
            Ok(
                PageRequest {
                    window,
                    since_ms: max_i64(
                        saturating_sub_i64(now_ms, window.duration_ms()),
                        kept_since,
                    ),
                    limit,
                    direction: FlowPageDirection::Older,
                    anchor: None,
                    continuation: false,
                },
            )
        },
    }
}

/// The flows that a page shows of the rows that were read for it. One row more than the page holds
/// is read, to know whether there are more; the rows towards newer flows come nearest first.
pub open spec fn shown(
    request: RequestView,
    rows: Seq<crate::domain::FlowView>,
) -> Seq<crate::domain::FlowView> {
    let kept = if rows.len() > request.limit {
        rows.take(request.limit as int)
    } else {
        rows
    };
    if request.direction == FlowPageDirection::Newer {
        kept.reverse()
    } else {
        kept
    }
}

/// The page that is made of the rows that were read for it.
pub open spec fn page_of(
    key: Seq<char>,
    request: RequestView,
    rows: Seq<crate::domain::FlowView>,
) -> PageView {
    let items = shown(request, rows);
    let has_more = rows.len() > request.limit;
    let newer = request.direction == FlowPageDirection::Newer;
    PageView {
        items,
        next_cursor: if items.len() > 0 && (has_more || newer) {
            Some(
                cursor_at(
                    key,
                    request.window,
                    request.since_ms,
                    request.limit,
                    CursorDirection::Older,
                    items.last(),
                ),
            )
        } else {
            None
        },
        previous_cursor: if items.len() > 0 && ((request.continuation && !newer) || (newer
            && has_more)) {
            Some(
                cursor_at(
                    key,
                    request.window,
                    request.since_ms,
                    request.limit,
                    CursorDirection::Newer,
                    items.first(),
                ),
            )
        } else {
            None
        },
        window: request.window.text(),
        since_ms: request.since_ms,
        limit: request.limit,
    }
}

/// Puts a list in the opposite order.
fn reversed(flows: Vec<Flow>) -> (r: Vec<Flow>)
    ensures
        r@ == flows@.reverse(),
{
    let mut rest = flows;
    let mut out: Vec<Flow> = Vec::new();
    while rest.len() > 0
        invariant
            rest@.len() + out@.len() == flows@.len(),
            forall|k: int| 0 <= k < rest@.len() ==> rest@[k] == flows@[k],
            forall|k: int| 0 <= k < out@.len() ==> out@[k] == flows@[flows@.len() - 1 - k],
        decreases rest@.len(),
    {
        match rest.pop() {
            Some(flow) => {
                out.push(flow);
            },
            None => {},
        }
    }
    proof {
        assert(out@ =~= flows@.reverse());
    }
    out
}

/// Makes a page of the rows that were read for it.
pub fn finish_page(mac_address: &str, request: &PageRequest, rows: Vec<Flow>) -> (r: FlowPage)
    ensures
        r@ == page_of(device_key_of(mac_address@), request@, crate::dns::flow_views(rows@)),
{
    let ghost views = crate::dns::flow_views(rows@);
    let has_more = rows.len() > request.limit;
    let mut items = rows;
    if has_more {
        items.truncate(request.limit);
    }
    proof {
        assert(has_more ==> crate::dns::flow_views(items@) =~= views.take(request.limit as int));
    }
    let newer = matches!(request.direction, FlowPageDirection::Newer);
    if newer {
        let ghost before = items@;
        items = reversed(items);
        proof {
            assert(crate::dns::flow_views(items@) =~= crate::dns::flow_views(before).reverse());
        }
    }
    let count: usize = items.len();
    let next_cursor = if count > 0 && (has_more || newer) {
        Some(
            encode_flow_cursor(
                mac_address,
                request.window,
                request.since_ms,
                request.limit,
                CursorDirection::Older,
                &items[count - 1],
            ),
        )
    } else {
        None
    };
    let more_before = (request.continuation && !newer) || (newer && has_more);
    let previous_cursor = if count > 0 && more_before {
        Some(
            encode_flow_cursor(
                mac_address,
                request.window,
                request.since_ms,
                request.limit,
                CursorDirection::Newer,
                &items[0],
            ),
        )
    } else {
        None
    };
    FlowPage {
        items,
        next_cursor,
        previous_cursor,
        window: request.window.as_str().to_owned(),
        since_ms: request.since_ms,
        limit: request.limit,
    }
}

} // verus!
