//! What is kept in which column: rows are read as they were written.
use vstd::prelude::*;

use crate::domain::{
    AttributionView, ConnectionState, DomainConfidence, DomainSource, FlowDirection, FlowView,
};
use crate::sql::{ErrorView, SqlView, StorageError};
use crate::storage::{ContributionView, StatementView};

verus! {

/// A text, or nothing.
pub open spec fn text_or_nothing(v: SqlView, s: Option<Seq<char>>) -> bool {
    match s {
        Some(t) => v == SqlView::Text(t),
        None => v is Null,
    }
}

/// A number, or nothing.
pub open spec fn number_or_nothing(v: SqlView, n: Option<int>) -> bool {
    match n {
        Some(i) => v is Integer && v->Integer_0 == i,
        None => v is Null,
    }
}

/// The port as a number.
pub open spec fn port(p: Option<u16>) -> Option<int> {
    match p {
        Some(n) => Some(n as int),
        None => None,
    }
}

/// The time as a number.
pub open spec fn time(t: Option<i64>) -> Option<int> {
    match t {
        Some(n) => Some(n as int),
        None => None,
    }
}

/// Five columns, from the one at `i` on, hold an attribution; without one they hold nothing.
pub open spec fn holds_attribution(
    row: Seq<SqlView>,
    i: int,
    a: Option<AttributionView>,
) -> bool {
    match a {
        Some(x) => {
            &&& row[i] == SqlView::Text(x.domain)
            &&& row[i + 1] == SqlView::Text(x.source.text())
            &&& row[i + 2] == SqlView::Text(x.confidence.text())
            &&& row[i + 3] == SqlView::Integer(x.associated_at)
            &&& number_or_nothing(row[i + 4], time(x.expires_at))
        },
        None => row[i] is Null && row[i + 1] is Null && row[i + 2] is Null && row[i + 3] is Null
            && row[i + 4] is Null,
    }
}

/// The columns of a row of flows, in the order of the table.
pub open spec fn holds_flow(row: Seq<SqlView>, f: FlowView) -> bool {
    &&& row.len() == 25
    &&& row[0] == SqlView::Text(f.flow_id)
    &&& row[1] == SqlView::Integer(f.first_seen)
    &&& row[2] == SqlView::Integer(f.last_seen)
    &&& row[3] == SqlView::Text(f.protocol)
    &&& row[4] == SqlView::Text(f.direction.text())
    &&& row[5] == SqlView::Text(f.lan_interface)
    &&& row[6] == SqlView::Text(f.wan_interface)
    &&& row[7] == SqlView::Text(f.client_mac)
    &&& row[8] == SqlView::Text(f.client_ip)
    &&& number_or_nothing(row[9], Some(f.client_port as int))
    &&& row[10] == SqlView::Text(f.destination_ip)
    &&& number_or_nothing(row[11], Some(f.destination_port as int))
    &&& text_or_nothing(row[12], f.nat_source_ip)
    &&& number_or_nothing(row[13], port(f.nat_source_port))
    &&& text_or_nothing(row[14], f.nat_destination_ip)
    &&& number_or_nothing(row[15], port(f.nat_destination_port))
    &&& number_or_nothing(row[16], Some(f.upload_bytes as int))
    &&& number_or_nothing(row[17], Some(f.download_bytes as int))
    &&& number_or_nothing(row[18], Some(f.packet_count as int))
    &&& holds_attribution(row, 19, f.domain)
    &&& row[24] == SqlView::Text(f.connection_state.text())
}

/// A flow whose counters can be stored is written with each part of it in its own column.
pub proof fn flows_are_written_by_column(f: FlowView)
    requires
        f.upload_bytes <= i64::MAX,
        f.download_bytes <= i64::MAX,
        f.packet_count <= i64::MAX,
    ensures
        holds_flow(crate::sqlite::flow_row(f), f),
{
    let row = crate::sqlite::flow_row(f);
    let a = crate::sqlite::attribution_row(f.domain);
    assert(a.len() == 5);
    assert(row.len() == 25);
    assert(row[19] == a[0] && row[20] == a[1] && row[21] == a[2] && row[22] == a[3] && row[23]
        == a[4]);
}

proof fn lemma_names(d: FlowDirection, s: DomainSource, c: DomainConfidence, n: ConnectionState)
    ensures
        FlowDirection::from_text(d.text()) == Some(d),
        DomainSource::from_text(s.text()) == Some(s),
        DomainConfidence::from_text(c.text()) == Some(c),
        ConnectionState::from_text(n.text()) == Some(n),
{
    reveal_strlit("upload");
    reveal_strlit("download");
    reveal_strlit("bidirectional");
    reveal_strlit("new");
    reveal_strlit("established");
    reveal_strlit("closing");
    reveal_strlit("closed");
    reveal_strlit("unknown");
    reveal_strlit("dns");
    reveal_strlit("sni");
    reveal_strlit("high");
    reveal_strlit("low");
    assert("upload"@.len() == 6 && "download"@.len() == 8 && "bidirectional"@.len() == 13);
    assert("new"@.len() == 3 && "established"@.len() == 11 && "closing"@.len() == 7);
    assert("closed"@.len() == 6 && "unknown"@.len() == 7);
    assert("closing"@[0] != "unknown"@[0]);
    assert("dns"@.len() == 3 && "sni"@.len() == 3 && "dns"@[0] != "sni"@[0]);
    assert("high"@.len() == 4 && "low"@.len() == 3);
}

/// A row that holds a flow is read as that flow.
pub proof fn flows_are_read_as_written(row: Seq<SqlView>, f: FlowView)
    requires
        holds_flow(row, f),
    ensures
        crate::sqlite::flow_of(row) == Some(f),
{
    match f.domain {
        Some(a) => lemma_names(f.direction, a.source, a.confidence, f.connection_state),
        None => lemma_names(
            f.direction,
            DomainSource::Dns,
            DomainConfidence::High,
            f.connection_state,
        ),
    }
}

/// The columns of a device are its hardware address, its name and its address.
pub proof fn devices_are_read_by_column(row: Seq<SqlView>)
    ensures
        match crate::sqlite::device_of(row) {
            Some(d) => {
                &&& row.len() >= 3
                &&& row[0] == SqlView::Text(d.mac_address)
                &&& text_or_nothing(row[1], d.display_name)
                &&& text_or_nothing(row[2], d.current_ip)
            },
            None => row.len() < 3 || !(row[0] is Text) || !(row[1] is Text || row[1] is Null) || !(
            row[2] is Text || row[2] is Null),
        },
{
}

/// The columns of a device's minute are the device, the minute, what was sent and what was
/// received.
pub proof fn device_minutes_are_read_by_column(row: Seq<SqlView>)
    ensures
        match crate::sqlite::device_minute_of(row) {
            Some(m) => {
                &&& row.len() >= 4
                &&& row[0] == SqlView::Text(m.mac_address)
                &&& row[1] == SqlView::Integer(m.minute_ms)
                &&& row[2] is Integer && (row[2]->Integer_0 >= 0 ==> row[2]->Integer_0
                    == m.upload_bytes)
                &&& row[3] is Integer && (row[3]->Integer_0 >= 0 ==> row[3]->Integer_0
                    == m.download_bytes)
            },
            None => row.len() < 4 || !(row[0] is Text) || !(row[1] is Integer) || !(
            row[2] is Integer) || !(row[3] is Integer),
        },
{
}

/// The source is the one that the text names; another text names none that is known.
pub open spec fn is_source(s: DomainSource, text: Seq<char>) -> bool {
    &&& text == "dns"@ <==> s is Dns
    &&& text == "sni"@ <==> s is Sni
}

/// The confidence is the one that the text names; another text names none that is known.
pub open spec fn is_confidence(c: DomainConfidence, text: Seq<char>) -> bool {
    &&& text == "high"@ <==> c is High
    &&& text == "low"@ <==> c is Low
}

/// Sources and confidences are known by their names; any other text means that they are unknown.
pub proof fn names_are_read_or_unknown(text: Seq<char>)
    ensures
        is_source(crate::storage::source_or_unknown(text), text),
        is_confidence(crate::storage::confidence_or_unknown(text), text),
        crate::sqlite::direction_or_upload(text) is Download <==> text == "download"@,
        crate::sqlite::direction_or_upload(text) is Bidirectional <==> text == "bidirectional"@,
        crate::sqlite::state_or_unknown(text) is New <==> text == "new"@,
        crate::sqlite::state_or_unknown(text) is Established <==> text == "established"@,
        crate::sqlite::state_or_unknown(text) is Closing <==> text == "closing"@,
        crate::sqlite::state_or_unknown(text) is Closed <==> text == "closed"@,
{
    lemma_names(
        FlowDirection::Download,
        DomainSource::Dns,
        DomainConfidence::High,
        ConnectionState::New,
    );
    lemma_names(
        FlowDirection::Bidirectional,
        DomainSource::Sni,
        DomainConfidence::Low,
        ConnectionState::Established,
    );
    lemma_names(
        FlowDirection::Upload,
        DomainSource::Unknown,
        DomainConfidence::Unknown,
        ConnectionState::Closing,
    );
    lemma_names(
        FlowDirection::Upload,
        DomainSource::Unknown,
        DomainConfidence::Unknown,
        ConnectionState::Closed,
    );
}

/// The columns of a domain's minute are the device, the domain, the minute, what was sent and what
/// was received, the source and the confidence.
pub proof fn domain_minutes_are_read_by_column(row: Seq<SqlView>)
    ensures
        match crate::sqlite::domain_minute_of(row) {
            Some(m) => {
                &&& row.len() >= 7
                &&& row[0] == SqlView::Text(m.mac_address)
                &&& row[1] == SqlView::Text(m.domain)
                &&& row[2] == SqlView::Integer(m.minute_ms)
                &&& row[3] is Integer && (row[3]->Integer_0 >= 0 ==> row[3]->Integer_0
                    == m.upload_bytes)
                &&& row[4] is Integer && (row[4]->Integer_0 >= 0 ==> row[4]->Integer_0
                    == m.download_bytes)
                &&& row[5] is Text && is_source(m.source, row[5]->Text_0)
                &&& row[6] is Text && is_confidence(m.confidence, row[6]->Text_0)
            },
            None => row.len() < 7 || !(row[0] is Text) || !(row[1] is Text) || !(row[2] is Integer)
                || !(row[3] is Integer) || !(row[4] is Integer) || !(row[5] is Text) || !(
            row[6] is Text),
        },
{
    if crate::sqlite::domain_minute_of(row) is Some {
        names_are_read_or_unknown(row[5]->Text_0);
        names_are_read_or_unknown(row[6]->Text_0);
    }
}

/// The columns of a domain in the list by traffic are the domain, what was sent, what was received,
/// both together, the confidence and the source.
pub proof fn domain_summaries_are_read_by_column(row: Seq<SqlView>)
    ensures
        match crate::sqlite::domain_summary_of(row) {
            Some(m) => {
                &&& row.len() >= 6
                &&& row[0] == SqlView::Text(m.domain)
                &&& row[1] is Integer && (row[1]->Integer_0 >= 0 ==> row[1]->Integer_0
                    == m.upload_bytes)
                &&& row[2] is Integer && (row[2]->Integer_0 >= 0 ==> row[2]->Integer_0
                    == m.download_bytes)
                &&& row[3] is Integer && (row[3]->Integer_0 >= 0 ==> row[3]->Integer_0
                    == m.total_bytes)
                &&& row[4] is Text && is_confidence(m.confidence, row[4]->Text_0)
                &&& row[5] is Text && is_source(m.source, row[5]->Text_0)
            },
            None => row.len() < 6 || !(row[0] is Text) || !(row[1] is Integer) || !(
            row[2] is Integer) || !(row[3] is Integer) || !(row[4] is Text) || !(row[5] is Text),
        },
{
    if crate::sqlite::domain_summary_of(row) is Some {
        names_are_read_or_unknown(row[4]->Text_0);
        names_are_read_or_unknown(row[5]->Text_0);
    }
}

/// The columns of the sum of a device's flows are what was sent, what was received, how many flows
/// there are and when the last one was seen.
pub proof fn flow_sums_are_read_by_column(row: Seq<SqlView>)
    ensures
        match crate::sqlite::summary_of(row) {
            Some(m) => {
                &&& row.len() >= 4
                &&& row[0] is Integer && (row[0]->Integer_0 >= 0 ==> row[0]->Integer_0
                    == m.upload_bytes)
                &&& row[1] is Integer && (row[1]->Integer_0 >= 0 ==> row[1]->Integer_0
                    == m.download_bytes)
                &&& row[2] is Integer && (0 <= row[2]->Integer_0 <= usize::MAX
                    ==> row[2]->Integer_0 == m.flow_count)
                &&& number_or_nothing(row[3], time(m.last_seen))
            },
            None => row.len() < 4 || !(row[0] is Integer) || !(row[1] is Integer) || !(
            row[2] is Integer) || !(row[3] is Integer || row[3] is Null),
        },
{
}

/// The attribution that is read from five columns: none where there is no domain; else that domain,
/// with what the other columns say.
pub open spec fn attribution_read(row: Seq<SqlView>, i: int, a: Option<AttributionView>) -> bool {
    match a {
        None => row[i] is Null,
        Some(x) => {
            &&& row[i] == SqlView::Text(x.domain)
            &&& row[i + 1] is Text ==> is_source(x.source, row[i + 1]->Text_0)
            &&& row[i + 1] is Null ==> x.source is Unknown
            &&& row[i + 2] is Text ==> is_confidence(x.confidence, row[i + 2]->Text_0)
            &&& row[i + 2] is Null ==> x.confidence is Unknown
            &&& row[i + 3] is Integer ==> row[i + 3]->Integer_0 == x.associated_at
            &&& row[i + 3] is Null ==> x.associated_at == 0
            &&& number_or_nothing(row[i + 4], time(x.expires_at))
        },
    }
}

proof fn lemma_attribution(row: Seq<SqlView>, i: int)
    requires
        i >= 0,
    ensures
        crate::storage::attribution_columns(row, i) matches Some(a) ==> row.len() >= i + 5
            && attribution_read(row, i, a),
{
    if crate::storage::attribution_columns(row, i) is Some {
        if row[i + 1] is Text {
            names_are_read_or_unknown(row[i + 1]->Text_0);
        }
        if row[i + 2] is Text {
            names_are_read_or_unknown(row[i + 2]->Text_0);
        }
    }
}

/// What is known of a stored flow is read from its three counters, the time at which it was last
/// seen, and its attribution.
pub proof fn stored_flows_are_read_by_column(row: Seq<SqlView>)
    ensures
        crate::storage::stored_state(row) matches Ok(s) ==> {
            &&& row.len() >= 9
            &&& number_or_nothing(row[0], Some(s.counters.upload_bytes as int))
            &&& number_or_nothing(row[1], Some(s.counters.download_bytes as int))
            &&& number_or_nothing(row[2], Some(s.counters.packet_count as int))
            &&& row[3] == SqlView::Integer(s.last_seen)
            &&& attribution_read(row, 4, s.domain)
        },
{
    lemma_attribution(row, 4);
}

/// A counter below zero was never written: which one it is is told.
pub proof fn counters_below_zero_are_told(row: Seq<SqlView>)
    requires
        row.len() >= 3,
        row[0] is Integer,
        row[1] is Integer,
        row[2] is Integer,
    ensures
        row[0]->Integer_0 < 0 ==> crate::storage::stored_state(row) == Err::<
            crate::storage::StoredView,
            ErrorView,
        >(ErrorView::InvalidCounter("stored "@ + "upload_bytes"@ + " must not be negative"@)),
        row[0]->Integer_0 >= 0 && row[1]->Integer_0 < 0 ==> crate::storage::stored_state(row)
            == Err::<crate::storage::StoredView, ErrorView>(
            ErrorView::InvalidCounter("stored "@ + "download_bytes"@ + " must not be negative"@),
        ),
        row[0]->Integer_0 >= 0 && row[1]->Integer_0 >= 0 && row[2]->Integer_0 < 0
            ==> crate::storage::stored_state(row) == Err::<crate::storage::StoredView, ErrorView>(
            ErrorView::InvalidCounter("stored "@ + "packet_count"@ + " must not be negative"@),
        ),
{
}

/// What a flow has contributed to a minute is read from the minute, what was sent in it, what was
/// received, and the attribution.
pub proof fn contributions_are_read_by_column(row: Seq<SqlView>)
    ensures
        crate::storage::ledger_entry(row) matches Ok(c) ==> {
            &&& row.len() >= 8
            &&& row[0] == SqlView::Integer(c.minute_ms)
            &&& number_or_nothing(row[1], Some(c.upload_bytes as int))
            &&& number_or_nothing(row[2], Some(c.download_bytes as int))
            &&& attribution_read(row, 3, c.domain)
        },
{
    lemma_attribution(row, 3);
}

/// All that a flow has contributed is read, row by row and in order; one row that cannot be read
/// spoils all of them.
pub proof fn contributions_are_read_in_order(rows: Seq<Seq<SqlView>>)
    ensures
        crate::storage::ledger_of(rows) matches Ok(cs) ==> cs.len() == rows.len() && forall|i: int|
            0 <= i < rows.len() ==> crate::storage::ledger_entry(#[trigger] rows[i]) == Ok::<
                ContributionView,
                ErrorView,
            >(cs[i]),
        crate::storage::ledger_of(rows) matches Err(e) ==> exists|i: int|
            0 <= i < rows.len() && crate::storage::ledger_entry(#[trigger] rows[i]) == Err::<
                ContributionView,
                ErrorView,
            >(e) && forall|j: int|
                0 <= j < i ==> crate::storage::ledger_entry(#[trigger] rows[j]) is Ok,
    decreases rows.len(),
{
    if rows.len() > 0 {
        let t = rows.drop_last();
        let n = rows.len() - 1;
        contributions_are_read_in_order(t);
        match crate::storage::ledger_of(t) {
            Ok(before) => {
                assert forall|j: int| 0 <= j < n implies crate::storage::ledger_entry(
                    #[trigger] rows[j],
                ) == Ok::<ContributionView, ErrorView>(before[j]) by {
                    assert(t[j] == rows[j]);
                }
                match crate::storage::ledger_of(rows) {
                    Ok(cs) => {},
                    Err(e) => {
                        assert(crate::storage::ledger_entry(rows[n]) == Err::<
                            ContributionView,
                            ErrorView,
                        >(e));
                    },
                }
            },
            Err(e) => {
                let i = choose|i: int|
                    0 <= i < t.len() && crate::storage::ledger_entry(#[trigger] t[i]) == Err::<
                        ContributionView,
                        ErrorView,
                    >(e) && forall|j: int|
                        0 <= j < i ==> crate::storage::ledger_entry(#[trigger] t[j]) is Ok;
                assert(rows[i] == t[i]);
                assert forall|j: int| 0 <= j < i implies crate::storage::ledger_entry(
                    #[trigger] rows[j],
                ) is Ok by {
                    assert(t[j] == rows[j]);
                }
            },
        }
    }
}

/// Errors of the storage are told by what they hold.
pub proof fn storage_errors_are_told(e: StorageError, field: Seq<char>)
    ensures
        e matches StorageError::InvalidFlow(s) ==> e.text() == s@,
        e matches StorageError::InvalidCounter(s) ==> e.text() == s@,
        e matches StorageError::UnsupportedSchema(s) ==> e.text() == s@,
        e matches StorageError::Database(s) ==> e.text() == s@,
        e is Column ==> e.text() == "unexpected column"@,
        crate::storage::range_error(field) == ErrorView::InvalidCounter(
            field + " exceeds SQLite INTEGER range"@,
        ),
{
}

/// Traffic is added to a device's minute, or to a domain's, with each number in its own place.
pub proof fn minutes_are_added_to_by_column(
    mac: Seq<char>,
    a: AttributionView,
    minute: i64,
    up: i64,
    down: i64,
)
    ensures
        ({
            let c = crate::sqlite::commands_of(
                StatementView::AddDeviceMinute {
                    mac_address: mac,
                    minute_ms: minute,
                    upload_bytes: up,
                    download_bytes: down,
                },
            );
            &&& c.len() == 1
            &&& c[0].sql == crate::sqlite::ADD_DEVICE_MINUTE@
            &&& c[0].one_row is None
            &&& c[0].params.len() == 4
            &&& c[0].params[0] == SqlView::Text(mac)
            &&& c[0].params[1] == SqlView::Integer(minute)
            &&& c[0].params[2] == SqlView::Integer(up)
            &&& c[0].params[3] == SqlView::Integer(down)
        }),
        ({
            let c = crate::sqlite::commands_of(
                StatementView::AddDomainMinute {
                    mac_address: mac,
                    attribution: a,
                    minute_ms: minute,
                    upload_bytes: up,
                    download_bytes: down,
                },
            );
            &&& c.len() == 1
            &&& c[0].sql == crate::sqlite::ADD_DOMAIN_MINUTE@
            &&& c[0].one_row is None
            &&& c[0].params.len() == 7
            &&& c[0].params[0] == SqlView::Text(mac)
            &&& c[0].params[1] == SqlView::Text(a.domain)
            &&& c[0].params[2] == SqlView::Integer(minute)
            &&& c[0].params[3] == SqlView::Integer(up)
            &&& c[0].params[4] == SqlView::Integer(down)
            &&& c[0].params[5] == SqlView::Text(a.source.text())
            &&& c[0].params[6] == SqlView::Text(a.confidence.text())
        }),
{
}

/// Traffic is taken from a domain's minute, which must hold it, and the minute is dropped where
/// nothing is left.
pub proof fn minutes_are_taken_from_by_column(
    mac: Seq<char>,
    domain: Seq<char>,
    minute: i64,
    up: i64,
    down: i64,
)
    ensures
        ({
            let c = crate::sqlite::commands_of(
                StatementView::SubtractDomainMinute {
                    mac_address: mac,
                    domain,
                    minute_ms: minute,
                    upload_bytes: up,
                    download_bytes: down,
                },
            );
            &&& c.len() == 2
            &&& c[0].sql == crate::sqlite::SUBTRACT_DOMAIN_MINUTE@
            &&& c[0].one_row == Some(
                "domain contribution exceeds aggregate for "@ + mac + "/"@ + domain + "/"@
                    + crate::text::decimal_signed(minute as int),
            )
            &&& c[0].params.len() == 5
            &&& c[0].params[0] == SqlView::Text(mac)
            &&& c[0].params[1] == SqlView::Text(domain)
            &&& c[0].params[2] == SqlView::Integer(minute)
            &&& c[0].params[3] == SqlView::Integer(up)
            &&& c[0].params[4] == SqlView::Integer(down)
            &&& c[1].sql == crate::sqlite::DROP_EMPTY_DOMAIN_MINUTE@
            &&& c[1].one_row is None
            &&& c[1].params.len() == 3
            &&& c[1].params[0] == SqlView::Text(mac)
            &&& c[1].params[1] == SqlView::Text(domain)
            &&& c[1].params[2] == SqlView::Integer(minute)
        }),
{
}

/// What a flow has contributed is written with each part of it in its own place.
pub proof fn contributions_are_written_by_column(
    id: Seq<char>,
    mac: Seq<char>,
    minute: i64,
    up: i64,
    down: i64,
    a: Option<AttributionView>,
)
    ensures
        ({
            let c = crate::sqlite::commands_of(
                StatementView::AddContribution {
                    flow_id: id,
                    mac_address: mac,
                    minute_ms: minute,
                    upload_bytes: up,
                    download_bytes: down,
                    attribution: a,
                },
            );
            &&& c.len() == 1
            &&& c[0].sql == crate::sqlite::ADD_CONTRIBUTION@
            &&& c[0].one_row is None
            &&& c[0].params.len() == 10
            &&& c[0].params[0] == SqlView::Text(id)
            &&& c[0].params[1] == SqlView::Text(mac)
            &&& c[0].params[2] == SqlView::Integer(minute)
            &&& c[0].params[3] == SqlView::Integer(up)
            &&& c[0].params[4] == SqlView::Integer(down)
            &&& holds_attribution(c[0].params, 5, a)
        }),
{
    let c = crate::sqlite::commands_of(
        StatementView::AddContribution {
            flow_id: id,
            mac_address: mac,
            minute_ms: minute,
            upload_bytes: up,
            download_bytes: down,
            attribution: a,
        },
    );
    let x = crate::sqlite::attribution_row(a);
    assert(x.len() == 5);
    assert(c[0].params[5] == x[0] && c[0].params[6] == x[1] && c[0].params[7] == x[2]
        && c[0].params[8] == x[3] && c[0].params[9] == x[4]);
}

/// A new attribution is written to a flow, to what it has contributed, or to a minute, with each
/// part of it in its own place.
pub proof fn attributions_are_written_by_column(
    id: Seq<char>,
    mac: Seq<char>,
    minute: i64,
    a: AttributionView,
)
    ensures
        ({
            let c = crate::sqlite::commands_of(
                StatementView::MarkContributions { flow_id: id, attribution: a },
            );
            &&& c.len() == 1
            &&& c[0].sql == crate::sqlite::MARK_CONTRIBUTIONS@
            &&& c[0].one_row is None
            &&& c[0].params.len() == 6
            &&& c[0].params[0] == SqlView::Text(id)
            &&& holds_attribution(c[0].params, 1, Some(a))
        }),
        ({
            let c = crate::sqlite::commands_of(
                StatementView::SetFlowDomain { flow_id: id, attribution: a },
            );
            &&& c.len() == 1
            &&& c[0].sql == crate::sqlite::SET_FLOW_DOMAIN@
            &&& c[0].one_row is None
            &&& c[0].params.len() == 6
            &&& c[0].params[0] == SqlView::Text(id)
            &&& holds_attribution(c[0].params, 1, Some(a))
        }),
        ({
            let c = crate::sqlite::commands_of(
                StatementView::MarkDomainMinute {
                    mac_address: mac,
                    attribution: a,
                    minute_ms: minute,
                },
            );
            &&& c.len() == 1
            &&& c[0].sql == crate::sqlite::MARK_DOMAIN_MINUTE@
            &&& c[0].one_row is None
            &&& c[0].params.len() == 5
            &&& c[0].params[0] == SqlView::Text(mac)
            &&& c[0].params[1] == SqlView::Text(a.domain)
            &&& c[0].params[2] == SqlView::Integer(minute)
            &&& c[0].params[3] == SqlView::Text(a.source.text())
            &&& c[0].params[4] == SqlView::Text(a.confidence.text())
        }),
{
}

/// Devices and flows are written with each part in its own place.
pub proof fn devices_and_flows_are_written_by_column(
    mac: Seq<char>,
    name: Option<Seq<char>>,
    ip: Option<Seq<char>>,
    f: FlowView,
)
    requires
        f.upload_bytes <= i64::MAX,
        f.download_bytes <= i64::MAX,
        f.packet_count <= i64::MAX,
    ensures
        ({
            let c = crate::sqlite::commands_of(
                StatementView::UpsertDevice {
                    mac_address: mac,
                    display_name: name,
                    current_ip: ip,
                },
            );
            &&& c.len() == 1
            &&& c[0].sql == crate::sqlite::UPSERT_DEVICE@
            &&& c[0].one_row is None
            &&& c[0].params.len() == 3
            &&& c[0].params[0] == SqlView::Text(mac)
            &&& text_or_nothing(c[0].params[1], name)
            &&& text_or_nothing(c[0].params[2], ip)
        }),
        ({
            let c = crate::sqlite::commands_of(
                StatementView::RenameDevice { mac_address: mac, display_name: name },
            );
            &&& c.len() == 1
            &&& c[0].sql == crate::sqlite::RENAME_DEVICE@
            &&& c[0].one_row is None
            &&& c[0].params.len() == 2
            &&& text_or_nothing(c[0].params[0], name)
            &&& c[0].params[1] == SqlView::Text(mac)
        }),
        ({
            let c = crate::sqlite::commands_of(StatementView::UpsertFlow { flow: f });
            &&& c.len() == 1
            &&& c[0].sql == crate::sqlite::UPSERT_FLOW@
            &&& c[0].one_row is None
            &&& holds_flow(c[0].params, f)
        }),
{
    flows_are_written_by_column(f);
}

/// The statement is one command with these parameters.
pub open spec fn is_command(s: StatementView, sql: Seq<char>, params: Seq<SqlView>) -> bool {
    let c = crate::sqlite::commands_of(s);
    c.len() == 1 && c[0].sql == sql && c[0].params =~= params && c[0].one_row is None
}

/// Deletions name what is deleted: a device, a domain, one of a device, a stretch of time from its
/// beginning to its end, or what is older than a time.
pub proof fn deletions_name_what_goes(
    mac: Seq<char>,
    domain: Seq<char>,
    from_ms: i64,
    to_ms: i64,
)
    ensures
        is_command(
            (StatementView::DeleteDeviceMinutesOf { mac_address: mac }),
            crate::sqlite::DELETE_DEVICE_MINUTES_OF@,
            seq![SqlView::Text(mac)],
        ),
        is_command(
            (StatementView::DeleteDomainMinutesOf { mac_address: mac }),
            crate::sqlite::DELETE_DOMAIN_MINUTES_OF@,
            seq![SqlView::Text(mac)],
        ),
        is_command(
            (StatementView::DeleteFlowsOf { mac_address: mac }),
            crate::sqlite::DELETE_FLOWS_OF@,
            seq![SqlView::Text(mac)],
        ),
        is_command(
            (StatementView::DeleteDevice { mac_address: mac }),
            crate::sqlite::DELETE_DEVICE@,
            seq![SqlView::Text(mac)],
        ),
        is_command(
            (StatementView::DeleteContributionsTo { mac_address: Some(mac), domain }),
            crate::sqlite::DELETE_CONTRIBUTIONS_OF_TO@,
            seq![SqlView::Text(mac), SqlView::Text(domain)],
        ),
        is_command(
            (StatementView::DeleteContributionsTo { mac_address: None, domain }),
            crate::sqlite::DELETE_CONTRIBUTIONS_TO@,
            seq![SqlView::Text(domain)],
        ),
        is_command(
            (StatementView::DeleteDomainMinutesFor { mac_address: Some(mac), domain }),
            crate::sqlite::DELETE_DOMAIN_MINUTES_OF_FOR@,
            seq![SqlView::Text(mac), SqlView::Text(domain)],
        ),
        is_command(
            (StatementView::DeleteDomainMinutesFor { mac_address: None, domain }),
            crate::sqlite::DELETE_DOMAIN_MINUTES_FOR@,
            seq![SqlView::Text(domain)],
        ),
        is_command(
            (StatementView::RedactFlows { mac_address: Some(mac), domain }),
            crate::sqlite::REDACT_FLOWS_OF@,
            seq![SqlView::Text(mac), SqlView::Text(domain)],
        ),
        is_command(
            (StatementView::RedactFlows { mac_address: None, domain }),
            crate::sqlite::REDACT_FLOWS@,
            seq![SqlView::Text(domain)],
        ),
        is_command(
            (StatementView::DeleteDeviceMinutesIn { from_ms, to_ms }),
            crate::sqlite::DELETE_DEVICE_MINUTES_IN@,
            seq![SqlView::Integer(from_ms), SqlView::Integer(to_ms)],
        ),
        is_command(
            (StatementView::DeleteDomainMinutesIn { from_ms, to_ms }),
            crate::sqlite::DELETE_DOMAIN_MINUTES_IN@,
            seq![SqlView::Integer(from_ms), SqlView::Integer(to_ms)],
        ),
        is_command(
            (StatementView::DeleteContributionsIn { from_ms, to_ms }),
            crate::sqlite::DELETE_CONTRIBUTIONS_IN@,
            seq![SqlView::Integer(from_ms), SqlView::Integer(to_ms)],
        ),
        is_command(
            (StatementView::DeleteFlowsIn { from_ms, to_ms }),
            crate::sqlite::DELETE_FLOWS_IN@,
            seq![SqlView::Integer(from_ms), SqlView::Integer(to_ms)],
        ),
        is_command(
            (StatementView::DeleteFlowsBefore { cutoff_ms: from_ms }),
            crate::sqlite::DELETE_FLOWS_BEFORE@,
            seq![SqlView::Integer(from_ms)],
        ),
        is_command(
            (StatementView::DeleteDeviceMinutesBefore { cutoff_ms: from_ms }),
            crate::sqlite::DELETE_DEVICE_MINUTES_BEFORE@,
            seq![SqlView::Integer(from_ms)],
        ),
        is_command(
            (StatementView::DeleteContributionsBefore { cutoff_ms: from_ms }),
            crate::sqlite::DELETE_CONTRIBUTIONS_BEFORE@,
            seq![SqlView::Integer(from_ms)],
        ),
        is_command(
            (StatementView::DeleteDomainMinutesBefore { cutoff_ms: from_ms }),
            crate::sqlite::DELETE_DOMAIN_MINUTES_BEFORE@,
            seq![SqlView::Integer(from_ms)],
        ),
{
}

/// The flows that a binding covers are those of its client to its address that were seen while it
/// held; one without an end holds for ever.
pub proof fn covered_flows_are_asked_for(mac: Seq<char>, target: Seq<char>, a: AttributionView)
    ensures
        ({
            let c = crate::sqlite::covered_flows(mac, target, a);
            &&& c.sql == crate::sqlite::SELECT_COVERED_FLOWS@
            &&& c.one_row is None
            &&& c.params.len() == 4
            &&& c.params[0] == SqlView::Text(mac)
            &&& c.params[1] == SqlView::Text(target)
            &&& c.params[2] == SqlView::Integer(a.associated_at)
            &&& a.expires_at matches Some(t) ==> c.params[3] == SqlView::Integer(t)
            &&& a.expires_at is None ==> c.params[3] == SqlView::Integer(i64::MAX)
        }),
{
}

} // verus!
