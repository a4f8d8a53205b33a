//! What is asked of the database and in which order, and how its answers are reported.
use vstd::prelude::*;

use crate::domain::{DataDeletionResult, Device, FlowView};
use crate::session::Event;
use crate::sql::{CommandView, ErrorView, SqlValue, SqlView, StorageError};
use crate::storage::StatementView;

verus! {

/// The command has this text and these parameters, and need not change one row.
pub open spec fn is_question(c: CommandView, sql: Seq<char>, params: Seq<SqlView>) -> bool {
    c.sql == sql && c.params =~= params && c.one_row is None
}

/// Questions name the device, the domain, the flow and the time that they ask about.
pub proof fn questions_name_what_is_asked_about(
    mac: Seq<char>,
    domain: Seq<char>,
    flow_id: Seq<char>,
    since_ms: i64,
    to_ms: i64,
    limit: i64,
)
    ensures
        is_question(
            crate::repository::known_query(mac),
            crate::sqlite::SELECT_DEVICE_EXISTS@,
            seq![SqlView::Text(mac)],
        ),
        is_question(
            crate::repository::flow_count(mac),
            crate::sqlite::COUNT_FLOWS_OF@,
            seq![SqlView::Text(mac)],
        ),
        is_question(
            crate::repository::contribution_count(mac),
            crate::sqlite::COUNT_CONTRIBUTIONS_OF@,
            seq![SqlView::Text(mac)],
        ),
        is_question(
            crate::repository::account_query(),
            crate::sqlite::SELECT_FIRST_ACCOUNT@,
            seq![],
        ),
        is_question(
            crate::repository::account_insertion(mac, domain),
            crate::sqlite::INSERT_ACCOUNT@,
            seq![SqlView::Text(mac), SqlView::Text(domain)],
        ),
        is_question(
            crate::repository::all_devices(),
            crate::sqlite::SELECT_DEVICES@,
            seq![],
        ),
        is_question(
            crate::repository::one_device(mac),
            crate::sqlite::SELECT_DEVICE@,
            seq![SqlView::Text(mac)],
        ),
        is_question(
            crate::repository::flow_summary(mac, since_ms),
            crate::sqlite::SUMMARIZE_FLOWS@,
            seq![SqlView::Text(mac), SqlView::Integer(since_ms)],
        ),
        is_question(
            crate::repository::device_minutes(mac, since_ms),
            crate::sqlite::SELECT_DEVICE_MINUTES@,
            seq![SqlView::Text(mac), SqlView::Integer(since_ms)],
        ),
        is_question(
            crate::repository::domain_minutes(mac, domain, since_ms),
            crate::sqlite::SELECT_DOMAIN_MINUTES@,
            seq![SqlView::Text(mac), SqlView::Text(domain), SqlView::Integer(since_ms)],
        ),
        is_question(
            crate::repository::domain_top(mac, since_ms, limit),
            crate::sqlite::SELECT_DOMAIN_TOP@,
            seq![SqlView::Text(mac), SqlView::Integer(since_ms), SqlView::Integer(limit)],
        ),
        is_question(
            crate::repository::flows_in(since_ms, to_ms),
            crate::sqlite::COUNT_FLOWS_IN@,
            seq![SqlView::Integer(since_ms), SqlView::Integer(to_ms)],
        ),
        is_question(
            crate::repository::contributions_in(since_ms, to_ms),
            crate::sqlite::COUNT_CONTRIBUTIONS_IN@,
            seq![SqlView::Integer(since_ms), SqlView::Integer(to_ms)],
        ),
        is_question(
            crate::repository::state_query(flow_id),
            crate::sqlite::SELECT_STORED_STATE@,
            seq![SqlView::Text(flow_id)],
        ),
        is_question(
            crate::repository::ledger_query(flow_id),
            crate::sqlite::SELECT_CONTRIBUTIONS@,
            seq![SqlView::Text(flow_id)],
        ),
        is_question(
            crate::repository::schema_version(),
            "PRAGMA user_version"@,
            seq![],
        ),
{
}

/// A column is read as what it holds, and as nothing else.
pub proof fn columns_are_read_as_they_are(row: Seq<SqlView>, i: int)
    requires
        0 <= i < row.len(),
    ensures
        match row[i] {
            SqlView::Text(s) => {
                &&& crate::sql::text_column(row, i) == Some(s)
                &&& crate::sql::opt_text_column(row, i) == Some(Some(s))
                &&& crate::sql::int_column(row, i) is None
                &&& crate::sql::opt_int_column(row, i) is None
            },
            SqlView::Integer(n) => {
                &&& crate::sql::int_column(row, i) == Some(n)
                &&& crate::sql::opt_int_column(row, i) == Some(Some(n))
                &&& crate::sql::text_column(row, i) is None
                &&& crate::sql::opt_text_column(row, i) is None
            },
            SqlView::Null => {
                &&& crate::sql::opt_text_column(row, i) == Some(None::<Seq<char>>)
                &&& crate::sql::opt_int_column(row, i) == Some(None::<i64>)
                &&& crate::sql::text_column(row, i) is None
                &&& crate::sql::int_column(row, i) is None
            },
            SqlView::Other => {
                &&& crate::sql::text_column(row, i) is None
                &&& crate::sql::int_column(row, i) is None
                &&& crate::sql::opt_text_column(row, i) is None
                &&& crate::sql::opt_int_column(row, i) is None
            },
        },
{
}

/// A count is the number in the first column of the first row. Where there is none, or it cannot be
/// a count, that is an error.
pub proof fn counts_are_in_the_first_column(rows: Seq<Seq<SqlView>>)
    ensures
        ({
            let r = crate::trace::count_of(rows);
            let there = rows.len() > 0 && rows[0].len() > 0 && rows[0][0] is Integer;
            let n = rows[0][0]->Integer_0;
            &&& r is Ok <==> there && 0 <= n <= usize::MAX
            &&& r is Ok ==> r->Ok_0 == n
            &&& !there ==> r == Err::<usize, ErrorView>(ErrorView::Column)
            &&& there && (n < 0 || n > usize::MAX) ==> r == Err::<usize, ErrorView>(
                ErrorView::InvalidCounter("row count must be non-negative"@),
            )
        }),
{
}

/// The version is the number in the first column of the first row, where it can be one.
pub proof fn versions_are_in_the_first_column(rows: Seq<Seq<SqlView>>)
    ensures
        ({
            let there = rows.len() > 0 && rows[0].len() > 0 && rows[0][0] is Integer;
            let n = rows[0][0]->Integer_0;
            let fits = there && -0x8000_0000 <= n <= 0x7fff_ffff;
            &&& crate::trace::version_of(rows) is Some <==> fits
            &&& fits ==> crate::trace::version_of(rows)->0 == n
        }),
{
}

/// The account that is read has its name in the first column and its hash in the second.
pub proof fn accounts_are_read_by_column(
    r: Result<Option<(String, String)>, StorageError>,
    rows: Seq<Vec<SqlValue>>,
)
    requires
        crate::repository::account_read(r, rows),
    ensures
        rows.len() == 0 <==> r matches Ok(None),
        r matches Err(e) ==> e is Column,
        r matches Ok(Some(account)) ==> {
            let row = crate::sql::row_view(rows[0]@);
            &&& row.len() >= 2
            &&& row[0] == SqlView::Text(account.0@)
            &&& row[1] == SqlView::Text(account.1@)
        },
{
    if rows.len() > 0 {
        assert(crate::sql::rows_view(rows)[0] == crate::sql::row_view(rows[0]@));
    }
}

/// A device is found where there is a row for it; a list of devices is read where each of its rows
/// can be.
pub proof fn devices_are_read_from_their_rows(
    one: Result<Option<Device>, StorageError>,
    all: Result<Vec<Device>, StorageError>,
    rows: Seq<Vec<SqlValue>>,
)
    requires
        crate::repository::device_read(one, rows),
        crate::repository::devices_read(all, rows),
    ensures
        rows.len() == 0 <==> one matches Ok(None),
        one matches Ok(Some(device)) ==> crate::sqlite::device_of(
            crate::sql::row_view(rows[0]@),
        ) == Some(device@),
        all is Ok <==> forall|k: int|
            0 <= k < rows.len() ==> crate::sqlite::device_of(
                crate::sql::row_view((#[trigger] rows[k])@),
            ) is Some,
        one matches Err(e) ==> e is Column,
        all matches Err(e) ==> e is Column,
        all matches Ok(devices) ==> devices@.len() == rows.len() && forall|k: int|
            0 <= k < rows.len() ==> crate::sqlite::device_of(
                crate::sql::row_view((#[trigger] rows[k])@),
            ) == Some(devices@[k]@),
{
    let views = crate::sql::rows_view(rows);
    assert forall|k: int| 0 <= k < rows.len() implies views[k] == crate::sql::row_view(
        (#[trigger] rows[k])@,
    ) by {}
    if all is Err {
        let k = choose|k: int|
            0 <= k < views.len() && crate::sqlite::device_of(#[trigger] views[k]) is None;
        assert(crate::sqlite::device_of(crate::sql::row_view(rows[k]@)) is None);
    }
}

/// Flows are read where each of their rows can be.
pub proof fn flows_are_read_from_their_rows(
    all: Result<Vec<crate::domain::Flow>, StorageError>,
    rows: Seq<Vec<SqlValue>>,
)
    requires
        crate::repository::flows_read(all, rows),
    ensures
        all is Ok <==> forall|k: int|
            0 <= k < rows.len() ==> crate::sqlite::flow_of(
                crate::sql::row_view((#[trigger] rows[k])@),
            ) is Some,
        all matches Err(e) ==> e is Column,
        all matches Ok(flows) ==> flows@.len() == rows.len() && forall|k: int|
            0 <= k < rows.len() ==> crate::sqlite::flow_of(
                crate::sql::row_view((#[trigger] rows[k])@),
            ) == Some(flows@[k]@),
{
    let views = crate::sql::rows_view(rows);
    assert forall|k: int| 0 <= k < rows.len() implies views[k] == crate::sql::row_view(
        (#[trigger] rows[k])@,
    ) by {}
    if all is Err {
        let k = choose|k: int|
            0 <= k < views.len() && crate::sqlite::flow_of(#[trigger] views[k]) is None;
        assert(crate::sqlite::flow_of(crate::sql::row_view(rows[k]@)) is None);
    }
}

/// Minutes and summaries are read where each of their rows can be.
pub proof fn traffic_is_read_from_its_rows(
    devices: Result<Vec<crate::domain::DeviceMinuteStat>, StorageError>,
    domains: Result<Vec<crate::domain::DomainMinuteStat>, StorageError>,
    top: Result<Vec<crate::domain::DomainTrafficSummary>, StorageError>,
    rows: Seq<Vec<SqlValue>>,
)
    ensures
        crate::repository::device_minutes_read(devices, rows) ==> (devices is Ok <==> forall|k: int|
            0 <= k < rows.len() ==> crate::sqlite::device_minute_of(
                crate::sql::row_view((#[trigger] rows[k])@),
            ) is Some),
        crate::repository::device_minutes_read(devices, rows) && devices is Err
            ==> devices->Err_0 is Column,
        crate::repository::domain_minutes_read(domains, rows) && domains is Err
            ==> domains->Err_0 is Column,
        crate::repository::domain_summaries_read(top, rows) && top is Err
            ==> top->Err_0 is Column,
        crate::repository::device_minutes_read(devices, rows) && devices is Ok
            ==> devices->Ok_0@.len() == rows.len() && forall|k: int|
            0 <= k < rows.len() ==> crate::sqlite::device_minute_of(
                crate::sql::row_view((#[trigger] rows[k])@),
            ) == Some(devices->Ok_0@[k]@),
        crate::repository::domain_minutes_read(domains, rows) ==> (domains is Ok <==> forall|k: int|
            0 <= k < rows.len() ==> crate::sqlite::domain_minute_of(
                crate::sql::row_view((#[trigger] rows[k])@),
            ) is Some),
        crate::repository::domain_minutes_read(domains, rows) && domains is Ok
            ==> domains->Ok_0@.len() == rows.len() && forall|k: int|
            0 <= k < rows.len() ==> crate::sqlite::domain_minute_of(
                crate::sql::row_view((#[trigger] rows[k])@),
            ) == Some(domains->Ok_0@[k]@),
        crate::repository::domain_summaries_read(top, rows) ==> (top is Ok <==> forall|k: int|
            0 <= k < rows.len() ==> crate::sqlite::domain_summary_of(
                crate::sql::row_view((#[trigger] rows[k])@),
            ) is Some),
        crate::repository::domain_summaries_read(top, rows) && top is Ok ==> top->Ok_0@.len()
            == rows.len() && forall|k: int|
            0 <= k < rows.len() ==> crate::sqlite::domain_summary_of(
                crate::sql::row_view((#[trigger] rows[k])@),
            ) == Some(top->Ok_0@[k]@),
{
    let views = crate::sql::rows_view(rows);
    assert forall|k: int| 0 <= k < rows.len() implies views[k] == crate::sql::row_view(
        (#[trigger] rows[k])@,
    ) by {}
    if crate::repository::device_minutes_read(devices, rows) && devices is Err {
        let k = choose|k: int|
            0 <= k < views.len() && crate::sqlite::device_minute_of(#[trigger] views[k]) is None;
        assert(crate::sqlite::device_minute_of(crate::sql::row_view(rows[k]@)) is None);
    }
    if crate::repository::domain_minutes_read(domains, rows) && domains is Err {
        let k = choose|k: int|
            0 <= k < views.len() && crate::sqlite::domain_minute_of(#[trigger] views[k]) is None;
        assert(crate::sqlite::domain_minute_of(crate::sql::row_view(rows[k]@)) is None);
    }
    if crate::repository::domain_summaries_read(top, rows) && top is Err {
        let k = choose|k: int|
            0 <= k < views.len() && crate::sqlite::domain_summary_of(#[trigger] views[k]) is None;
        assert(crate::sqlite::domain_summary_of(crate::sql::row_view(rows[k]@)) is None);
    }
}

/// A command with these parameters was carried out and changed so many rows.
pub open spec fn was_done(e: Event, sql: Seq<char>, params: Seq<SqlView>, n: usize) -> bool {
    e matches Event::Execute(c, r) && c.sql == sql && c.params =~= params && r == Ok::<
        usize,
        ErrorView,
    >(n)
}

/// A number was asked for and given.
pub open spec fn was_counted(e: Event, sql: Seq<char>, params: Seq<SqlView>, n: usize) -> bool {
    e matches Event::Query(c, r) && c.sql == sql && c.params =~= params && r is Ok
        && r->Ok_0.len() > 0 && r->Ok_0[0].len() > 0 && r->Ok_0[0][0] is Integer
        && r->Ok_0[0][0]->Integer_0 == n
}

proof fn lemma_counted(before: Seq<Event>, after: Seq<Event>, c: CommandView, n: usize)
    requires
        crate::trace::counted(before, after, c, Ok(n)),
    ensures
        after.len() == before.len() + 1,
        after.drop_last() =~= before,
        was_counted(after.last(), c.sql, c.params, n),
{
    let answer = choose|answer: Result<Seq<Seq<SqlView>>, ErrorView>|
        after == #[trigger] crate::trace::after_query(before, c, answer) && match answer {
            Ok(rows) => Ok::<usize, ErrorView>(n) == crate::trace::count_of(rows),
            Err(e) => Ok::<usize, ErrorView>(n) == Err::<usize, ErrorView>(e),
        };
    if answer is Ok {
        counts_are_in_the_first_column(answer->Ok_0);
    }
}

proof fn lemma_one(s: StatementView, n: Seq<usize>)
    requires
        crate::sqlite::commands_of(s).len() == 1,
        crate::trace::rows_changed(crate::sqlite::commands_of(s), n),
    ensures
        n.len() == 1,
        crate::trace::executed(crate::sqlite::commands_of(s), n) =~= seq![
            Event::Execute(crate::sqlite::commands_of(s)[0], Ok::<usize, ErrorView>(n[0])),
        ],
{
}

/// The first command of each of four changes, each of which is one command.
proof fn lemma_four(
    before: Seq<Event>,
    after: Seq<Event>,
    s: Seq<StatementView>,
    n: Seq<Seq<usize>>,
)
    requires
        s.len() == 4,
        crate::trace::changes_done(before, after, s, n),
        forall|k: int| 0 <= k < 4 ==> crate::sqlite::commands_of(#[trigger] s[k]).len() == 1,
    ensures
        n.len() == 4,
        after =~= before + seq![
            Event::Execute(crate::sqlite::commands_of(s[0])[0], Ok::<usize, ErrorView>(n[0][0])),
            Event::Execute(crate::sqlite::commands_of(s[1])[0], Ok::<usize, ErrorView>(n[1][0])),
            Event::Execute(crate::sqlite::commands_of(s[2])[0], Ok::<usize, ErrorView>(n[2][0])),
            Event::Execute(crate::sqlite::commands_of(s[3])[0], Ok::<usize, ErrorView>(n[3][0])),
        ],
{
    reveal_with_fuel(crate::trace::events_of, 5);
    assert(n[0].len() == n[0].len() && n[1].len() == n[1].len());
    lemma_one(s[0], n[0]);
    lemma_one(s[1], n[1]);
    lemma_one(s[2], n[2]);
    lemma_one(s[3], n[3]);
    let s3 = s.drop_last();
    let s2 = s3.drop_last();
    let s1 = s2.drop_last();
    let n3 = n.drop_last();
    let n2 = n3.drop_last();
    let n1 = n2.drop_last();
    assert(s3.last() == s[2] && s2.last() == s[1] && s1.last() == s[0]);
    assert(n3.last() == n[2] && n2.last() == n[1] && n1.last() == n[0]);
    assert(crate::trace::events_of(s1.drop_last(), n1.drop_last()) =~= Seq::<Event>::empty());
}

/// A device is removed in this order: it is looked for, its flows and contributions are counted,
/// and its minutes, its domains' minutes, its flows and it itself are removed. What is reported is
/// what was counted, and how many rows the removals changed.
pub proof fn device_removals_report_their_answers(
    before: Seq<Event>,
    after: Seq<Event>,
    mac: Seq<char>,
    done: DataDeletionResult,
)
    requires
        crate::trace::device_gone(before, after, mac, done),
    ensures
        ({
            let b = before.len() as int;
            &&& after.len() == b + 7
            &&& after.take(b) =~= before
            &&& after[b] matches Event::Query(c, r) && c.sql
                == crate::sqlite::SELECT_DEVICE_EXISTS@ && c.params =~= seq![SqlView::Text(mac)]
                && r is Ok && r->Ok_0.len() > 0
            &&& was_counted(
                after[b + 1],
                crate::sqlite::COUNT_FLOWS_OF@,
                seq![SqlView::Text(mac)],
                done.flows_deleted,
            )
            &&& was_counted(
                after[b + 2],
                crate::sqlite::COUNT_CONTRIBUTIONS_OF@,
                seq![SqlView::Text(mac)],
                done.contributions_deleted,
            )
            &&& was_done(
                after[b + 3],
                crate::sqlite::DELETE_DEVICE_MINUTES_OF@,
                seq![SqlView::Text(mac)],
                done.device_minutes_deleted,
            )
            &&& was_done(
                after[b + 4],
                crate::sqlite::DELETE_DOMAIN_MINUTES_OF@,
                seq![SqlView::Text(mac)],
                done.domain_minutes_deleted,
            )
            &&& exists|n: usize| #[trigger]
                was_done(
                    after[b + 5],
                    crate::sqlite::DELETE_FLOWS_OF@,
                    seq![SqlView::Text(mac)],
                    n,
                )
            &&& exists|n: usize| #[trigger]
                was_done(
                    after[b + 6],
                    crate::sqlite::DELETE_DEVICE@,
                    seq![SqlView::Text(mac)],
                    n,
                )
            &&& done.devices_deleted == 1
            &&& done.flows_redacted == 0
        }),
{
    let (mid, n) = choose|mid: Seq<Event>, n: Seq<Seq<usize>>|
        {
            &&& #[trigger] crate::trace::device_counted(
                before,
                mid,
                mac,
                done.flows_deleted,
                done.contributions_deleted,
            )
            &&& #[trigger] crate::trace::changes_done(
                mid,
                after,
                crate::storage::device_deleted(mac),
                n,
            )
            &&& done.devices_deleted == 1
            &&& done.flows_redacted == 0
            &&& done.device_minutes_deleted == n[0][0]
            &&& done.domain_minutes_deleted == n[1][0]
        };
    let (found, one) = choose|found: Seq<Seq<SqlView>>, one: Seq<Event>|
        found.len() > 0 && #[trigger] crate::trace::counted(
            #[trigger] crate::trace::looked_for(before, mac, found),
            one,
            crate::repository::flow_count(mac),
            Ok(done.flows_deleted),
        ) && crate::trace::counted(
            one,
            mid,
            crate::repository::contribution_count(mac),
            Ok(done.contributions_deleted),
        );
    let asked = crate::trace::looked_for(before, mac, found);
    lemma_counted(asked, one, crate::repository::flow_count(mac), done.flows_deleted);
    lemma_counted(
        one,
        mid,
        crate::repository::contribution_count(mac),
        done.contributions_deleted,
    );
    lemma_four(mid, after, crate::storage::device_deleted(mac), n);
    let b = before.len() as int;
    assert(after[b] == mid[b] && mid[b] == mid.drop_last()[b] && mid.drop_last()[b]
        == one.drop_last()[b]);
    assert(after[b + 1] == mid.drop_last()[b + 1]);
    assert(after[b + 2] == mid.last());
    assert(was_done(
        after[b + 5],
        crate::sqlite::DELETE_FLOWS_OF@,
        seq![SqlView::Text(mac)],
        n[2][0],
    ));
    assert(was_done(
        after[b + 6],
        crate::sqlite::DELETE_DEVICE@,
        seq![SqlView::Text(mac)],
        n[3][0],
    ));
    assert(after.take(b) =~= before) by {
        assert forall|i: int| 0 <= i < b implies after[i] == before[i] by {
            assert(after[i] == mid[i]);
            assert(mid[i] == mid.drop_last()[i]);
            assert(one[i] == one.drop_last()[i]);
        }
    }
}

/// A stretch of time is removed in this order: its contributions and flows are counted, and the
/// minutes of devices and domains in it, its contributions and its flows are removed. What is
/// reported is what was counted, and how many rows the removals changed.
pub proof fn range_removals_report_their_answers(
    before: Seq<Event>,
    after: Seq<Event>,
    from_ms: i64,
    to_ms: i64,
    done: DataDeletionResult,
)
    requires
        crate::trace::range_gone(before, after, from_ms, to_ms, done),
    ensures
        ({
            let b = before.len() as int;
            let ends = seq![SqlView::Integer(from_ms), SqlView::Integer(to_ms)];
            &&& after.len() == b + 6
            &&& after.take(b) =~= before
            &&& was_counted(
                after[b],
                crate::sqlite::COUNT_CONTRIBUTIONS_IN@,
                ends,
                done.contributions_deleted,
            )
            &&& was_counted(after[b + 1], crate::sqlite::COUNT_FLOWS_IN@, ends, done.flows_deleted)
            &&& was_done(
                after[b + 2],
                crate::sqlite::DELETE_DEVICE_MINUTES_IN@,
                ends,
                done.device_minutes_deleted,
            )
            &&& was_done(
                after[b + 3],
                crate::sqlite::DELETE_DOMAIN_MINUTES_IN@,
                ends,
                done.domain_minutes_deleted,
            )
            &&& exists|n: usize| #[trigger]
                was_done(after[b + 4], crate::sqlite::DELETE_CONTRIBUTIONS_IN@, ends, n)
            &&& exists|n: usize| #[trigger]
                was_done(after[b + 5], crate::sqlite::DELETE_FLOWS_IN@, ends, n)
            &&& done.devices_deleted == 0
            &&& done.flows_redacted == 0
        }),
{
    let (mid, n) = choose|mid: Seq<Event>, n: Seq<Seq<usize>>|
        {
            &&& #[trigger] crate::trace::range_counted(
                before,
                mid,
                from_ms,
                to_ms,
                done.flows_deleted,
                done.contributions_deleted,
            )
            &&& #[trigger] crate::trace::changes_done(
                mid,
                after,
                crate::storage::range_deleted(from_ms, to_ms),
                n,
            )
            &&& done.devices_deleted == 0
            &&& done.flows_redacted == 0
            &&& done.device_minutes_deleted == n[0][0]
            &&& done.domain_minutes_deleted == n[1][0]
        };
    let one = choose|one: Seq<Event>| #[trigger]
        crate::trace::counted(
            before,
            one,
            crate::repository::contributions_in(from_ms, to_ms),
            Ok(done.contributions_deleted),
        ) && crate::trace::counted(
            one,
            mid,
            crate::repository::flows_in(from_ms, to_ms),
            Ok(done.flows_deleted),
        );
    lemma_counted(
        before,
        one,
        crate::repository::contributions_in(from_ms, to_ms),
        done.contributions_deleted,
    );
    lemma_counted(
        one,
        mid,
        crate::repository::flows_in(from_ms, to_ms),
        done.flows_deleted,
    );
    lemma_four(mid, after, crate::storage::range_deleted(from_ms, to_ms), n);
    let b = before.len() as int;
    let ends = seq![SqlView::Integer(from_ms), SqlView::Integer(to_ms)];
    assert(after[b] == mid.drop_last()[b]);
    assert(after[b + 1] == mid.last());
    assert(was_done(after[b + 4], crate::sqlite::DELETE_CONTRIBUTIONS_IN@, ends, n[2][0]));
    assert(was_done(after[b + 5], crate::sqlite::DELETE_FLOWS_IN@, ends, n[3][0]));
    assert(after.take(b) =~= before) by {
        assert forall|i: int| 0 <= i < b implies after[i] == before[i] by {
            assert(after[i] == mid[i]);
            assert(mid[i] == mid.drop_last()[i]);
            assert(one[i] == one.drop_last()[i]);
        }
    }
}

/// A domain is removed in this order: the contributions to it, its minutes, and its name from the
/// flows. What is reported is how many rows each of them changed.
pub proof fn domain_removals_report_their_answers(
    before: Seq<Event>,
    after: Seq<Event>,
    mac: Option<Seq<char>>,
    domain: Seq<char>,
    done: DataDeletionResult,
)
    requires
        crate::trace::domain_gone(before, after, mac, domain, done),
    ensures
        ({
            let b = before.len() as int;
            let params = match mac {
                Some(m) => seq![SqlView::Text(m), SqlView::Text(domain)],
                None => seq![SqlView::Text(domain)],
            };
            &&& after.len() == b + 3
            &&& after.take(b) =~= before
            &&& was_done(
                after[b],
                if mac is Some {
                    crate::sqlite::DELETE_CONTRIBUTIONS_OF_TO@
                } else {
                    crate::sqlite::DELETE_CONTRIBUTIONS_TO@
                },
                params,
                done.contributions_deleted,
            )
            &&& was_done(
                after[b + 1],
                if mac is Some {
                    crate::sqlite::DELETE_DOMAIN_MINUTES_OF_FOR@
                } else {
                    crate::sqlite::DELETE_DOMAIN_MINUTES_FOR@
                },
                params,
                done.domain_minutes_deleted,
            )
            &&& was_done(
                after[b + 2],
                if mac is Some {
                    crate::sqlite::REDACT_FLOWS_OF@
                } else {
                    crate::sqlite::REDACT_FLOWS@
                },
                params,
                done.flows_redacted,
            )
            &&& done.devices_deleted == 0
            &&& done.flows_deleted == 0
            &&& done.device_minutes_deleted == 0
        }),
{
    let s = crate::storage::domain_deleted(mac, domain);
    let n = choose|n: Seq<Seq<usize>>|
        {
            &&& #[trigger] crate::trace::changes_done(before, after, s, n)
            &&& done.devices_deleted == 0
            &&& done.flows_deleted == 0
            &&& done.flows_redacted == n[2][0]
            &&& done.device_minutes_deleted == 0
            &&& done.domain_minutes_deleted == n[1][0]
            &&& done.contributions_deleted == n[0][0]
        };
    reveal_with_fuel(crate::trace::events_of, 4);
    assert(n[0] == n[0] && n[1] == n[1] && n[2] == n[2]);
    lemma_one(s[0], n[0]);
    lemma_one(s[1], n[1]);
    lemma_one(s[2], n[2]);
    let s2 = s.drop_last();
    let s1 = s2.drop_last();
    let n2 = n.drop_last();
    let n1 = n2.drop_last();
    assert(s2.last() == s[1] && s1.last() == s[0]);
    assert(n2.last() == n[1] && n1.last() == n[0]);
    assert(crate::trace::events_of(s1.drop_last(), n1.drop_last()) =~= Seq::<Event>::empty());
}

/// A change that must find exactly one row has failed where it found none or more, and says why;
/// any other change may find any number.
pub proof fn changes_must_find_their_row(c: CommandView, n: usize)
    ensures
        c.one_row is None ==> crate::trace::row_changed(c, n),
        c.one_row is Some ==> (crate::trace::row_changed(c, n) <==> n == 1),
{
}

/// A migration asks for the version, and then, in one transaction, runs what is missing, in order,
/// and sets the new version.
pub proof fn migrations_run_what_is_missing(before: Seq<Event>, after: Seq<Event>)
    requires
        crate::trace::migrated(before, after),
    ensures
        exists|version: int|
            {
                let b = before.len() as int;
                let missing = #[trigger] missing_from(version);
                &&& version <= 3
                &&& after.len() == b + 4 + missing.len()
                &&& after.take(b) =~= before
                &&& after[b] matches Event::Query(c, r) && c.sql == "PRAGMA user_version"@
                    && r is Ok && r->Ok_0.len() > 0 && r->Ok_0[0].len() > 0 && r->Ok_0[0][0] is Integer
                    && r->Ok_0[0][0]->Integer_0 == version
                &&& after[b + 1] matches Event::Begin(r) && r is Ok
                &&& forall|k: int|
                    0 <= k < missing.len() ==> (#[trigger] after[b + 2 + k] matches Event::Batch(
                        sql,
                        r,
                    ) && sql == missing[k] && r is Ok)
                &&& after[b + 2 + missing.len()] matches Event::Batch(sql, r) && sql
                    == "PRAGMA user_version = 3"@ && r is Ok
                &&& after.last() matches Event::Commit(r) && r is Ok
            },
{
    let rows = choose|rows: Seq<Seq<SqlView>>|
        {
            let asked = #[trigger] crate::trace::version_asked(before, rows);
            &&& crate::trace::version_of(rows) is Some
            &&& crate::trace::version_of(rows)->0 <= 3
            &&& crate::trace::committed(
                crate::trace::begun(asked) + crate::trace::batches_run(
                    crate::trace::upgrade_of(crate::trace::version_of(rows)->0),
                ),
                after,
            )
        };
    versions_are_in_the_first_column(rows);
    let v = crate::trace::version_of(rows)->0;
    let version = v as int;
    let missing = missing_from(version);
    assert(crate::schema::batches_from(v) =~= missing);
    let b = before.len() as int;
    assert forall|k: int| 0 <= k < missing.len() implies (
    #[trigger] after[b + 2 + k] matches Event::Batch(sql, r) && sql == missing[k] && r is Ok) by {
        assert(crate::trace::upgrade_of(v)[k] == missing[k]);
    }
}

/// What a database of a version is missing.
pub open spec fn missing_from(version: int) -> Seq<Seq<char>> {
    if version <= 0 {
        seq![
            crate::schema::SCHEMA_V1@,
            crate::schema::SCHEMA_V2@,
            crate::schema::SCHEMA_V3@,
        ]
    } else if version == 1 {
        seq![crate::schema::SCHEMA_V2@, crate::schema::SCHEMA_V3@]
    } else if version == 2 {
        seq![crate::schema::SCHEMA_V3@]
    } else {
        Seq::empty()
    }
}

/// A database of a later version than the third is refused by its version.
pub proof fn later_databases_are_told(version: i32)
    ensures
        crate::schema::unsupported(version) == "database schema version "@
            + crate::text::decimal_signed(version as int) + " is newer than supported version "@
            + seq!['3'],
{
    assert(crate::text::decimal_signed(3) =~= seq!['3']);
}

/// What was read is answered as it is; what cannot be read is an error of the server, and what is
/// not there is not found.
pub proof fn readings_are_answered<T>(
    r: Result<T, u16>,
    read: Result<T, StorageError>,
    found: Result<Option<T>, StorageError>,
)
    ensures
        crate::api::answers(r, read) <==> match read {
            Ok(v) => r == Ok::<T, u16>(v),
            Err(_) => r == Err::<T, u16>(500),
        },
        crate::api::found_or_missing(r, found) <==> match found {
            Ok(Some(v)) => r == Ok::<T, u16>(v),
            Ok(None) => r == Err::<T, u16>(404),
            Err(_) => r == Err::<T, u16>(500),
        },
        crate::api::OK == 200,
        crate::api::BAD_REQUEST == 400,
        crate::api::FORBIDDEN == 403,
        crate::api::NOT_FOUND == 404,
        crate::api::INTERNAL_SERVER_ERROR == 500,
        crate::api::SERVICE_UNAVAILABLE == 503,
        crate::service::DEFAULT_DOMAIN_TOP_LIMIT == 20,
{
}

/// A flow whose counters went back is refused by its name and both of its counts.
pub proof fn refusals_name_the_flow(f: FlowView, stored: crate::storage::StoredView)
    ensures
        crate::storage::reset_error(f, stored) == ErrorView::InvalidCounter(
            "flow "@ + f.flow_id + ": "@ + (crate::domain::CounterReset {
                previous: stored.counters,
                current: crate::domain::FlowCounters {
                    upload_bytes: f.upload_bytes,
                    download_bytes: f.download_bytes,
                    packet_count: f.packet_count,
                },
            }).text(),
        ),
{
}

} // verus!
