//! The repository: what is asked of the database, and what is made of its answers.
use vstd::prelude::*;
use vstd::string::*;

use crate::domain::{
    DataDeletionResult, Device, DeviceFlowSummary, DeviceMinuteStat,
    DomainMinuteStat, DomainTrafficSummary, Flow, FlowPageAnchor, FlowPageDirection,
    ResolvedDomainBinding,
};
use crate::num::rem_euclid_i64;
use crate::session::{Rows, Session, SqlDriver};
use crate::sql::{int_at, text_at, Command, SqlValue, StorageError};
use crate::sqlite::{
    account_from_row, contributions_query, covered_flows_query, device_contribution_count_query,
    device_exists_query, device_flow_count_query, device_from_row, device_minute_from_row,
    device_minutes_query, device_query, devices_query, domain_minute_from_row,
    domain_minutes_query, domain_summary_from_row, domain_top_query, first_account_query,
    flow_from_row, insert_account, list_flow_page, range_contribution_count_query,
    range_flow_count_query, stored_state_query, summary_from_row, summary_query,
};
use crate::storage::{
    backfill_domain_binding_tx, count_rows, delete_data_range_tx, delete_device_data_tx,
    delete_domain_data_tx, delete_expired_data, device_deletion_result, domain_deletion_result,
    expired_deletion_result, range_deletion_result, update_device_display_name, upsert_device_tx,
    upsert_flow_tx, validate_flows, LoadedFlow, RouteScopeRepository, Statement,
};

verus! {

/// The query that yields a row where a device is known.
pub open spec fn known_query(mac: Seq<char>) -> crate::sql::CommandView {
    crate::sqlite::plain(crate::sqlite::SELECT_DEVICE_EXISTS@, seq![crate::sql::text_param(mac)])
}

/// The query that counts the flows of a device.
pub open spec fn flow_count(mac: Seq<char>) -> crate::sql::CommandView {
    crate::sqlite::plain(crate::sqlite::COUNT_FLOWS_OF@, seq![crate::sql::text_param(mac)])
}

/// The query that counts what a device has contributed.
pub open spec fn contribution_count(mac: Seq<char>) -> crate::sql::CommandView {
    crate::sqlite::plain(crate::sqlite::COUNT_CONTRIBUTIONS_OF@, seq![crate::sql::text_param(mac)])
}

/// The query for the account that was created first.
pub open spec fn account_query() -> crate::sql::CommandView {
    crate::sqlite::plain(crate::sqlite::SELECT_FIRST_ACCOUNT@, seq![])
}

/// The command that creates an account while there is none.
pub open spec fn account_insertion(
    username: Seq<char>,
    password_hash: Seq<char>,
) -> crate::sql::CommandView {
    crate::sqlite::plain(
        crate::sqlite::INSERT_ACCOUNT@,
        seq![crate::sql::text_param(username), crate::sql::text_param(password_hash)],
    )
}

/// The query for all devices.
pub open spec fn all_devices() -> crate::sql::CommandView {
    crate::sqlite::plain(crate::sqlite::SELECT_DEVICES@, seq![])
}

/// The query for a device.
pub open spec fn one_device(mac: Seq<char>) -> crate::sql::CommandView {
    crate::sqlite::plain(crate::sqlite::SELECT_DEVICE@, seq![crate::sql::text_param(mac)])
}

/// The query that sums up the flows of a device.
pub open spec fn flow_summary(mac: Seq<char>, since_ms: i64) -> crate::sql::CommandView {
    crate::sqlite::plain(
        crate::sqlite::SUMMARIZE_FLOWS@,
        seq![crate::sql::text_param(mac), crate::sql::SqlView::Integer(since_ms)],
    )
}

/// The query for the traffic of a device.
pub open spec fn device_minutes(mac: Seq<char>, since_ms: i64) -> crate::sql::CommandView {
    crate::sqlite::plain(
        crate::sqlite::SELECT_DEVICE_MINUTES@,
        seq![crate::sql::text_param(mac), crate::sql::SqlView::Integer(since_ms)],
    )
}

/// The query for the traffic of a device with a domain.
pub open spec fn domain_minutes(
    mac: Seq<char>,
    domain: Seq<char>,
    since_ms: i64,
) -> crate::sql::CommandView {
    crate::sqlite::plain(
        crate::sqlite::SELECT_DOMAIN_MINUTES@,
        seq![
            crate::sql::text_param(mac),
            crate::sql::text_param(domain),
            crate::sql::SqlView::Integer(since_ms),
        ],
    )
}

/// The query for the domains of a device with the most traffic.
pub open spec fn domain_top(mac: Seq<char>, since_ms: i64, limit: i64) -> crate::sql::CommandView {
    crate::sqlite::plain(
        crate::sqlite::SELECT_DOMAIN_TOP@,
        seq![
            crate::sql::text_param(mac),
            crate::sql::SqlView::Integer(since_ms),
            crate::sql::SqlView::Integer(limit),
        ],
    )
}

/// The query that counts the flows that overlap a range of time.
pub open spec fn flows_in(from_ms: i64, to_ms: i64) -> crate::sql::CommandView {
    crate::sqlite::plain(
        crate::sqlite::COUNT_FLOWS_IN@,
        seq![crate::sql::SqlView::Integer(from_ms), crate::sql::SqlView::Integer(to_ms)],
    )
}

/// The query that counts what was contributed in a range of time.
pub open spec fn contributions_in(from_ms: i64, to_ms: i64) -> crate::sql::CommandView {
    crate::sqlite::plain(
        crate::sqlite::COUNT_CONTRIBUTIONS_IN@,
        seq![crate::sql::SqlView::Integer(from_ms), crate::sql::SqlView::Integer(to_ms)],
    )
}

/// A database that holds what was observed.
pub struct SqliteRepository<D: SqlDriver> {
    pub session: Session<D>,
}

/// Reads every row as a device; one that cannot be read fails the whole.
fn read_devices(rows: &Rows) -> (r: Result<Vec<Device>, StorageError>)
    ensures
        devices_read(r, rows@),
{
    let ghost views = crate::sql::rows_view(rows@);
    let mut out: Vec<Device> = Vec::new();
    let mut i: usize = 0;
    while i < rows.len()
        invariant
            views == crate::sql::rows_view(rows@),
            i <= rows@.len(),
            out@.len() == i,
            forall|k: int|
                #![trigger views[k]]
                0 <= k < i ==> crate::sqlite::device_of(views[k]) == Some(out@[k]@),
        decreases rows@.len() - i,
    {
        proof {
            assert(views[i as int] == crate::sql::row_view(rows@[i as int]@));
        }
        match device_from_row(&rows[i]) {
            Ok(item) => {
                out.push(item);
            },
            Err(e) => {
                return Err(e);
            },
        }
        i = i + 1;
    }
    Ok(out)
}

/// What is made of the rows that were found for an account: the first one is it, where both of its
/// columns can be read.
pub open spec fn account_read(
    r: Result<Option<(String, String)>, StorageError>,
    rows: Seq<Vec<SqlValue>>,
) -> bool {
    let views = crate::sql::rows_view(rows);
    match r {
        Ok(None) => views.len() == 0,
        Ok(Some(account)) => {
            &&& views.len() > 0
            &&& crate::sql::text_column(views[0], 0) == Some(account.0@)
            &&& crate::sql::text_column(views[0], 1) == Some(account.1@)
        },
        Err(e) => {
            &&& views.len() > 0
            &&& crate::sql::text_column(views[0], 0) is None || crate::sql::text_column(
                views[0],
                1,
            ) is None
            &&& e@ == crate::sql::ErrorView::Column
        },
    }
}

/// What is made of the rows that were found for a device: the first one is it, where it can be
/// read.
pub open spec fn device_read(
    r: Result<Option<Device>, StorageError>,
    rows: Seq<Vec<SqlValue>>,
) -> bool {
    let views = crate::sql::rows_view(rows);
    match r {
        Ok(None) => views.len() == 0,
        Ok(Some(device)) => views.len() > 0 && crate::sqlite::device_of(views[0]) == Some(device@),
        Err(e) => {
            &&& views.len() > 0
            &&& crate::sqlite::device_of(views[0]) is None
            &&& e@ == crate::sql::ErrorView::Column
        },
    }
}

/// The rows were read as a device, or one of them could not be.
pub open spec fn devices_read(
    r: Result<Vec<Device>, StorageError>,
    rows: Seq<Vec<SqlValue>>,
) -> bool {
    let views = crate::sql::rows_view(rows);
    match r {
        Ok(items) => {
            &&& items@.len() == views.len()
            &&& forall|k: int|
                #![trigger views[k]]
                0 <= k < views.len() ==> crate::sqlite::device_of(views[k]) == Some(items@[k]@)
        },
        Err(e) => {
            &&& e@ == crate::sql::ErrorView::Column
            &&& exists|k: int|
                0 <= k < views.len() && crate::sqlite::device_of(#[trigger] views[k]) is None
        },
    }
}

/// Reads every row as a flow; one that cannot be read fails the whole.
fn read_flows(rows: &Rows) -> (r: Result<Vec<Flow>, StorageError>)
    ensures
        flows_read(r, rows@),
{
    let ghost views = crate::sql::rows_view(rows@);
    let mut out: Vec<Flow> = Vec::new();
    let mut i: usize = 0;
    while i < rows.len()
        invariant
            views == crate::sql::rows_view(rows@),
            i <= rows@.len(),
            out@.len() == i,
            forall|k: int|
                #![trigger views[k]]
                0 <= k < i ==> crate::sqlite::flow_of(views[k]) == Some(out@[k]@),
        decreases rows@.len() - i,
    {
        proof {
            assert(views[i as int] == crate::sql::row_view(rows@[i as int]@));
        }
        match flow_from_row(&rows[i]) {
            Ok(item) => {
                out.push(item);
            },
            Err(e) => {
                return Err(e);
            },
        }
        i = i + 1;
    }
    Ok(out)
}

/// The rows were read as a flow, or one of them could not be.
pub open spec fn flows_read(
    r: Result<Vec<Flow>, StorageError>,
    rows: Seq<Vec<SqlValue>>,
) -> bool {
    let views = crate::sql::rows_view(rows);
    match r {
        Ok(items) => {
            &&& items@.len() == views.len()
            &&& forall|k: int|
                #![trigger views[k]]
                0 <= k < views.len() ==> crate::sqlite::flow_of(views[k]) == Some(items@[k]@)
        },
        Err(e) => {
            &&& e@ == crate::sql::ErrorView::Column
            &&& exists|k: int|
                0 <= k < views.len() && crate::sqlite::flow_of(#[trigger] views[k]) is None
        },
    }
}

/// Reads every row as a minute of a device; one that cannot be read fails the whole.
fn read_device_minutes(rows: &Rows) -> (r: Result<Vec<DeviceMinuteStat>, StorageError>)
    ensures
        device_minutes_read(r, rows@),
{
    let ghost views = crate::sql::rows_view(rows@);
    let mut out: Vec<DeviceMinuteStat> = Vec::new();
    let mut i: usize = 0;
    while i < rows.len()
        invariant
            views == crate::sql::rows_view(rows@),
            i <= rows@.len(),
            out@.len() == i,
            forall|k: int|
                #![trigger views[k]]
                0 <= k < i ==> crate::sqlite::device_minute_of(views[k]) == Some(out@[k]@),
        decreases rows@.len() - i,
    {
        proof {
            assert(views[i as int] == crate::sql::row_view(rows@[i as int]@));
        }
        match device_minute_from_row(&rows[i]) {
            Ok(item) => {
                out.push(item);
            },
            Err(e) => {
                return Err(e);
            },
        }
        i = i + 1;
    }
    Ok(out)
}

/// The rows were read as a minute of a device, or one of them could not be.
pub open spec fn device_minutes_read(
    r: Result<Vec<DeviceMinuteStat>, StorageError>,
    rows: Seq<Vec<SqlValue>>,
) -> bool {
    let views = crate::sql::rows_view(rows);
    match r {
        Ok(items) => {
            &&& items@.len() == views.len()
            &&& forall|k: int|
                #![trigger views[k]]
                0 <= k < views.len() ==> crate::sqlite::device_minute_of(views[k]) == Some(
                    items@[k]@,
                )
        },
        Err(e) => {
            &&& e@ == crate::sql::ErrorView::Column
            &&& exists|k: int|
                0 <= k < views.len() && crate::sqlite::device_minute_of(#[trigger] views[k]) is None
        },
    }
}

/// Reads every row as a minute of a domain; one that cannot be read fails the whole.
fn read_domain_minutes(rows: &Rows) -> (r: Result<Vec<DomainMinuteStat>, StorageError>)
    ensures
        domain_minutes_read(r, rows@),
{
    let ghost views = crate::sql::rows_view(rows@);
    let mut out: Vec<DomainMinuteStat> = Vec::new();
    let mut i: usize = 0;
    while i < rows.len()
        invariant
            views == crate::sql::rows_view(rows@),
            i <= rows@.len(),
            out@.len() == i,
            forall|k: int|
                #![trigger views[k]]
                0 <= k < i ==> crate::sqlite::domain_minute_of(views[k]) == Some(out@[k]@),
        decreases rows@.len() - i,
    {
        proof {
            assert(views[i as int] == crate::sql::row_view(rows@[i as int]@));
        }
        match domain_minute_from_row(&rows[i]) {
            Ok(item) => {
                out.push(item);
            },
            Err(e) => {
                return Err(e);
            },
        }
        i = i + 1;
    }
    Ok(out)
}

/// The rows were read as a minute of a domain, or one of them could not be.
pub open spec fn domain_minutes_read(
    r: Result<Vec<DomainMinuteStat>, StorageError>,
    rows: Seq<Vec<SqlValue>>,
) -> bool {
    let views = crate::sql::rows_view(rows);
    match r {
        Ok(items) => {
            &&& items@.len() == views.len()
            &&& forall|k: int|
                #![trigger views[k]]
                0 <= k < views.len() ==> crate::sqlite::domain_minute_of(views[k]) == Some(
                    items@[k]@,
                )
        },
        Err(e) => {
            &&& e@ == crate::sql::ErrorView::Column
            &&& exists|k: int|
                0 <= k < views.len() && crate::sqlite::domain_minute_of(#[trigger] views[k]) is None
        },
    }
}

/// Reads every row as the traffic of a domain; one that cannot be read fails the whole.
fn read_domain_summaries(rows: &Rows) -> (r: Result<Vec<DomainTrafficSummary>, StorageError>)
    ensures
        domain_summaries_read(r, rows@),
{
    let ghost views = crate::sql::rows_view(rows@);
    let mut out: Vec<DomainTrafficSummary> = Vec::new();
    let mut i: usize = 0;
    while i < rows.len()
        invariant
            views == crate::sql::rows_view(rows@),
            i <= rows@.len(),
            out@.len() == i,
            forall|k: int|
                #![trigger views[k]]
                0 <= k < i ==> crate::sqlite::domain_summary_of(views[k]) == Some(out@[k]@),
        decreases rows@.len() - i,
    {
        proof {
            assert(views[i as int] == crate::sql::row_view(rows@[i as int]@));
        }
        match domain_summary_from_row(&rows[i]) {
            Ok(item) => {
                out.push(item);
            },
            Err(e) => {
                return Err(e);
            },
        }
        i = i + 1;
    }
    Ok(out)
}

/// The rows were read as the traffic of a domain, or one of them could not be.
pub open spec fn domain_summaries_read(
    r: Result<Vec<DomainTrafficSummary>, StorageError>,
    rows: Seq<Vec<SqlValue>>,
) -> bool {
    let views = crate::sql::rows_view(rows);
    match r {
        Ok(items) => {
            &&& items@.len() == views.len()
            &&& forall|k: int|
                #![trigger views[k]]
                0 <= k < views.len() ==> crate::sqlite::domain_summary_of(views[k]) == Some(
                    items@[k]@,
                )
        },
        Err(e) => {
            &&& e@ == crate::sql::ErrorView::Column
            &&& exists|k: int|
                0 <= k < views.len() && crate::sqlite::domain_summary_of(
                    #[trigger] views[k],
                ) is None
        },
    }
}

/// The first of some rows.
fn take_first(rows: Rows) -> (r: Option<Vec<SqlValue>>)
    ensures
        crate::storage::opt_row_view(r) == crate::trace::first_of(crate::sql::rows_view(rows@)),
{
    let mut rows = rows;
    if rows.len() == 0 {
        None
    } else {
        proof {
            assert(crate::sql::rows_view(rows@)[0] == crate::sql::row_view(rows@[0]@));
        }
        Some(rows.swap_remove(0))
    }
}

/// The timestamp can be rounded down to its minute.
pub open spec fn minute_fits(ts: i64) -> bool {
    crate::domain::minute_of(ts as int) >= i64::MIN
}

/// Tells whether a timestamp can be rounded down to its minute. Only the first minute, which is cut
/// off by the limit of the type, cannot.
fn has_minute(ts: i64) -> (r: bool)
    ensures
        r == minute_fits(ts),
{
    (ts as i128) - (rem_euclid_i64(ts, 60_000) as i128) >= i64::MIN as i128
}

/// Tells whether the time in a state that was read, if it has one, can be rounded to its minute.
fn state_has_minute(state: &Option<Vec<SqlValue>>) -> (r: bool)
    ensures
        r == crate::storage::state_minute_fits(crate::storage::opt_row_view(*state)),
{
    match state {
        Some(row) => match int_at(row, 3) {
            Ok(last_seen) => has_minute(last_seen),
            Err(_) => true,
        },
        None => true,
    }
}

/// The query for the state of a flow.
pub open spec fn state_query(flow_id: Seq<char>) -> crate::sql::CommandView {
    crate::sqlite::plain(
        crate::sqlite::SELECT_STORED_STATE@,
        seq![crate::sql::text_param(flow_id)],
    )
}

/// The query for the contributions of a flow.
pub open spec fn ledger_query(flow_id: Seq<char>) -> crate::sql::CommandView {
    crate::sqlite::plain(
        crate::sqlite::SELECT_CONTRIBUTIONS@,
        seq![crate::sql::text_param(flow_id)],
    )
}

/// Adds two numbers of rows.
fn total(a: usize, b: usize) -> (r: Result<usize, StorageError>)
    ensures
        match r {
            Ok(n) => n == a + b,
            Err(e) => a + b > usize::MAX && e@ == crate::sql::ErrorView::InvalidCounter(
                "row count must be non-negative"@,
            ),
        },
{
    if a > usize::MAX - b {
        Err(StorageError::InvalidCounter("row count must be non-negative".to_owned()))
    } else {
        Ok(a + b)
    }
}

/// Sets the version number of the schema.
pub const SET_SCHEMA_VERSION: &'static str = "PRAGMA user_version = 3";

/// Reads the version number of the schema.
pub const SELECT_SCHEMA_VERSION: &'static str = "PRAGMA user_version";

/// The query for the version number of the schema.
pub open spec fn schema_version() -> crate::sql::CommandView {
    crate::sqlite::plain(SELECT_SCHEMA_VERSION@, seq![])
}

fn schema_version_query() -> (r: Command)
    ensures
        r@ == schema_version(),
{
    let params: Vec<SqlValue> = Vec::new();
    proof {
        assert(crate::sql::row_view(params@) =~= Seq::<crate::sql::SqlView>::empty());
    }
    Command::new(SELECT_SCHEMA_VERSION, params)
}

/// The views of resolved bindings.
pub open spec fn binding_views(bindings: Seq<ResolvedDomainBinding>) -> Seq<
    crate::trace::BindingView,
> {
    bindings.map_values(
        |b: ResolvedDomainBinding|
            crate::trace::BindingView {
                client_mac: b.client_mac@,
                target_ip: b.target_ip@,
                attribution: b.attribution@,
            },
    )
}

impl<D: SqlDriver> SqliteRepository<D> {
    /// Everything that was asked of the database to change it, in order.
    pub open spec fn asked(self) -> Seq<crate::session::Event> {
        self.session.asked()
    }

    /// Uses a database.
    pub fn new(driver: D) -> (r: Self)
        ensures
            r.session.driver() == driver,
            r.asked() == Seq::<crate::session::Event>::empty(),
    {
        SqliteRepository { session: Session::new(driver) }
    }

    fn look(&self, command: Command) -> (r: Result<Rows, StorageError>)
        ensures
            crate::session::answered(self.session.driver(), command@, r),
    {
        self.session.read(&command)
    }

    fn ask(&mut self, command: Command) -> (r: Result<Rows, StorageError>)
        ensures
            final(self).asked() == old(self).asked().push(
                crate::session::Event::Query(command@, crate::session::rows_answer(r)),
            ),
    {
        self.session.query(&command)
    }

    /// Reads the number that a query yields.
    fn ask_number(&mut self, command: Command) -> (r: Result<usize, StorageError>)
        ensures
            crate::trace::counted(
                old(self).asked(),
                final(self).asked(),
                command@,
                crate::session::answer(r),
            ),
    {
        let ghost c = command@;
        let answer = self.ask(command);
        proof {
            assert(self.asked() == crate::trace::after_query(
                old(self).asked(),
                c,
                crate::session::rows_answer(answer),
            ));
        }
        let rows = match answer {
            Ok(rows) => rows,
            Err(e) => {
                return Err(e);
            },
        };
        if rows.len() == 0 {
            return Err(StorageError::Column);
        }
        proof {
            assert(crate::sql::rows_view(rows@)[0] == crate::sql::row_view(rows@[0]@));
        }
        match int_at(&rows[0], 0) {
            Ok(n) => count_rows(n),
            Err(e) => Err(e),
        }
    }

    /// Carries out one change: all its commands, in order. Tells how many rows the first of them
    /// changed.
    fn run_statement(&mut self, statement: &Statement) -> (r: Result<usize, StorageError>)
        ensures
            match r {
                Ok(first) => exists|n: Seq<usize>| #[trigger]
                    crate::trace::change_done(
                        old(self).asked(),
                        final(self).asked(),
                        statement@,
                        n,
                    ) && n.len() > 0 && first == n[0],
                Err(e) => crate::trace::change_failed(
                    old(self).asked(),
                    final(self).asked(),
                    statement@,
                    e@,
                ),
            },
    {
        let ghost before = self.asked();
        let commands = statement.commands();
        let ghost views = crate::sqlite::commands_of(statement@);
        let ghost mut counts: Seq<usize> = Seq::empty();
        let mut first: usize = 0;
        let mut i: usize = 0;
        proof {
            assert(before + crate::trace::executed(views.take(0), counts) =~= before);
        }
        while i < commands.len()
            invariant
                views == crate::sqlite::commands_of(statement@),
                crate::sql::commands_view(commands@) == views,
                i <= commands@.len(),
                crate::trace::rows_changed(views.take(i as int), counts),
                self.asked() == before + crate::trace::executed(views.take(i as int), counts),
                i > 0 ==> first == counts[0],
                before == old(self).asked(),
            decreases commands@.len() - i,
        {
            proof {
                assert(views[i as int] == commands@[i as int]@);
            }
            let outcome = self.session.execute(&commands[i]);
            let ghost done = before + crate::trace::executed(views.take(i as int), counts);
            proof {
                assert(self.asked() == crate::trace::after_command(
                    done,
                    views[i as int],
                    crate::session::answer(outcome),
                ));
            }
            let changed: usize = match outcome {
                Ok(changed) => changed,
                Err(e) => {
                    proof {
                        assert(crate::trace::command_failed(
                            done,
                            self.asked(),
                            views[i as int],
                            e@,
                        ));
                    }
                    return Err(e);
                },
            };
            if let Err(e) = commands[i].check(changed) {
                proof {
                    assert(crate::trace::command_failed(done, self.asked(), views[i as int], e@));
                }
                return Err(e);
            }
            if i == 0 {
                first = changed;
            }
            proof {
                let more = counts.push(changed);
                assert(crate::trace::rows_changed(views.take(i + 1), more)) by {
                    assert forall|k: int| 0 <= k < more.len() implies crate::trace::row_changed(
                        views.take(i + 1)[k],
                        #[trigger] more[k],
                    ) by {
                        if k < i {
                            assert(more[k] == counts[k]);
                            assert(views.take(i as int)[k] == views.take(i + 1)[k]);
                        }
                    }
                }
                assert(self.asked() =~= before + crate::trace::executed(views.take(i + 1), more));
                counts = more;
            }
            i = i + 1;
        }
        proof {
            assert(views.take(i as int) =~= views);
            assert(views.len() > 0);
            assert(crate::trace::change_done(before, self.asked(), statement@, counts));
        }
        Ok(first)
    }

    /// Carries out changes in order, up to the first that fails. Tells how many rows the first
    /// command of each changed.
    fn run(&mut self, statements: &Vec<Statement>) -> (r: Result<Vec<usize>, StorageError>)
        ensures
            match r {
                Ok(changed) => exists|n: Seq<Seq<usize>>| #[trigger]
                    crate::trace::changes_done(
                        old(self).asked(),
                        final(self).asked(),
                        crate::storage::statements_view(statements@),
                        n,
                    ) && changed@ == crate::trace::first_counts(n),
                Err(e) => crate::trace::changes_failed(
                    old(self).asked(),
                    final(self).asked(),
                    crate::storage::statements_view(statements@),
                    e@,
                ),
            },
    {
        let ghost before = self.asked();
        let ghost views = crate::storage::statements_view(statements@);
        let ghost mut counts: Seq<Seq<usize>> = Seq::empty();
        let mut out: Vec<usize> = Vec::new();
        let mut i: usize = 0;
        proof {
            assert(before + crate::trace::events_of(views.take(0), counts) =~= before);
            assert(out@ =~= crate::trace::first_counts(counts));
        }
        while i < statements.len()
            invariant
                views == crate::storage::statements_view(statements@),
                i <= statements@.len(),
                crate::trace::changes_done(before, self.asked(), views.take(i as int), counts),
                out@ == crate::trace::first_counts(counts),
                before == old(self).asked(),
            decreases statements@.len() - i,
        {
            let ghost mid = self.asked();
            proof {
                assert(views[i as int] == statements@[i as int]@);
            }
            match self.run_statement(&statements[i]) {
                Ok(first) => {
                    proof {
                        let n = choose|n: Seq<usize>| #[trigger]
                            crate::trace::change_done(mid, self.asked(), views[i as int], n)
                                && n.len() > 0 && first == n[0];
                        let more = counts.push(n);
                        let done = views.take(i + 1);
                        assert(done.drop_last() =~= views.take(i as int));
                        assert(more.drop_last() =~= counts);
                        assert(done.last() == views[i as int]);
                        assert(self.asked() =~= before + crate::trace::events_of(done, more));
                        assert forall|k: int| 0 <= k < done.len() implies crate::trace::rows_changed(
                            crate::sqlite::commands_of(done[k]),
                            #[trigger] more[k],
                        ) by {
                            if k < i {
                                assert(more[k] == counts[k]);
                                assert(views.take(i as int)[k] == done[k]);
                            }
                        }
                        assert(out@.push(first) =~= crate::trace::first_counts(more));
                        counts = more;
                    }
                    out.push(first);
                },
                Err(e) => {
                    proof {
                        assert(crate::trace::changes_done(
                            before,
                            mid,
                            views.take(i as int),
                            counts,
                        ));
                    }
                    return Err(e);
                },
            }
            i = i + 1;
        }
        proof {
            assert(views.take(i as int) =~= views);
        }
        Ok(out)
    }

    /// Ends a transaction: what succeeded is committed, what failed is rolled back.
    fn finish<T>(&mut self, outcome: Result<T, StorageError>) -> (r: Result<T, StorageError>)
        ensures
            match (outcome, r) {
                (Ok(value), Ok(given)) => given == value && crate::trace::committed(
                    old(self).asked(),
                    final(self).asked(),
                ),
                (Ok(_), Err(e)) => crate::trace::not_committed(
                    old(self).asked(),
                    final(self).asked(),
                    e@,
                ),
                (Err(x), Err(e)) => e == x && crate::trace::undone(
                    old(self).asked(),
                    final(self).asked(),
                ),
                _ => false,
            },
    {
        match outcome {
            Ok(value) => match self.session.commit() {
                Ok(_) => Ok(value),
                Err(e) => {
                    let undoing = self.session.rollback();
                    proof {
                        assert(self.asked() == crate::trace::after_rollback(
                            old(self).asked().push(crate::session::Event::Commit(Err(e@))),
                            crate::session::answer(undoing),
                        ));
                    }
                    Err(e)
                },
            },
            Err(e) => {
                let undoing = self.session.rollback();
                proof {
                    assert(self.asked() == crate::trace::after_rollback(
                        old(self).asked(),
                        crate::session::answer(undoing),
                    ));
                }
                Err(e)
            },
        }
    }

    /// Reads the state and the contributions of a flow.
    fn load(&mut self, flow_id: &str) -> (r: Result<LoadedFlow, StorageError>)
        ensures
            match r {
                Ok(f) => f@.flow_id == flow_id@ && crate::trace::flow_loaded(
                    old(self).asked(),
                    final(self).asked(),
                    f@,
                ),
                Err(e) => crate::trace::load_failed(
                    old(self).asked(),
                    final(self).asked(),
                    flow_id@,
                    e@,
                ),
            },
    {
        let state = match self.ask(stored_state_query(flow_id)) {
            Ok(rows) => rows,
            Err(e) => {
                return Err(e);
            },
        };
        let ghost rows = crate::sql::rows_view(state@);
        let ghost mid = crate::trace::after_query(
            old(self).asked(),
            state_query(flow_id@),
            Ok(rows),
        );
        let ledger = match self.ask(contributions_query(flow_id)) {
            Ok(rows) => rows,
            Err(e) => {
                proof {
                    assert(self.asked() == crate::trace::after_query(
                        mid,
                        ledger_query(flow_id@),
                        Err(e@),
                    ));
                }
                return Err(e);
            },
        };
        let loaded = LoadedFlow { flow_id: flow_id.to_owned(), state: take_first(state), ledger };
        proof {
            assert(self.asked() == crate::trace::after_query(
                mid,
                ledger_query(flow_id@),
                Ok(loaded@.ledger),
            ));
        }
        Ok(loaded)
    }

    /// Stores a snapshot of a flow.
    fn store(&mut self, flow: &Flow) -> (r: Result<(), StorageError>)
        ensures
            match r {
                Ok(_) => crate::trace::flow_stored(
                    old(self).asked(),
                    final(self).asked(),
                    flow@,
                ),
                Err(e) => crate::trace::flow_refused(
                    old(self).asked(),
                    final(self).asked(),
                    flow@,
                    e@,
                ),
            },
    {
        let loaded = match self.load(flow.flow_id.as_str()) {
            Ok(loaded) => loaded,
            Err(e) => {
                return Err(e);
            },
        };
        let ghost mid = self.asked();
        proof {
            assert(crate::trace::flow_loaded(old(self).asked(), mid, loaded@));
        }
        if !has_minute(flow.last_seen) || !state_has_minute(&loaded.state) {
            return Err(StorageError::Column);
        }
        let changes = match upsert_flow_tx(flow, &loaded.state, &loaded.ledger) {
            Ok(changes) => changes,
            Err(e) => {
                return Err(e);
            },
        };
        match self.run(&changes) {
            Ok(_) => Ok(()),
            Err(e) => Err(e),
        }
    }

    /// Stores snapshots of flows, one after the other.
    fn store_all(&mut self, flows: &Vec<Flow>) -> (r: Result<(), StorageError>)
        ensures
            match r {
                Ok(_) => crate::trace::flows_stored(
                    old(self).asked(),
                    final(self).asked(),
                    crate::dns::flow_views(flows@),
                ),
                Err(e) => crate::trace::flows_refused(
                    old(self).asked(),
                    final(self).asked(),
                    crate::dns::flow_views(flows@),
                    e@,
                ),
            },
    {
        let ghost before = self.asked();
        let ghost views = crate::dns::flow_views(flows@);
        let mut i: usize = 0;
        while i < flows.len()
            invariant
                views == crate::dns::flow_views(flows@),
                i <= flows@.len(),
                crate::trace::flows_stored(before, self.asked(), views.take(i as int)),
                before == old(self).asked(),
            decreases flows@.len() - i,
        {
            let ghost mid = self.asked();
            proof {
                assert(views[i as int] == flows@[i as int]@);
                assert(views.take(i + 1).drop_last() =~= views.take(i as int));
                assert(views.take(i + 1).last() == views[i as int]);
                assert(crate::trace::flows_stored(before, mid, views.take(i as int)));
            }
            if let Err(e) = self.store(&flows[i]) {
                return Err(e);
            }
            proof {
                assert(crate::trace::flows_stored(before, self.asked(), views.take(i + 1)));
            }
            i = i + 1;
        }
        proof {
            assert(views.take(i as int) =~= views);
        }
        Ok(())
    }

    /// Lists and reads the flows that a binding covers.
    fn load_covered(&mut self, binding: &ResolvedDomainBinding) -> (r: Result<
        Vec<LoadedFlow>,
        StorageError,
    >)
        ensures
            match r {
                Ok(flows) => {
                    &&& forall|k: int|
                        0 <= k < flows@.len() ==> crate::storage::loaded_minute_fits(
                            (#[trigger] flows@[k])@,
                        )
                    &&& crate::trace::covered_loaded(
                        old(self).asked(),
                        final(self).asked(),
                        binding.client_mac@,
                        binding.target_ip@,
                        binding.attribution@,
                        crate::storage::loaded_views(flows@),
                    )
                },
                Err(e) => crate::trace::covered_refused(
                    old(self).asked(),
                    final(self).asked(),
                    binding.client_mac@,
                    binding.target_ip@,
                    binding.attribution@,
                    e@,
                ),
            },
    {
        let ghost before = self.asked();
        let ids = match self.ask(covered_flows_query(binding)) {
            Ok(ids) => ids,
            Err(e) => {
                return Err(e);
            },
        };
        let ghost rows = crate::sql::rows_view(ids@);
        let ghost start = crate::trace::listed(
            before,
            binding.client_mac@,
            binding.target_ip@,
            binding.attribution@,
            rows,
        );
        let mut flows: Vec<LoadedFlow> = Vec::new();
        let mut i: usize = 0;
        proof {
            assert(crate::storage::loaded_views(flows@) =~= Seq::<
                crate::storage::LoadedView,
            >::empty());
        }
        while i < ids.len()
            invariant
                rows == crate::sql::rows_view(ids@),
                start == crate::trace::listed(
                    before,
                    binding.client_mac@,
                    binding.target_ip@,
                    binding.attribution@,
                    rows,
                ),
                before == old(self).asked(),
                i <= ids@.len(),
                flows@.len() == i,
                crate::trace::all_loaded(
                    start,
                    self.asked(),
                    crate::storage::loaded_views(flows@),
                ),
                crate::trace::names_flows(rows, crate::storage::loaded_views(flows@)),
                forall|k: int|
                    0 <= k < i ==> crate::storage::loaded_minute_fits((#[trigger] flows@[k])@),
            decreases ids@.len() - i,
        {
            let ghost mid = self.asked();
            let ghost views = crate::storage::loaded_views(flows@);
            proof {
                assert(rows[i as int] == crate::sql::row_view(ids@[i as int]@));
                assert(crate::trace::all_loaded(start, mid, views));
                assert(views.len() == i);
            }
            let flow_id = match text_at(&ids[i], 0) {
                Ok(flow_id) => flow_id,
                Err(e) => {
                    proof {
                        assert(crate::trace::listed_refused(
                            mid,
                            self.asked(),
                            rows[views.len() as int],
                            e@,
                        ));
                    }
                    return Err(e);
                },
            };
            let loaded = match self.load(flow_id.as_str()) {
                Ok(loaded) => loaded,
                Err(e) => {
                    proof {
                        assert(crate::trace::listed_refused(
                            mid,
                            self.asked(),
                            rows[views.len() as int],
                            e@,
                        ));
                    }
                    return Err(e);
                },
            };
            proof {
                assert(crate::trace::flow_loaded(mid, self.asked(), loaded@));
            }
            if !state_has_minute(&loaded.state) {
                let e = StorageError::Column;
                proof {
                    assert(crate::trace::listed_refused(
                        mid,
                        self.asked(),
                        rows[views.len() as int],
                        e@,
                    ));
                }
                return Err(e);
            }
            let ghost more = views.push(loaded@);
            flows.push(loaded);
            proof {
                assert(crate::storage::loaded_views(flows@) =~= more);
                assert(more.drop_last() =~= views);
                assert(crate::trace::flow_loaded(mid, self.asked(), more.last()));
                assert(crate::trace::all_loaded(start, self.asked(), more));
                assert forall|k: int|
                    #![trigger more[k]]
                    0 <= k < more.len() implies crate::sql::text_column(rows[k], 0) == Some(
                    more[k].flow_id,
                ) by {
                    if k < i {
                        assert(views[k] == more[k]);
                    }
                }
            }
            i = i + 1;
        }
        Ok(flows)
    }

    /// Applies a binding to the flows that it covers, and tells how many changed.
    fn apply_binding(&mut self, binding: &ResolvedDomainBinding) -> (r: Result<
        usize,
        StorageError,
    >)
        ensures
            match r {
                Ok(n) => crate::trace::binding_applied(
                    old(self).asked(),
                    final(self).asked(),
                    binding.client_mac@,
                    binding.target_ip@,
                    binding.attribution@,
                    n as nat,
                ),
                Err(e) => crate::trace::binding_refused(
                    old(self).asked(),
                    final(self).asked(),
                    binding.client_mac@,
                    binding.target_ip@,
                    binding.attribution@,
                    e@,
                ),
            },
    {
        let flows = match self.load_covered(binding) {
            Ok(flows) => flows,
            Err(e) => {
                return Err(e);
            },
        };
        let ghost mid = self.asked();
        proof {
            assert(crate::trace::covered_loaded(
                old(self).asked(),
                mid,
                binding.client_mac@,
                binding.target_ip@,
                binding.attribution@,
                crate::storage::loaded_views(flows@),
            ));
        }
        let (changes, updated) = match backfill_domain_binding_tx(binding, &flows) {
            Ok(outcome) => outcome,
            Err(e) => {
                return Err(e);
            },
        };
        match self.run(&changes) {
            Ok(_) => Ok(updated),
            Err(e) => Err(e),
        }
    }

    /// Applies bindings in order, and tells how many flows changed in all.
    fn apply_bindings(&mut self, bindings: &Vec<ResolvedDomainBinding>) -> (r: Result<
        usize,
        StorageError,
    >)
        ensures
            match r {
                Ok(n) => crate::trace::bindings_applied(
                    old(self).asked(),
                    final(self).asked(),
                    binding_views(bindings@),
                    n as nat,
                ),
                Err(e) => crate::trace::bindings_refused(
                    old(self).asked(),
                    final(self).asked(),
                    binding_views(bindings@),
                    e@,
                ),
            },
    {
        let ghost before = self.asked();
        let ghost views = binding_views(bindings@);
        let mut updated: usize = 0;
        let mut i: usize = 0;
        while i < bindings.len()
            invariant
                views == binding_views(bindings@),
                before == old(self).asked(),
                i <= bindings@.len(),
                crate::trace::bindings_applied(
                    before,
                    self.asked(),
                    views.take(i as int),
                    updated as nat,
                ),
            decreases bindings@.len() - i,
        {
            let ghost mid = self.asked();
            let ghost done = views.take(i + 1);
            proof {
                assert(done.drop_last() =~= views.take(i as int));
                assert(done.last() == views[i as int]);
                assert(crate::trace::bindings_applied(
                    before,
                    mid,
                    views.take(i as int),
                    updated as nat,
                ));
            }
            let changed: usize = match self.apply_binding(&bindings[i]) {
                Ok(changed) => changed,
                Err(e) => {
                    return Err(e);
                },
            };
            proof {
                let sum = (updated + changed) as nat;
                let b = done.last();
                assert(crate::trace::binding_applied(
                    mid,
                    self.asked(),
                    b.client_mac,
                    b.target_ip,
                    b.attribution,
                    changed as nat,
                ));
                assert((sum - changed as nat) as nat == updated as nat);
                assert(crate::trace::bindings_applied(before, self.asked(), done, sum));
            }
            updated = match total(updated, changed) {
                Ok(sum) => sum,
                Err(e) => {
                    return Err(e);
                },
            };
            i = i + 1;
        }
        proof {
            assert(views.take(i as int) =~= views);
        }
        Ok(updated)
    }

    /// Removes a device, if it is known.
    fn delete_device(&mut self, mac_address: &str) -> (r: Result<
        Option<DataDeletionResult>,
        StorageError,
    >)
        ensures
            match r {
                Ok(None) => crate::trace::device_unknown(
                    old(self).asked(),
                    final(self).asked(),
                    mac_address@,
                ),
                Ok(Some(done)) => crate::trace::device_gone(
                    old(self).asked(),
                    final(self).asked(),
                    mac_address@,
                    done,
                ),
                Err(e) => crate::trace::device_kept(
                    old(self).asked(),
                    final(self).asked(),
                    mac_address@,
                    e@,
                ),
            },
    {
        let ghost before = self.asked();
        let found = match self.ask(device_exists_query(mac_address)) {
            Ok(rows) => rows,
            Err(e) => {
                return Err(e);
            },
        };
        let ghost rows = crate::sql::rows_view(found@);
        let ghost start = crate::trace::looked_for(before, mac_address@, rows);
        proof {
            assert(self.asked() == start);
        }
        let changes = match delete_device_data_tx(mac_address, found.len() > 0) {
            Some(changes) => changes,
            None => {
                return Ok(None);
            },
        };
        let flows: usize = match self.ask_number(device_flow_count_query(mac_address)) {
            Ok(n) => n,
            Err(e) => {
                return Err(e);
            },
        };
        let ghost mid = self.asked();
        proof {
            assert(crate::trace::counted(start, mid, flow_count(mac_address@), Ok(flows)));
        }
        let contributions: usize = match self.ask_number(
            device_contribution_count_query(mac_address),
        ) {
            Ok(n) => n,
            Err(e) => {
                return Err(e);
            },
        };
        proof {
            assert(crate::trace::device_counted(
                before,
                self.asked(),
                mac_address@,
                flows,
                contributions,
            ));
        }
        let ghost counting = self.asked();
        match self.run(&changes) {
            Ok(changed) => {
                proof {
                    let n = choose|n: Seq<Seq<usize>>| #[trigger]
                        crate::trace::changes_done(
                            counting,
                            self.asked(),
                            crate::storage::device_deleted(mac_address@),
                            n,
                        ) && changed@ == crate::trace::first_counts(n);
                    assert(n.len() == 4);
                    assert(changed@[0] == n[0][0]);
                    assert(changed@[1] == n[1][0]);
                }
                let done = device_deletion_result(flows, contributions, &changed);
                proof {
                    assert(crate::trace::device_counted(
                        before,
                        counting,
                        mac_address@,
                        done.flows_deleted,
                        done.contributions_deleted,
                    ));
                    assert(crate::trace::device_gone(before, self.asked(), mac_address@, done));
                }
                Ok(Some(done))
            },
            Err(e) => Err(e),
        }
    }

    /// Removes a range of time.
    fn delete_range(&mut self, from_ms: i64, to_ms: i64) -> (r: Result<
        DataDeletionResult,
        StorageError,
    >)
        ensures
            match r {
                Ok(done) => crate::trace::range_gone(
                    old(self).asked(),
                    final(self).asked(),
                    from_ms,
                    to_ms,
                    done,
                ),
                Err(e) => crate::trace::range_kept(
                    old(self).asked(),
                    final(self).asked(),
                    from_ms,
                    to_ms,
                    e@,
                ),
            },
    {
        let ghost before = self.asked();
        let contributions: usize = match self.ask_number(
            range_contribution_count_query(from_ms, to_ms),
        ) {
            Ok(n) => n,
            Err(e) => {
                return Err(e);
            },
        };
        let ghost mid = self.asked();
        proof {
            assert(crate::trace::counted(
                before,
                mid,
                contributions_in(from_ms, to_ms),
                Ok(contributions),
            ));
        }
        let flows: usize = match self.ask_number(range_flow_count_query(from_ms, to_ms)) {
            Ok(n) => n,
            Err(e) => {
                return Err(e);
            },
        };
        proof {
            assert(crate::trace::range_counted(
                before,
                self.asked(),
                from_ms,
                to_ms,
                flows,
                contributions,
            ));
        }
        let ghost counting = self.asked();
        match self.run(&delete_data_range_tx(from_ms, to_ms)) {
            Ok(changed) => {
                proof {
                    let n = choose|n: Seq<Seq<usize>>| #[trigger]
                        crate::trace::changes_done(
                            counting,
                            self.asked(),
                            crate::storage::range_deleted(from_ms, to_ms),
                            n,
                        ) && changed@ == crate::trace::first_counts(n);
                    assert(n.len() == 4);
                    assert(changed@[0] == n[0][0]);
                    assert(changed@[1] == n[1][0]);
                }
                let done = range_deletion_result(flows, contributions, &changed);
                proof {
                    assert(crate::trace::range_counted(
                        before,
                        counting,
                        from_ms,
                        to_ms,
                        done.flows_deleted,
                        done.contributions_deleted,
                    ));
                    assert(crate::trace::range_gone(before, self.asked(), from_ms, to_ms, done));
                }
                Ok(done)
            },
            Err(e) => Err(e),
        }
    }

    /// Runs batches in order, up to the first that fails.
    fn upgrade(&mut self, batches: &Vec<&'static str>) -> (r: Result<(), StorageError>)
        ensures
            match r {
                Ok(_) => final(self).asked() == old(self).asked() + crate::trace::batches_run(
                    crate::schema::batch_views(batches@),
                ),
                Err(e) => crate::trace::upgrade_failed(
                    old(self).asked(),
                    final(self).asked(),
                    crate::schema::batch_views(batches@),
                    e@,
                ),
            },
    {
        let ghost before = self.asked();
        let ghost views = crate::schema::batch_views(batches@);
        let mut i: usize = 0;
        proof {
            assert(before + crate::trace::batches_run(views.take(0)) =~= before);
        }
        while i < batches.len()
            invariant
                views == crate::schema::batch_views(batches@),
                before == old(self).asked(),
                i <= batches@.len(),
                self.asked() == before + crate::trace::batches_run(views.take(i as int)),
            decreases batches@.len() - i,
        {
            proof {
                assert(views[i as int] == batches@[i as int]@);
            }
            if let Err(e) = self.session.batch(batches[i]) {
                return Err(e);
            }
            proof {
                assert(self.asked() =~= before + crate::trace::batches_run(views.take(i + 1)));
            }
            i = i + 1;
        }
        proof {
            assert(views.take(i as int) =~= views);
        }
        Ok(())
    }

    /// Brings the schema up to date, in one transaction: a migration that fails leaves neither a
    /// part of it nor the new version number behind. A schema that is newer than this library is
    /// left alone.
    pub fn migrate(&mut self) -> (r: Result<(), StorageError>)
        ensures
            match r {
                Ok(_) => crate::trace::migrated(old(self).asked(), final(self).asked()),
                Err(e) => crate::trace::not_migrated(old(self).asked(), final(self).asked(), e@),
            },
    {
        let rows = match self.ask(schema_version_query()) {
            Ok(rows) => rows,
            Err(e) => {
                return Err(e);
            },
        };
        let ghost views = crate::sql::rows_view(rows@);
        let ghost asked = crate::trace::version_asked(old(self).asked(), views);
        proof {
            assert(self.asked() == asked);
        }
        if rows.len() == 0 {
            return Err(StorageError::Column);
        }
        proof {
            assert(views[0] == crate::sql::row_view(rows@[0]@));
        }
        let number: i64 = match int_at(&rows[0], 0) {
            Ok(number) => number,
            Err(e) => {
                return Err(e);
            },
        };
        if number < i32::MIN as i64 || number > i32::MAX as i64 {
            return Err(StorageError::Column);
        }
        let version: i32 = number as i32;
        let mut batches = match crate::schema::migrate(version) {
            Ok(batches) => batches,
            Err(e) => {
                return Err(e);
            },
        };
        let ghost steps = crate::schema::batch_views(batches@);
        batches.push(SET_SCHEMA_VERSION);
        proof {
            assert(crate::schema::batch_views(batches@) =~= crate::trace::upgrade_of(version));
        }
        if let Err(e) = self.session.begin() {
            return Err(e);
        }
        let outcome = self.upgrade(&batches);
        let ghost mid = self.asked();
        proof {
            assert(outcome matches Err(e) ==> crate::trace::upgrade_failed(
                crate::trace::begun(asked),
                mid,
                crate::trace::upgrade_of(version),
                e@,
            ));
        }
        self.finish(outcome)
    }

    /// Finds the account that was created first; there is one administrator.
    pub fn first_local_account(&self) -> (r: Result<Option<(String, String)>, StorageError>)
        ensures
            exists|answer: Result<Rows, StorageError>| #[trigger]
                crate::session::answered(
                    self.session.driver(),
                    account_query(),
                    answer,
                ) && match answer {
                    Ok(rows) => account_read(r, rows@),
                    Err(e) => r == Err::<Option<(String, String)>, StorageError>(e),
                },
    {
        match self.look(first_account_query()) {
            Ok(rows) => if rows.len() == 0 {
                Ok(None)
            } else {
                match account_from_row(&rows[0]) {
                    Ok(account) => Ok(Some(account)),
                    Err(e) => Err(e),
                }
            },
            Err(e) => Err(e),
        }
    }

    /// Creates an account while there is none, and tells whether it did.
    pub fn insert_local_account_if_missing(&mut self, username: &str, password_hash: &str) -> (r:
        Result<bool, StorageError>)
        ensures
            exists|outcome: Result<usize, crate::sql::ErrorView>|
                final(self).asked() == #[trigger] crate::trace::after_command(
                    old(self).asked(),
                    account_insertion(username@, password_hash@),
                    outcome,
                ) && match (r, outcome) {
                    (Ok(created), Ok(changed)) => created == (changed == 1),
                    (Err(e), Err(x)) => e@ == x,
                    _ => false,
                },
    {
        let command = insert_account(username, password_hash);
        let outcome = self.session.execute(&command);
        proof {
            assert(self.asked() == crate::trace::after_command(
                old(self).asked(),
                account_insertion(username@, password_hash@),
                crate::session::answer(outcome),
            ));
        }
        match outcome {
            Ok(changed) => Ok(changed == 1),
            Err(e) => Err(e),
        }
    }
}

/// A device was removed in one transaction, or is not known.
pub open spec fn device_deletion_done(
    before: Seq<crate::session::Event>,
    after: Seq<crate::session::Event>,
    mac: Seq<char>,
    r: Option<DataDeletionResult>,
) -> bool {
    exists|mid: Seq<crate::session::Event>| #[trigger]
        crate::trace::committed(mid, after) && match r {
            None => crate::trace::device_unknown(crate::trace::begun(before), mid, mac),
            Some(done) => crate::trace::device_gone(crate::trace::begun(before), mid, mac, done),
        }
}

/// A device was to be removed in one transaction, which failed and was undone.
pub open spec fn device_deletion_undone(
    before: Seq<crate::session::Event>,
    after: Seq<crate::session::Event>,
    mac: Seq<char>,
    e: crate::sql::ErrorView,
) -> bool {
    ||| crate::trace::not_begun(before, after, e)
    ||| exists|mid: Seq<crate::session::Event>| #[trigger]
        crate::trace::device_kept(crate::trace::begun(before), mid, mac, e)
            && crate::trace::undone(mid, after)
    ||| exists|mid: Seq<crate::session::Event>| #[trigger]
        crate::trace::device_unknown(crate::trace::begun(before), mid, mac)
            && crate::trace::not_committed(mid, after, e)
    ||| exists|mid: Seq<crate::session::Event>, done: DataDeletionResult| #[trigger]
        crate::trace::device_gone(crate::trace::begun(before), mid, mac, done)
            && crate::trace::not_committed(mid, after, e)
}

/// A domain was removed in one transaction.
pub open spec fn domain_deletion_done(
    before: Seq<crate::session::Event>,
    after: Seq<crate::session::Event>,
    mac: Option<Seq<char>>,
    domain: Seq<char>,
    done: DataDeletionResult,
) -> bool {
    exists|mid: Seq<crate::session::Event>| #[trigger]
        crate::trace::domain_gone(crate::trace::begun(before), mid, mac, domain, done)
            && crate::trace::committed(mid, after)
}

/// A domain was to be removed in one transaction, which failed and was undone.
pub open spec fn domain_deletion_undone(
    before: Seq<crate::session::Event>,
    after: Seq<crate::session::Event>,
    mac: Option<Seq<char>>,
    domain: Seq<char>,
    e: crate::sql::ErrorView,
) -> bool {
    ||| crate::trace::not_begun(before, after, e)
    ||| exists|mid: Seq<crate::session::Event>| #[trigger]
        crate::trace::changes_failed(
            crate::trace::begun(before),
            mid,
            crate::storage::domain_deleted(mac, domain),
            e,
        ) && crate::trace::undone(mid, after)
    ||| exists|mid: Seq<crate::session::Event>, done: DataDeletionResult| #[trigger]
        crate::trace::domain_gone(crate::trace::begun(before), mid, mac, domain, done)
            && crate::trace::not_committed(mid, after, e)
}

/// A range of time was removed in one transaction.
pub open spec fn range_deletion_done(
    before: Seq<crate::session::Event>,
    after: Seq<crate::session::Event>,
    from_ms: i64,
    to_ms: i64,
    done: DataDeletionResult,
) -> bool {
    exists|mid: Seq<crate::session::Event>| #[trigger]
        crate::trace::range_gone(crate::trace::begun(before), mid, from_ms, to_ms, done)
            && crate::trace::committed(mid, after)
}

/// A range of time was to be removed in one transaction, which failed and was undone.
pub open spec fn range_deletion_undone(
    before: Seq<crate::session::Event>,
    after: Seq<crate::session::Event>,
    from_ms: i64,
    to_ms: i64,
    e: crate::sql::ErrorView,
) -> bool {
    ||| crate::trace::not_begun(before, after, e)
    ||| exists|mid: Seq<crate::session::Event>| #[trigger]
        crate::trace::range_kept(crate::trace::begun(before), mid, from_ms, to_ms, e)
            && crate::trace::undone(mid, after)
    ||| exists|mid: Seq<crate::session::Event>, done: DataDeletionResult| #[trigger]
        crate::trace::range_gone(crate::trace::begun(before), mid, from_ms, to_ms, done)
            && crate::trace::not_committed(mid, after, e)
}

/// Bindings were applied in one transaction.
pub open spec fn backfill_done(
    before: Seq<crate::session::Event>,
    after: Seq<crate::session::Event>,
    bindings: Seq<crate::trace::BindingView>,
    updated: nat,
) -> bool {
    exists|mid: Seq<crate::session::Event>| #[trigger]
        crate::trace::bindings_applied(crate::trace::begun(before), mid, bindings, updated)
            && crate::trace::committed(mid, after)
}

/// Bindings were to be applied in one transaction, which failed and was undone.
pub open spec fn backfill_undone(
    before: Seq<crate::session::Event>,
    after: Seq<crate::session::Event>,
    bindings: Seq<crate::trace::BindingView>,
    e: crate::sql::ErrorView,
) -> bool {
    ||| crate::trace::not_begun(before, after, e)
    ||| exists|mid: Seq<crate::session::Event>| #[trigger]
        crate::trace::bindings_refused(crate::trace::begun(before), mid, bindings, e)
            && crate::trace::undone(mid, after)
    ||| exists|mid: Seq<crate::session::Event>, updated: nat| #[trigger]
        crate::trace::bindings_applied(crate::trace::begun(before), mid, bindings, updated)
            && crate::trace::not_committed(mid, after, e)
}

impl<D: SqlDriver> RouteScopeRepository for SqliteRepository<D> {
    /// Notes a device; a name that it has already stays where none is given.
    fn upsert_device(&mut self, device: &Device) -> (r: Result<(), StorageError>)
        ensures
            ({
                let change = crate::storage::StatementView::UpsertDevice {
                    mac_address: device@.mac_address,
                    display_name: device@.display_name,
                    current_ip: device@.current_ip,
                };
                match r {
                    Ok(_) => exists|n: Seq<usize>| #[trigger]
                        crate::trace::change_done(
                            old(self).asked(),
                            final(self).asked(),
                            change,
                            n,
                        ),
                    Err(e) => crate::trace::change_failed(
                        old(self).asked(),
                        final(self).asked(),
                        change,
                        e@,
                    ),
                }
            }),
    {
        match self.run_statement(&upsert_device_tx(device)) {
            Ok(_) => Ok(()),
            Err(e) => Err(e),
        }
    }

    /// Stores a snapshot of a flow, in one transaction.
    fn upsert_flow(&mut self, flow: &Flow) -> (r: Result<(), StorageError>)
        ensures
            match r {
                Ok(_) => crate::domain::flow_valid(flow@) && crate::trace::batch_stored(
                    old(self).asked(),
                    final(self).asked(),
                    seq![flow@],
                ),
                Err(e) => match crate::domain::flow_fault(flow@) {
                    Some(fault) => {
                        &&& e@ == crate::sql::ErrorView::InvalidFlow(fault)
                        &&& final(self).asked() == old(self).asked()
                    },
                    None => crate::trace::batch_undone(
                        old(self).asked(),
                        final(self).asked(),
                        seq![flow@],
                        e@,
                    ),
                },
            },
    {
        let mut flows: Vec<Flow> = Vec::new();
        flows.push(flow.clone());
        proof {
            let views = crate::dns::flow_views(flows@);
            assert(views =~= seq![flow@]);
            assert(views.drop_last() =~= Seq::<crate::domain::FlowView>::empty());
            assert(views.last() == flow@);
            assert(crate::storage::batch_fault(views.drop_last()) is None);
        }
        match self.upsert_flows(&flows) {
            Ok(_) => Ok(()),
            Err(e) => Err(e),
        }
    }

    /// Stores snapshots of flows in one transaction: one after the other between its start and its
    /// end, and nothing besides. Where one fails, all is undone. Where one of them breaks a rule,
    /// the database is not asked at all.
    fn upsert_flows(&mut self, flows: &Vec<Flow>) -> (r: Result<usize, StorageError>)
        ensures
            ({
                let views = crate::dns::flow_views(flows@);
                match crate::storage::batch_fault(views) {
                    Some(fault) => {
                        &&& r matches Err(e) && e@ == crate::sql::ErrorView::InvalidFlow(fault)
                        &&& final(self).asked() == old(self).asked()
                    },
                    None => if views.len() == 0 {
                        r == Ok::<usize, StorageError>(0) && final(self).asked() == old(
                            self,
                        ).asked()
                    } else {
                        match r {
                            Ok(n) => n == views.len() && crate::trace::batch_stored(
                                old(self).asked(),
                                final(self).asked(),
                                views,
                            ),
                            Err(e) => crate::trace::batch_undone(
                                old(self).asked(),
                                final(self).asked(),
                                views,
                                e@,
                            ),
                        }
                    },
                }
            }),
    {
        if let Err(e) = validate_flows(flows.as_slice()) {
            return Err(e);
        }
        if flows.len() == 0 {
            return Ok(0);
        }
        if let Err(e) = self.session.begin() {
            return Err(e);
        }
        let ghost start = crate::trace::begun(old(self).asked());
        proof {
            assert(self.asked() == start);
        }
        let outcome = self.store_all(flows);
        let ghost mid = self.asked();
        proof {
            let views = crate::dns::flow_views(flows@);
            match &outcome {
                Ok(_) => assert(crate::trace::flows_stored(start, mid, views)),
                Err(e) => assert(crate::trace::flows_refused(start, mid, views, e@)),
            }
        }
        match self.finish(outcome) {
            Ok(_) => Ok(flows.len()),
            Err(e) => Err(e),
        }
    }

    /// Applies resolved bindings in one transaction, and tells how many flows changed.
    fn backfill_domain_bindings(&mut self, bindings: &Vec<ResolvedDomainBinding>) -> (r: Result<
        usize,
        StorageError,
    >)
        ensures
            if bindings@.len() == 0 {
                r == Ok::<usize, StorageError>(0) && final(self).asked() == old(self).asked()
            } else {
                match r {
                    Ok(n) => backfill_done(
                        old(self).asked(),
                        final(self).asked(),
                        binding_views(bindings@),
                        n as nat,
                    ),
                    Err(e) => backfill_undone(
                        old(self).asked(),
                        final(self).asked(),
                        binding_views(bindings@),
                        e@,
                    ),
                }
            },
    {
        if bindings.len() == 0 {
            return Ok(0);
        }
        if let Err(e) = self.session.begin() {
            return Err(e);
        }
        let ghost start = crate::trace::begun(old(self).asked());
        proof {
            assert(self.asked() == start);
        }
        let outcome = self.apply_bindings(bindings);
        let ghost mid = self.asked();
        proof {
            let views = binding_views(bindings@);
            match &outcome {
                Ok(n) => assert(crate::trace::bindings_applied(start, mid, views, *n as nat)),
                Err(e) => assert(crate::trace::bindings_refused(start, mid, views, e@)),
            }
        }
        self.finish(outcome)
    }

    /// Removes a device with everything that was observed of it, in one transaction.
    fn delete_device_data(&mut self, mac_address: &str) -> (r: Result<
        Option<DataDeletionResult>,
        StorageError,
    >)
        ensures
            match r {
                Ok(done) => device_deletion_done(
                    old(self).asked(),
                    final(self).asked(),
                    mac_address@,
                    done,
                ),
                Err(e) => device_deletion_undone(
                    old(self).asked(),
                    final(self).asked(),
                    mac_address@,
                    e@,
                ),
            },
    {
        if let Err(e) = self.session.begin() {
            return Err(e);
        }
        let ghost start = crate::trace::begun(old(self).asked());
        proof {
            assert(self.asked() == start);
        }
        let outcome = self.delete_device(mac_address);
        let ghost mid = self.asked();
        proof {
            match &outcome {
                Ok(None) => assert(crate::trace::device_unknown(start, mid, mac_address@)),
                Ok(Some(done)) => assert(crate::trace::device_gone(
                    start,
                    mid,
                    mac_address@,
                    *done,
                )),
                Err(e) => assert(crate::trace::device_kept(start, mid, mac_address@, e@)),
            }
        }
        let r = self.finish(outcome);
        proof {
            if r is Ok {
                assert(crate::trace::committed(mid, self.asked()));
            }
        }
        r
    }

    /// Removes a domain from the observations of one device or of all, in one transaction.
    fn delete_domain_data(&mut self, mac_address: Option<&str>, domain: &str) -> (r: Result<
        DataDeletionResult,
        StorageError,
    >)
        ensures
            match r {
                Ok(done) => domain_deletion_done(
                    old(self).asked(),
                    final(self).asked(),
                    crate::storage::opt_str_view(mac_address),
                    domain@,
                    done,
                ),
                Err(e) => domain_deletion_undone(
                    old(self).asked(),
                    final(self).asked(),
                    crate::storage::opt_str_view(mac_address),
                    domain@,
                    e@,
                ),
            },
    {
        if let Err(e) = self.session.begin() {
            return Err(e);
        }
        let ghost start = crate::trace::begun(old(self).asked());
        let ghost changes = crate::storage::domain_deleted(
            crate::storage::opt_str_view(mac_address),
            domain@,
        );
        proof {
            assert(self.asked() == start);
        }
        let outcome = match self.run(&delete_domain_data_tx(mac_address, domain)) {
            Ok(changed) => {
                proof {
                    let n = choose|n: Seq<Seq<usize>>| #[trigger]
                        crate::trace::changes_done(start, self.asked(), changes, n) && changed@
                            == crate::trace::first_counts(n);
                    assert(n.len() == 3);
                    assert(changed@[0] == n[0][0]);
                    assert(changed@[1] == n[1][0]);
                    assert(changed@[2] == n[2][0]);
                }
                Ok(domain_deletion_result(&changed))
            },
            Err(e) => Err(e),
        };
        let ghost mid = self.asked();
        proof {
            match &outcome {
                Ok(done) => assert(crate::trace::domain_gone(
                    start,
                    mid,
                    crate::storage::opt_str_view(mac_address),
                    domain@,
                    *done,
                )),
                Err(e) => assert(crate::trace::changes_failed(start, mid, changes, e@)),
            }
        }
        self.finish(outcome)
    }

    /// Removes what was observed in a range of time, in one transaction.
    fn delete_data_range(&mut self, from_ms: i64, to_ms: i64) -> (r: Result<
        DataDeletionResult,
        StorageError,
    >)
        ensures
            match r {
                Ok(done) => range_deletion_done(
                    old(self).asked(),
                    final(self).asked(),
                    from_ms,
                    to_ms,
                    done,
                ),
                Err(e) => range_deletion_undone(
                    old(self).asked(),
                    final(self).asked(),
                    from_ms,
                    to_ms,
                    e@,
                ),
            },
    {
        if let Err(e) = self.session.begin() {
            return Err(e);
        }
        let ghost start = crate::trace::begun(old(self).asked());
        proof {
            assert(self.asked() == start);
        }
        let outcome = self.delete_range(from_ms, to_ms);
        let ghost mid = self.asked();
        proof {
            match &outcome {
                Ok(done) => assert(crate::trace::range_gone(start, mid, from_ms, to_ms, *done)),
                Err(e) => assert(crate::trace::range_kept(start, mid, from_ms, to_ms, e@)),
            }
        }
        self.finish(outcome)
    }

    /// Lists the devices by MAC address.
    fn list_devices(&self) -> (r: Result<Vec<Device>, StorageError>)
        ensures
            exists|answer: Result<Rows, StorageError>| #[trigger]
                crate::session::answered(
                    self.session.driver(),
                    all_devices(),
                    answer,
                ) && match answer {
                    Ok(rows) => devices_read(r, rows@),
                    Err(e) => r == Err::<Vec<Device>, StorageError>(e),
                },
    {
        match self.look(devices_query()) {
            Ok(rows) => read_devices(&rows),
            Err(e) => Err(e),
        }
    }

    /// Finds a device.
    fn find_device(&self, mac_address: &str) -> (r: Result<Option<Device>, StorageError>)
        ensures
            exists|answer: Result<Rows, StorageError>| #[trigger]
                crate::session::answered(
                    self.session.driver(),
                    one_device(mac_address@),
                    answer,
                ) && match answer {
                    Ok(rows) => device_read(r, rows@),
                    Err(e) => r == Err::<Option<Device>, StorageError>(e),
                },
    {
        match self.look(device_query(mac_address)) {
            Ok(rows) => if rows.len() == 0 {
                Ok(None)
            } else {
                match device_from_row(&rows[0]) {
                    Ok(device) => Ok(Some(device)),
                    Err(e) => Err(e),
                }
            },
            Err(e) => Err(e),
        }
    }

    /// Names a device and tells whether it is known.
    fn update_device_display_name(&mut self, mac_address: &str, display_name: Option<&str>) -> (r:
        Result<bool, StorageError>)
        ensures
            ({
                let change = crate::storage::StatementView::RenameDevice {
                    mac_address: mac_address@,
                    display_name: crate::storage::opt_str_view(display_name),
                };
                match r {
                    Ok(known) => exists|n: Seq<usize>| #[trigger]
                        crate::trace::change_done(
                            old(self).asked(),
                            final(self).asked(),
                            change,
                            n,
                        ) && known == (n[0] == 1),
                    Err(e) => crate::trace::change_failed(
                        old(self).asked(),
                        final(self).asked(),
                        change,
                        e@,
                    ),
                }
            }),
    {
        match self.run_statement(&update_device_display_name(mac_address, display_name)) {
            Ok(changed) => Ok(changed == 1),
            Err(e) => Err(e),
        }
    }

    /// Lists a page of the flows of a device.
    fn list_flow_page(
        &self,
        mac_address: &str,
        since_ms: i64,
        anchor: Option<&FlowPageAnchor>,
        direction: FlowPageDirection,
        limit: usize,
    ) -> (r: Result<Vec<Flow>, StorageError>)
        ensures
            exists|answer: Result<Rows, StorageError>| #[trigger]
                crate::session::answered(
                    self.session.driver(),
                    crate::sqlite::flow_page(
                        mac_address@,
                        since_ms,
                        crate::sqlite::anchor_view(anchor),
                        direction,
                        limit,
                    ),
                    answer,
                ) && match answer {
                    Ok(rows) => flows_read(r, rows@),
                    Err(e) => r == Err::<Vec<Flow>, StorageError>(e),
                },
    {
        match self.look(list_flow_page(mac_address, since_ms, anchor, direction, limit)) {
            Ok(rows) => read_flows(&rows),
            Err(e) => Err(e),
        }
    }

    /// Sums up the flows of a device from a time on.
    fn summarize_recent_flows(&self, mac_address: &str, since_ms: i64) -> (r: Result<
        DeviceFlowSummary,
        StorageError,
    >)
        ensures
            exists|answer: Result<Rows, StorageError>| #[trigger]
                crate::session::answered(
                    self.session.driver(),
                    flow_summary(mac_address@, since_ms),
                    answer,
                ) && match (r, answer) {
                    (Ok(summary), Ok(rows)) => rows@.len() > 0 && crate::sqlite::summary_of(
                        crate::sql::row_view(rows@[0]@),
                    ) == Some(summary),
                    (Err(e), Ok(rows)) => e@ == crate::sql::ErrorView::Column && (rows@.len() == 0
                        || crate::sqlite::summary_of(crate::sql::row_view(rows@[0]@)) is None),
                    (Err(e), Err(x)) => e == x,
                    _ => false,
                },
    {
        match self.look(summary_query(mac_address, since_ms)) {
            Ok(rows) => if rows.len() == 0 {
                Err(StorageError::Column)
            } else {
                summary_from_row(&rows[0])
            },
            Err(e) => Err(e),
        }
    }

    /// Lists the traffic of a device by the minute, from a time on.
    fn list_device_minute_stats(
        &self,
        mac_address: &str,
        since_ms: i64,
    ) -> (r: Result<Vec<DeviceMinuteStat>, StorageError>)
        ensures
            exists|answer: Result<Rows, StorageError>| #[trigger]
                crate::session::answered(
                    self.session.driver(),
                    device_minutes(mac_address@, since_ms),
                    answer,
                ) && match answer {
                    Ok(rows) => device_minutes_read(r, rows@),
                    Err(e) => r == Err::<Vec<DeviceMinuteStat>, StorageError>(e),
                },
    {
        match self.look(device_minutes_query(mac_address, since_ms)) {
            Ok(rows) => read_device_minutes(&rows),
            Err(e) => Err(e),
        }
    }

    /// Lists the traffic of a device with a domain by the minute, from a time on.
    fn list_domain_minute_stats(
        &self,
        mac_address: &str,
        domain: &str,
        since_ms: i64,
    ) -> (r: Result<Vec<DomainMinuteStat>, StorageError>)
        ensures
            exists|answer: Result<Rows, StorageError>| #[trigger]
                crate::session::answered(
                    self.session.driver(),
                    domain_minutes(mac_address@, domain@, since_ms),
                    answer,
                ) && match answer {
                    Ok(rows) => domain_minutes_read(r, rows@),
                    Err(e) => r == Err::<Vec<DomainMinuteStat>, StorageError>(e),
                },
    {
        match self.look(domain_minutes_query(mac_address, domain, since_ms)) {
            Ok(rows) => read_domain_minutes(&rows),
            Err(e) => Err(e),
        }
    }

    /// Lists the domains with the most traffic of a device, from a time on.
    fn list_domain_traffic_top(
        &self,
        mac_address: &str,
        since_ms: i64,
        limit: usize,
    ) -> (r: Result<Vec<DomainTrafficSummary>, StorageError>)
        ensures
            exists|answer: Result<Rows, StorageError>| #[trigger]
                crate::session::answered(
                    self.session.driver(),
                    domain_top(mac_address@, since_ms, limit as i64),
                    answer,
                ) && match answer {
                    Ok(rows) => domain_summaries_read(r, rows@),
                    Err(e) => r == Err::<Vec<DomainTrafficSummary>, StorageError>(e),
                },
    {
        match self.look(domain_top_query(mac_address, since_ms, limit)) {
            Ok(rows) => read_domain_summaries(&rows),
            Err(e) => Err(e),
        }
    }

    /// Removes what is no longer kept. The changes are not tied together by a transaction: what was
    /// removed before one of them fails stays removed.
    fn delete_expired_data(
        &mut self,
        now_ms: i64,
        flow_retention_hours: u32,
        aggregate_retention_days: u32,
    ) -> (r: Result<(usize, usize), StorageError>)
        ensures
            ({
                let changes = crate::storage::expired_deleted(
                    crate::storage::flow_cutoff(now_ms, flow_retention_hours) as i64,
                    crate::storage::aggregate_cutoff(now_ms, aggregate_retention_days) as i64,
                );
                match r {
                    Ok(done) => exists|n: Seq<Seq<usize>>|
                        {
                            &&& #[trigger] crate::trace::changes_done(
                                old(self).asked(),
                                final(self).asked(),
                                changes,
                                n,
                            )
                            &&& done.0 == n[0][0]
                            &&& done.1 == n[1][0] + n[3][0]
                        },
                    Err(e) => crate::trace::changes_failed(
                        old(self).asked(),
                        final(self).asked(),
                        changes,
                        e@,
                    ) || exists|n: Seq<Seq<usize>>|
                        {
                            &&& #[trigger] crate::trace::changes_done(
                                old(self).asked(),
                                final(self).asked(),
                                changes,
                                n,
                            )
                            &&& n[1][0] + n[3][0] > usize::MAX
                            &&& e@ == crate::trace::uncountable()
                        },
                }
            }),
    {
        let changes = delete_expired_data(now_ms, flow_retention_hours, aggregate_retention_days);
        match self.run(&changes) {
            Ok(changed) => match total(changed[1], changed[3]) {
                Ok(_) => Ok(expired_deletion_result(&changed)),
                Err(e) => Err(e),
            },
            Err(e) => Err(e),
        }
    }
}

} // verus!
