//! What the record of a session looks like after each change: which questions and commands, in
//! which order, and nothing besides.
use vstd::prelude::*;

use crate::domain::{AttributionView, DataDeletionResult, FlowView};
use crate::session::Event;
use crate::sql::{CommandView, ErrorView, SqlView};
use crate::storage::{LoadedView, StatementView};

verus! {

/// The record after a question and its answer.
pub open spec fn after_query(
    before: Seq<Event>,
    c: CommandView,
    answer: Result<Seq<Seq<SqlView>>, ErrorView>,
) -> Seq<Event> {
    before.push(Event::Query(c, answer))
}

/// The record after a command and its answer.
pub open spec fn after_command(
    before: Seq<Event>,
    c: CommandView,
    answer: Result<usize, ErrorView>,
) -> Seq<Event> {
    before.push(Event::Execute(c, answer))
}

/// The record after a transaction was to be undone.
pub open spec fn after_rollback(before: Seq<Event>, answer: Result<(), ErrorView>) -> Seq<Event> {
    before.push(Event::Rollback(answer))
}

/// Commands that were carried out in order, with the rows that each of them changed.
pub open spec fn executed(commands: Seq<CommandView>, n: Seq<usize>) -> Seq<Event> {
    Seq::new(commands.len(), |k: int| Event::Execute(commands[k], Ok(n[k])))
}

/// A command that must change one row did.
pub open spec fn row_changed(c: CommandView, n: usize) -> bool {
    c.one_row is None || n == 1
}

/// Every command that must change one row did.
pub open spec fn rows_changed(commands: Seq<CommandView>, n: Seq<usize>) -> bool {
    &&& n.len() == commands.len()
    &&& forall|k: int| 0 <= k < n.len() ==> row_changed(commands[k], #[trigger] n[k])
}

/// A change was carried out: its commands in order, and nothing besides.
pub open spec fn change_done(
    before: Seq<Event>,
    after: Seq<Event>,
    s: StatementView,
    n: Seq<usize>,
) -> bool {
    let commands = crate::sqlite::commands_of(s);
    rows_changed(commands, n) && after == before + executed(commands, n)
}

/// A command was refused, or it changed another number of rows than the one that it had to change.
pub open spec fn command_failed(
    before: Seq<Event>,
    after: Seq<Event>,
    c: CommandView,
    e: ErrorView,
) -> bool {
    ||| after == after_command(before, c, Err(e))
    ||| exists|n: usize|
        !row_changed(c, n) && e == ErrorView::InvalidCounter(c.one_row->0) && after
            == #[trigger] after_command(before, c, Ok(n))
}

/// A change failed at one of its commands, and was left there.
pub open spec fn change_failed(
    before: Seq<Event>,
    after: Seq<Event>,
    s: StatementView,
    e: ErrorView,
) -> bool {
    let commands = crate::sqlite::commands_of(s);
    exists|k: int, n: Seq<usize>|
        0 <= k < commands.len() && rows_changed(commands.take(k), n) && command_failed(
            before + #[trigger] executed(commands.take(k), n),
            after,
            commands[k],
            e,
        )
}

/// Changes that were carried out in order, with the rows that each of their commands changed.
pub open spec fn events_of(s: Seq<StatementView>, n: Seq<Seq<usize>>) -> Seq<Event>
    decreases s.len(),
{
    if s.len() == 0 {
        Seq::empty()
    } else {
        events_of(s.drop_last(), n.drop_last()) + executed(
            crate::sqlite::commands_of(s.last()),
            n.last(),
        )
    }
}

/// Changes were carried out: each of them once, in order, and nothing besides.
pub open spec fn changes_done(
    before: Seq<Event>,
    after: Seq<Event>,
    s: Seq<StatementView>,
    n: Seq<Seq<usize>>,
) -> bool {
    &&& n.len() == s.len()
    &&& forall|k: int|
        0 <= k < s.len() ==> rows_changed(crate::sqlite::commands_of(s[k]), #[trigger] n[k])
    &&& after == before + events_of(s, n)
}

/// How many rows the first command of each change changed.
pub open spec fn first_counts(n: Seq<Seq<usize>>) -> Seq<usize> {
    n.map_values(|counts: Seq<usize>| counts[0])
}

/// Changes were carried out up to one that failed, and were left there.
pub open spec fn changes_failed(
    before: Seq<Event>,
    after: Seq<Event>,
    s: Seq<StatementView>,
    e: ErrorView,
) -> bool {
    exists|k: int, n: Seq<Seq<usize>>, mid: Seq<Event>|
        0 <= k < s.len() && #[trigger] changes_done(before, mid, s.take(k), n) && change_failed(
            mid,
            after,
            s[k],
            e,
        )
}

/// The first of some rows.
pub open spec fn first_of(rows: Seq<Seq<SqlView>>) -> Option<Seq<SqlView>> {
    if rows.len() == 0 {
        None
    } else {
        Some(rows[0])
    }
}

/// The state and then the contributions of a flow were read.
pub open spec fn flow_loaded(before: Seq<Event>, after: Seq<Event>, f: LoadedView) -> bool {
    exists|rows: Seq<Seq<SqlView>>|
        after == after_query(
            #[trigger] after_query(before, crate::repository::state_query(f.flow_id), Ok(rows)),
            crate::repository::ledger_query(f.flow_id),
            Ok(f.ledger),
        ) && f.state == first_of(rows)
}

/// The state or the contributions of a flow could not be read.
pub open spec fn load_failed(
    before: Seq<Event>,
    after: Seq<Event>,
    flow_id: Seq<char>,
    e: ErrorView,
) -> bool {
    ||| after == after_query(before, crate::repository::state_query(flow_id), Err(e))
    ||| exists|rows: Seq<Seq<SqlView>>|
        after == after_query(
            #[trigger] after_query(before, crate::repository::state_query(flow_id), Ok(rows)),
            crate::repository::ledger_query(flow_id),
            Err(e),
        )
}

/// A snapshot of a flow was stored: the flow's state and contributions were read, the changes that
/// they call for were carried out, and nothing besides.
pub open spec fn flow_stored(before: Seq<Event>, after: Seq<Event>, f: FlowView) -> bool {
    exists|
        mid: Seq<Event>,
        loaded: LoadedView,
        changes: Seq<StatementView>,
        n: Seq<Seq<usize>>,
    |
        {
            &&& #[trigger] flow_loaded(before, mid, loaded)
            &&& loaded.flow_id == f.flow_id
            &&& crate::storage::upserted(f, loaded.state, loaded.ledger) == Ok::<
                Seq<StatementView>,
                ErrorView,
            >(changes)
            &&& #[trigger] changes_done(mid, after, changes, n)
        }
}

/// Why a snapshot of a flow was not stored: what is stored of the flow could not be read, a time is
/// too early to be rounded to its minute, what was read does not allow it, or a change failed.
pub open spec fn flow_refused(
    before: Seq<Event>,
    after: Seq<Event>,
    f: FlowView,
    e: ErrorView,
) -> bool {
    ||| load_failed(before, after, f.flow_id, e)
    ||| exists|mid: Seq<Event>, loaded: LoadedView| #[trigger]
        flow_loaded(before, mid, loaded) && loaded.flow_id == f.flow_id
            && if !crate::repository::minute_fits(f.last_seen)
            || !crate::storage::state_minute_fits(loaded.state) {
            after == mid && e == ErrorView::Column
        } else {
            match crate::storage::upserted(f, loaded.state, loaded.ledger) {
                Err(fault) => after == mid && e == fault,
                Ok(changes) => changes_failed(mid, after, changes, e),
            }
        }
}

/// Snapshots were stored one after the other, and nothing besides.
pub open spec fn flows_stored(before: Seq<Event>, after: Seq<Event>, flows: Seq<FlowView>) -> bool
    decreases flows.len(),
{
    if flows.len() == 0 {
        after == before
    } else {
        exists|mid: Seq<Event>|
            flows_stored(before, mid, flows.drop_last()) && #[trigger] flow_stored(
                mid,
                after,
                flows.last(),
            )
    }
}

/// Snapshots were stored up to one that was not.
pub open spec fn flows_refused(
    before: Seq<Event>,
    after: Seq<Event>,
    flows: Seq<FlowView>,
    e: ErrorView,
) -> bool {
    exists|k: int, mid: Seq<Event>|
        0 <= k < flows.len() && #[trigger] flows_stored(before, mid, flows.take(k))
            && flow_refused(mid, after, flows[k], e)
}

/// The record once a transaction was started.
pub open spec fn begun(before: Seq<Event>) -> Seq<Event> {
    before.push(Event::Begin(Ok(())))
}

/// A transaction could not be started.
pub open spec fn not_begun(before: Seq<Event>, after: Seq<Event>, e: ErrorView) -> bool {
    after == before.push(Event::Begin(Err(e)))
}

/// What stands in the record up to `mid` was made to last.
pub open spec fn committed(mid: Seq<Event>, after: Seq<Event>) -> bool {
    after == mid.push(Event::Commit(Ok(())))
}

/// What stands in the record up to `mid` was undone.
pub open spec fn undone(mid: Seq<Event>, after: Seq<Event>) -> bool {
    exists|answer: Result<(), ErrorView>| after == #[trigger] after_rollback(mid, answer)
}

/// What stands in the record up to `mid` could not be made to last, and was undone.
pub open spec fn not_committed(mid: Seq<Event>, after: Seq<Event>, e: ErrorView) -> bool {
    undone(mid.push(Event::Commit(Err(e))), after)
}

/// Snapshots were stored in one transaction.
pub open spec fn batch_stored(
    before: Seq<Event>,
    after: Seq<Event>,
    flows: Seq<FlowView>,
) -> bool {
    exists|mid: Seq<Event>| #[trigger]
        flows_stored(begun(before), mid, flows) && committed(mid, after)
}

/// Snapshots were to be stored in one transaction, which failed and was undone.
pub open spec fn batch_undone(
    before: Seq<Event>,
    after: Seq<Event>,
    flows: Seq<FlowView>,
    e: ErrorView,
) -> bool {
    ||| not_begun(before, after, e)
    ||| exists|mid: Seq<Event>| #[trigger]
        flows_refused(begun(before), mid, flows, e) && undone(mid, after)
    ||| exists|mid: Seq<Event>| #[trigger]
        flows_stored(begun(before), mid, flows) && not_committed(mid, after, e)
}

/// Flows were read one after the other.
pub open spec fn all_loaded(before: Seq<Event>, after: Seq<Event>, flows: Seq<LoadedView>) -> bool
    decreases flows.len(),
{
    if flows.len() == 0 {
        after == before
    } else {
        exists|mid: Seq<Event>|
            all_loaded(before, mid, flows.drop_last()) && #[trigger] flow_loaded(
                mid,
                after,
                flows.last(),
            )
    }
}

/// The rows name the flows, in order.
pub open spec fn names_flows(ids: Seq<Seq<SqlView>>, flows: Seq<LoadedView>) -> bool {
    &&& flows.len() <= ids.len()
    &&& forall|k: int|
        #![trigger flows[k]]
        0 <= k < flows.len() ==> crate::sql::text_column(ids[k], 0) == Some(flows[k].flow_id)
}

/// The record once the flows that a binding covers were listed.
pub open spec fn listed(
    before: Seq<Event>,
    mac: Seq<char>,
    target: Seq<char>,
    a: AttributionView,
    ids: Seq<Seq<SqlView>>,
) -> Seq<Event> {
    after_query(before, crate::sqlite::covered_flows(mac, target, a), Ok(ids))
}

/// The flows that a binding covers were listed and read.
pub open spec fn covered_loaded(
    before: Seq<Event>,
    after: Seq<Event>,
    mac: Seq<char>,
    target: Seq<char>,
    a: AttributionView,
    flows: Seq<LoadedView>,
) -> bool {
    exists|ids: Seq<Seq<SqlView>>|
        {
            &&& all_loaded(#[trigger] listed(before, mac, target, a, ids), after, flows)
            &&& names_flows(ids, flows)
            &&& flows.len() == ids.len()
        }
}

/// A flow that was listed could not be read, or its time is too early to be rounded to its minute.
pub open spec fn listed_refused(
    before: Seq<Event>,
    after: Seq<Event>,
    row: Seq<SqlView>,
    e: ErrorView,
) -> bool {
    match crate::sql::text_column(row, 0) {
        None => after == before && e == ErrorView::Column,
        Some(flow_id) => load_failed(before, after, flow_id, e) || (e == ErrorView::Column
            && exists|loaded: LoadedView| #[trigger]
            flow_loaded(before, after, loaded) && loaded.flow_id == flow_id
                && !crate::storage::loaded_minute_fits(loaded)),
    }
}

/// The flows that a binding covers could not be listed, or one of them could not be read.
pub open spec fn covered_refused(
    before: Seq<Event>,
    after: Seq<Event>,
    mac: Seq<char>,
    target: Seq<char>,
    a: AttributionView,
    e: ErrorView,
) -> bool {
    ||| after == after_query(before, crate::sqlite::covered_flows(mac, target, a), Err(e))
    ||| exists|ids: Seq<Seq<SqlView>>, flows: Seq<LoadedView>, mid: Seq<Event>|
        {
            &&& #[trigger] all_loaded(
                #[trigger] listed(before, mac, target, a, ids),
                mid,
                flows,
            )
            &&& names_flows(ids, flows)
            &&& flows.len() < ids.len()
            &&& listed_refused(mid, after, ids[flows.len() as int], e)
        }
}

/// A binding was applied: the flows that it covers were listed and read, the changes that they call
/// for were carried out, and nothing besides. `updated` flows changed.
pub open spec fn binding_applied(
    before: Seq<Event>,
    after: Seq<Event>,
    mac: Seq<char>,
    target: Seq<char>,
    a: AttributionView,
    updated: nat,
) -> bool {
    exists|
        mid: Seq<Event>,
        flows: Seq<LoadedView>,
        changes: Seq<StatementView>,
        n: Seq<Seq<usize>>,
    |
        {
            &&& #[trigger] covered_loaded(before, mid, mac, target, a, flows)
            &&& crate::storage::all_backfilled(mac, a, flows) == Ok::<
                (Seq<StatementView>, nat),
                ErrorView,
            >((changes, updated))
            &&& #[trigger] changes_done(mid, after, changes, n)
        }
}

/// Why a binding was not applied: the flows that it covers could not be read, what was read does
/// not allow it, or a change failed.
pub open spec fn binding_refused(
    before: Seq<Event>,
    after: Seq<Event>,
    mac: Seq<char>,
    target: Seq<char>,
    a: AttributionView,
    e: ErrorView,
) -> bool {
    ||| covered_refused(before, after, mac, target, a, e)
    ||| exists|mid: Seq<Event>, flows: Seq<LoadedView>| #[trigger]
        covered_loaded(before, mid, mac, target, a, flows)
            && match crate::storage::all_backfilled(mac, a, flows) {
            Err(fault) => after == mid && e == fault,
            Ok(outcome) => changes_failed(mid, after, outcome.0, e),
        }
}

/// A resolved binding, as a mathematical value.
#[verifier::ext_equal]
pub struct BindingView {
    pub client_mac: Seq<char>,
    pub target_ip: Seq<char>,
    pub attribution: AttributionView,
}

/// Bindings were applied one after the other, and nothing besides. `updated` flows changed in all.
pub open spec fn bindings_applied(
    before: Seq<Event>,
    after: Seq<Event>,
    bindings: Seq<BindingView>,
    updated: nat,
) -> bool
    decreases bindings.len(),
{
    if bindings.len() == 0 {
        after == before && updated == 0
    } else {
        let b = bindings.last();
        exists|mid: Seq<Event>, n: nat|
            n <= updated && bindings_applied(
                before,
                mid,
                bindings.drop_last(),
                (updated - n) as nat,
            ) && #[trigger] binding_applied(
                mid,
                after,
                b.client_mac,
                b.target_ip,
                b.attribution,
                n,
            )
    }
}

/// Bindings were applied up to one that was not, or until more flows had changed than can be
/// counted.
pub open spec fn bindings_refused(
    before: Seq<Event>,
    after: Seq<Event>,
    bindings: Seq<BindingView>,
    e: ErrorView,
) -> bool {
    ||| exists|k: int, mid: Seq<Event>, n: nat|
        0 <= k < bindings.len() && #[trigger] bindings_applied(before, mid, bindings.take(k), n)
            && binding_refused(
            mid,
            after,
            bindings[k].client_mac,
            bindings[k].target_ip,
            bindings[k].attribution,
            e,
        )
    ||| exists|k: int, n: nat|
        0 <= k <= bindings.len() && n > usize::MAX && #[trigger] bindings_applied(
            before,
            after,
            bindings.take(k),
            n,
        ) && e == uncountable()
}

/// The error where a number of rows cannot be.
pub open spec fn uncountable() -> ErrorView {
    ErrorView::InvalidCounter("row count must be non-negative"@)
}

/// The count that the rows of an answer stand for.
pub open spec fn count_of(rows: Seq<Seq<SqlView>>) -> Result<usize, ErrorView> {
    if rows.len() == 0 {
        Err(ErrorView::Column)
    } else {
        match crate::sql::int_column(rows[0], 0) {
            None => Err(ErrorView::Column),
            Some(n) => if 0 <= n <= usize::MAX {
                Ok(n as usize)
            } else {
                Err(uncountable())
            },
        }
    }
}

/// Something was counted.
pub open spec fn counted(
    before: Seq<Event>,
    after: Seq<Event>,
    c: CommandView,
    r: Result<usize, ErrorView>,
) -> bool {
    exists|answer: Result<Seq<Seq<SqlView>>, ErrorView>|
        after == #[trigger] after_query(before, c, answer) && match answer {
            Ok(rows) => r == count_of(rows),
            Err(e) => r == Err::<usize, ErrorView>(e),
        }
}

/// The record once it was asked whether a device is known.
pub open spec fn looked_for(
    before: Seq<Event>,
    mac: Seq<char>,
    found: Seq<Seq<SqlView>>,
) -> Seq<Event> {
    after_query(before, crate::repository::known_query(mac), Ok(found))
}

/// The device is not known, and nothing was changed.
pub open spec fn device_unknown(before: Seq<Event>, after: Seq<Event>, mac: Seq<char>) -> bool {
    exists|found: Seq<Seq<SqlView>>|
        after == #[trigger] looked_for(before, mac, found) && found.len() == 0
}

/// What a device had was counted.
pub open spec fn device_counted(
    before: Seq<Event>,
    after: Seq<Event>,
    mac: Seq<char>,
    flows: usize,
    contributions: usize,
) -> bool {
    exists|found: Seq<Seq<SqlView>>, mid: Seq<Event>|
        found.len() > 0 && #[trigger] counted(
            #[trigger] looked_for(before, mac, found),
            mid,
            crate::repository::flow_count(mac),
            Ok(flows),
        ) && counted(mid, after, crate::repository::contribution_count(mac), Ok(contributions))
}

/// A device was removed: what it had was counted, the changes were carried out, and nothing
/// besides.
pub open spec fn device_gone(
    before: Seq<Event>,
    after: Seq<Event>,
    mac: Seq<char>,
    done: DataDeletionResult,
) -> bool {
    exists|mid: Seq<Event>, n: Seq<Seq<usize>>|
        {
            &&& #[trigger] device_counted(
                before,
                mid,
                mac,
                done.flows_deleted,
                done.contributions_deleted,
            )
            &&& #[trigger] changes_done(mid, after, crate::storage::device_deleted(mac), n)
            &&& done.devices_deleted == 1
            &&& done.flows_redacted == 0
            &&& done.device_minutes_deleted == n[0][0]
            &&& done.domain_minutes_deleted == n[1][0]
        }
}

/// Why a device was not removed: a question or a change failed.
pub open spec fn device_kept(
    before: Seq<Event>,
    after: Seq<Event>,
    mac: Seq<char>,
    e: ErrorView,
) -> bool {
    ||| after == after_query(before, crate::repository::known_query(mac), Err(e))
    ||| exists|found: Seq<Seq<SqlView>>|
        found.len() > 0 && counted(
            #[trigger] looked_for(before, mac, found),
            after,
            crate::repository::flow_count(mac),
            Err(e),
        )
    ||| exists|found: Seq<Seq<SqlView>>, mid: Seq<Event>, flows: usize|
        found.len() > 0 && #[trigger] counted(
            #[trigger] looked_for(before, mac, found),
            mid,
            crate::repository::flow_count(mac),
            Ok(flows),
        ) && counted(mid, after, crate::repository::contribution_count(mac), Err(e))
    ||| exists|mid: Seq<Event>, flows: usize, contributions: usize|
        #[trigger] device_counted(before, mid, mac, flows, contributions) && changes_failed(
            mid,
            after,
            crate::storage::device_deleted(mac),
            e,
        )
}

/// A domain was removed: the changes were carried out, and nothing besides.
pub open spec fn domain_gone(
    before: Seq<Event>,
    after: Seq<Event>,
    mac: Option<Seq<char>>,
    domain: Seq<char>,
    done: DataDeletionResult,
) -> bool {
    exists|n: Seq<Seq<usize>>|
        {
            &&& #[trigger] changes_done(
                before,
                after,
                crate::storage::domain_deleted(mac, domain),
                n,
            )
            &&& done.devices_deleted == 0
            &&& done.flows_deleted == 0
            &&& done.flows_redacted == n[2][0]
            &&& done.device_minutes_deleted == 0
            &&& done.domain_minutes_deleted == n[1][0]
            &&& done.contributions_deleted == n[0][0]
        }
}

/// What is in a range of time was counted.
pub open spec fn range_counted(
    before: Seq<Event>,
    after: Seq<Event>,
    from_ms: i64,
    to_ms: i64,
    flows: usize,
    contributions: usize,
) -> bool {
    exists|mid: Seq<Event>| #[trigger]
        counted(
            before,
            mid,
            crate::repository::contributions_in(from_ms, to_ms),
            Ok(contributions),
        ) && counted(mid, after, crate::repository::flows_in(from_ms, to_ms), Ok(flows))
}

/// A range of time was removed: what it holds was counted, the changes were carried out, and
/// nothing besides.
pub open spec fn range_gone(
    before: Seq<Event>,
    after: Seq<Event>,
    from_ms: i64,
    to_ms: i64,
    done: DataDeletionResult,
) -> bool {
    exists|mid: Seq<Event>, n: Seq<Seq<usize>>|
        {
            &&& #[trigger] range_counted(
                before,
                mid,
                from_ms,
                to_ms,
                done.flows_deleted,
                done.contributions_deleted,
            )
            &&& #[trigger] changes_done(
                mid,
                after,
                crate::storage::range_deleted(from_ms, to_ms),
                n,
            )
            &&& done.devices_deleted == 0
            &&& done.flows_redacted == 0
            &&& done.device_minutes_deleted == n[0][0]
            &&& done.domain_minutes_deleted == n[1][0]
        }
}

/// Why a range of time was not removed: a question or a change failed.
pub open spec fn range_kept(
    before: Seq<Event>,
    after: Seq<Event>,
    from_ms: i64,
    to_ms: i64,
    e: ErrorView,
) -> bool {
    ||| counted(before, after, crate::repository::contributions_in(from_ms, to_ms), Err(e))
    ||| exists|mid: Seq<Event>, contributions: usize| #[trigger]
        counted(
            before,
            mid,
            crate::repository::contributions_in(from_ms, to_ms),
            Ok(contributions),
        ) && counted(mid, after, crate::repository::flows_in(from_ms, to_ms), Err(e))
    ||| exists|mid: Seq<Event>, flows: usize, contributions: usize|
        #[trigger] range_counted(before, mid, from_ms, to_ms, flows, contributions)
            && changes_failed(mid, after, crate::storage::range_deleted(from_ms, to_ms), e)
}

/// Lists of commands that were carried out in order.
pub open spec fn batches_run(batches: Seq<Seq<char>>) -> Seq<Event> {
    Seq::new(batches.len(), |k: int| Event::Batch(batches[k], Ok(())))
}

/// The batches that bring the schema up to date, and then the one that sets its version number.
pub open spec fn upgrade_of(version: i32) -> Seq<Seq<char>> {
    crate::schema::batches_from(version).push(crate::repository::SET_SCHEMA_VERSION@)
}

/// A batch failed, and the upgrade was left there.
pub open spec fn upgrade_failed(
    before: Seq<Event>,
    after: Seq<Event>,
    batches: Seq<Seq<char>>,
    e: ErrorView,
) -> bool {
    exists|k: int|
        0 <= k < batches.len() && after == (before + batches_run(batches.take(k))).push(
            Event::Batch(#[trigger] batches[k], Err(e)),
        )
}

/// The record once the version of the schema was read.
pub open spec fn version_asked(before: Seq<Event>, rows: Seq<Seq<SqlView>>) -> Seq<Event> {
    after_query(before, crate::repository::schema_version(), Ok(rows))
}

/// The version that an answer stands for, if it stands for one.
pub open spec fn version_of(rows: Seq<Seq<SqlView>>) -> Option<i32> {
    if rows.len() == 0 {
        None
    } else {
        match crate::sql::int_column(rows[0], 0) {
            Some(n) => if i32::MIN <= n <= i32::MAX {
                Some(n as i32)
            } else {
                None
            },
            None => None,
        }
    }
}

/// The schema was brought up to date: its version was read and was not too new, the batches were
/// carried out in one transaction, and nothing besides.
pub open spec fn migrated(before: Seq<Event>, after: Seq<Event>) -> bool {
    exists|rows: Seq<Seq<SqlView>>|
        {
            let asked = #[trigger] version_asked(before, rows);
            &&& version_of(rows) is Some
            &&& version_of(rows)->0 <= 3
            &&& committed(begun(asked) + batches_run(upgrade_of(version_of(rows)->0)), after)
        }
}

/// Why the schema was not brought up to date, and that nothing was left behind: its version could
/// not be read or is too new, or the transaction failed and was undone.
pub open spec fn not_migrated(before: Seq<Event>, after: Seq<Event>, e: ErrorView) -> bool {
    ||| after == after_query(before, crate::repository::schema_version(), Err(e))
    ||| exists|rows: Seq<Seq<SqlView>>|
        {
            let asked = #[trigger] version_asked(before, rows);
            match version_of(rows) {
                None => after == asked && e == ErrorView::Column,
                Some(version) => if version > 3 {
                    after == asked && e == ErrorView::UnsupportedSchema(
                        crate::schema::unsupported(version),
                    )
                } else {
                    ||| not_begun(asked, after, e)
                    ||| exists|mid: Seq<Event>| #[trigger]
                        upgrade_failed(begun(asked), mid, upgrade_of(version), e) && undone(
                            mid,
                            after,
                        )
                    ||| not_committed(
                        begun(asked) + batches_run(upgrade_of(version)),
                        after,
                        e,
                    )
                },
            }
        }
}

} // verus!
