//! What holds of the record of a session, whatever the commands in it do: a transaction that fails
//! leaves nothing behind, and one that succeeds leaves exactly what its changes make.
use vstd::prelude::*;

use crate::domain::{DataDeletionResult, FlowView};
use crate::session::Event;
use crate::sql::{CommandView, ErrorView};
use crate::storage::{LoadedView, StatementView};
use crate::trace::BindingView;

verus! {

/// What a database holds: as it is seen now, and as it was when a transaction was started that has
/// not ended.
pub struct Held<A> {
    pub now: A,
    pub saved: Option<A>,
}

/// What lasts if nothing more is asked: the state before a transaction that has not ended.
pub open spec fn lasting<A>(h: Held<A>) -> A {
    match h.saved {
        Some(state) => state,
        None => h.now,
    }
}

/// What a database holds after an event. `effect` says what commands do; those that were refused do
/// nothing. A transaction that is undone gives back the state before it.
pub open spec fn after_event<A>(effect: spec_fn(A, Event) -> A, h: Held<A>, e: Event) -> Held<A> {
    match e {
        Event::Query(_, _) => h,
        Event::Execute(_, Ok(_)) => Held { now: effect(h.now, e), ..h },
        Event::Execute(_, Err(_)) => h,
        Event::Batch(_, _) => Held { now: effect(h.now, e), ..h },
        Event::Begin(Ok(_)) => Held { now: h.now, saved: Some(h.now) },
        Event::Begin(Err(_)) => h,
        Event::Commit(Ok(_)) => Held { now: h.now, saved: None },
        Event::Commit(Err(_)) => h,
        Event::Rollback(Ok(_)) => Held { now: lasting(h), saved: None },
        Event::Rollback(Err(_)) => h,
    }
}

/// What a database holds after everything in a record.
pub open spec fn replayed<A>(
    effect: spec_fn(A, Event) -> A,
    h: Held<A>,
    log: Seq<Event>,
) -> Held<A>
    decreases log.len(),
{
    if log.len() == 0 {
        h
    } else {
        after_event(effect, replayed(effect, h, log.drop_last()), log.last())
    }
}

/// The event neither starts nor ends a transaction.
pub open spec fn is_inner(e: Event) -> bool {
    e is Query || e is Execute || e is Batch
}

/// The record goes on, and no transaction starts or ends.
pub open spec fn goes_on(before: Seq<Event>, after: Seq<Event>) -> bool {
    &&& before.len() <= after.len()
    &&& after.take(before.len() as int) == before
    &&& forall|i: int| before.len() <= i < after.len() ==> is_inner(#[trigger] after[i])
}

proof fn lemma_push(before: Seq<Event>, mid: Seq<Event>, e: Event)
    requires
        goes_on(before, mid),
        is_inner(e),
    ensures
        goes_on(before, mid.push(e)),
{
    assert(mid.push(e).take(before.len() as int) =~= mid.take(before.len() as int));
}

proof fn lemma_same(before: Seq<Event>)
    ensures
        goes_on(before, before),
{
    assert(before.take(before.len() as int) =~= before);
}

proof fn lemma_more(before: Seq<Event>, mid: Seq<Event>, more: Seq<Event>)
    requires
        goes_on(before, mid),
        forall|i: int| 0 <= i < more.len() ==> is_inner(#[trigger] more[i]),
    ensures
        goes_on(before, mid + more),
{
    assert((mid + more).take(before.len() as int) =~= mid.take(before.len() as int));
}

/// A record that goes on twice goes on.
pub proof fn lemma_chain(before: Seq<Event>, mid: Seq<Event>, after: Seq<Event>)
    requires
        goes_on(before, mid),
        goes_on(mid, after),
    ensures
        goes_on(before, after),
{
    assert(after.take(before.len() as int) =~= mid.take(before.len() as int)) by {
        assert(after.take(mid.len() as int) == mid);
        assert forall|i: int| 0 <= i < before.len() implies after[i] == mid[i] by {
            assert(after.take(mid.len() as int)[i] == mid[i]);
        }
    }
    assert forall|i: int| before.len() <= i < after.len() implies is_inner(#[trigger] after[i]) by {
        if i < mid.len() {
            assert(after.take(mid.len() as int)[i] == mid[i]);
        }
    }
}

proof fn lemma_events(s: Seq<StatementView>, n: Seq<Seq<usize>>)
    ensures
        forall|i: int|
            0 <= i < crate::trace::events_of(s, n).len() ==> is_inner(
                #[trigger] crate::trace::events_of(s, n)[i],
            ),
    decreases s.len(),
{
    if s.len() > 0 {
        lemma_events(s.drop_last(), n.drop_last());
        let first = crate::trace::events_of(s.drop_last(), n.drop_last());
        let more = crate::trace::executed(crate::sqlite::commands_of(s.last()), n.last());
        assert forall|i: int| 0 <= i < (first + more).len() implies is_inner(
            #[trigger] (first + more)[i],
        ) by {
            if i < first.len() {
                assert((first + more)[i] == first[i]);
            } else {
                assert((first + more)[i] == more[i - first.len()]);
            }
        }
    }
}

/// Changes neither start nor end a transaction.
pub proof fn lemma_changes_done(
    before: Seq<Event>,
    after: Seq<Event>,
    s: Seq<StatementView>,
    n: Seq<Seq<usize>>,
)
    requires
        crate::trace::changes_done(before, after, s, n),
    ensures
        goes_on(before, after),
{
    lemma_same(before);
    lemma_events(s, n);
    lemma_more(before, before, crate::trace::events_of(s, n));
}

proof fn lemma_changes_failed(
    before: Seq<Event>,
    after: Seq<Event>,
    s: Seq<StatementView>,
    e: ErrorView,
)
    requires
        crate::trace::changes_failed(before, after, s, e),
    ensures
        goes_on(before, after),
{
    let (k, n, mid) = choose|k: int, n: Seq<Seq<usize>>, mid: Seq<Event>|
        0 <= k < s.len() && #[trigger] crate::trace::changes_done(before, mid, s.take(k), n)
            && crate::trace::change_failed(mid, after, s[k], e);
    lemma_changes_done(before, mid, s.take(k), n);
    let commands = crate::sqlite::commands_of(s[k]);
    let (j, m) = choose|j: int, m: Seq<usize>|
        0 <= j < commands.len() && crate::trace::rows_changed(commands.take(j), m)
            && crate::trace::command_failed(
            mid + #[trigger] crate::trace::executed(commands.take(j), m),
            after,
            commands[j],
            e,
        );
    let done = mid + crate::trace::executed(commands.take(j), m);
    lemma_more(before, mid, crate::trace::executed(commands.take(j), m));
    if after == crate::trace::after_command(done, commands[j], Err(e)) {
        lemma_push(before, done, Event::Execute(commands[j], Err(e)));
    } else {
        let c = choose|c: usize|
            !crate::trace::row_changed(commands[j], c) && e == ErrorView::InvalidCounter(
                commands[j].one_row->0,
            ) && after == #[trigger] crate::trace::after_command(done, commands[j], Ok(c));
        lemma_push(before, done, Event::Execute(commands[j], Ok(c)));
    }
}

proof fn lemma_query(
    before: Seq<Event>,
    mid: Seq<Event>,
    c: CommandView,
    answer: Result<Seq<Seq<crate::sql::SqlView>>, ErrorView>,
)
    requires
        goes_on(before, mid),
    ensures
        goes_on(before, crate::trace::after_query(mid, c, answer)),
{
    lemma_push(before, mid, Event::Query(c, answer));
}

/// Reading a flow neither starts nor ends a transaction.
pub proof fn lemma_loaded(before: Seq<Event>, after: Seq<Event>, f: LoadedView)
    requires
        crate::trace::flow_loaded(before, after, f),
    ensures
        goes_on(before, after),
{
    let rows = choose|rows: Seq<Seq<crate::sql::SqlView>>|
        after == crate::trace::after_query(
            #[trigger] crate::trace::after_query(
                before,
                crate::repository::state_query(f.flow_id),
                Ok(rows),
            ),
            crate::repository::ledger_query(f.flow_id),
            Ok(f.ledger),
        ) && f.state == crate::trace::first_of(rows);
    let mid = crate::trace::after_query(
        before,
        crate::repository::state_query(f.flow_id),
        Ok(rows),
    );
    lemma_same(before);
    lemma_query(before, before, crate::repository::state_query(f.flow_id), Ok(rows));
    lemma_query(before, mid, crate::repository::ledger_query(f.flow_id), Ok(f.ledger));
}

proof fn lemma_load_failed(
    before: Seq<Event>,
    after: Seq<Event>,
    flow_id: Seq<char>,
    e: ErrorView,
)
    requires
        crate::trace::load_failed(before, after, flow_id, e),
    ensures
        goes_on(before, after),
{
    lemma_same(before);
    let first = crate::repository::state_query(flow_id);
    lemma_query(before, before, first, Err(e));
    if after != crate::trace::after_query(before, first, Err(e)) {
        let rows = choose|rows: Seq<Seq<crate::sql::SqlView>>|
            after == crate::trace::after_query(
                #[trigger] crate::trace::after_query(before, first, Ok(rows)),
                crate::repository::ledger_query(flow_id),
                Err(e),
            );
        lemma_query(before, before, first, Ok(rows));
        lemma_query(
            before,
            crate::trace::after_query(before, first, Ok(rows)),
            crate::repository::ledger_query(flow_id),
            Err(e),
        );
    }
}

/// Storing a snapshot neither starts nor ends a transaction.
pub proof fn lemma_flow_stored(before: Seq<Event>, after: Seq<Event>, f: FlowView)
    requires
        crate::trace::flow_stored(before, after, f),
    ensures
        goes_on(before, after),
{
    let (mid, loaded, changes, n) = choose|
        mid: Seq<Event>,
        loaded: LoadedView,
        changes: Seq<StatementView>,
        n: Seq<Seq<usize>>,
    |
        {
            &&& #[trigger] crate::trace::flow_loaded(before, mid, loaded)
            &&& loaded.flow_id == f.flow_id
            &&& crate::storage::upserted(f, loaded.state, loaded.ledger) == Ok::<
                Seq<StatementView>,
                ErrorView,
            >(changes)
            &&& #[trigger] crate::trace::changes_done(mid, after, changes, n)
        };
    lemma_loaded(before, mid, loaded);
    lemma_changes_done(mid, after, changes, n);
    lemma_chain(before, mid, after);
}

proof fn lemma_flow_refused(before: Seq<Event>, after: Seq<Event>, f: FlowView, e: ErrorView)
    requires
        crate::trace::flow_refused(before, after, f, e),
    ensures
        goes_on(before, after),
{
    if crate::trace::load_failed(before, after, f.flow_id, e) {
        lemma_load_failed(before, after, f.flow_id, e);
    } else {
        let (mid, loaded) = choose|mid: Seq<Event>, loaded: LoadedView| #[trigger]
            crate::trace::flow_loaded(before, mid, loaded) && loaded.flow_id == f.flow_id
                && if !crate::repository::minute_fits(f.last_seen)
                || !crate::storage::state_minute_fits(loaded.state) {
                after == mid && e == ErrorView::Column
            } else {
                match crate::storage::upserted(f, loaded.state, loaded.ledger) {
                    Err(fault) => after == mid && e == fault,
                    Ok(changes) => crate::trace::changes_failed(mid, after, changes, e),
                }
            };
        lemma_loaded(before, mid, loaded);
        if after != mid {
            let changes = crate::storage::upserted(f, loaded.state, loaded.ledger)->Ok_0;
            lemma_changes_failed(mid, after, changes, e);
            lemma_chain(before, mid, after);
        }
    }
}

/// Storing snapshots neither starts nor ends a transaction.
pub proof fn lemma_flows_stored(before: Seq<Event>, after: Seq<Event>, flows: Seq<FlowView>)
    requires
        crate::trace::flows_stored(before, after, flows),
    ensures
        goes_on(before, after),
    decreases flows.len(),
{
    if flows.len() == 0 {
        lemma_same(before);
    } else {
        let mid = choose|mid: Seq<Event>|
            crate::trace::flows_stored(before, mid, flows.drop_last())
                && #[trigger] crate::trace::flow_stored(mid, after, flows.last());
        lemma_flows_stored(before, mid, flows.drop_last());
        lemma_flow_stored(mid, after, flows.last());
        lemma_chain(before, mid, after);
    }
}

proof fn lemma_flows_refused(
    before: Seq<Event>,
    after: Seq<Event>,
    flows: Seq<FlowView>,
    e: ErrorView,
)
    requires
        crate::trace::flows_refused(before, after, flows, e),
    ensures
        goes_on(before, after),
{
    let (k, mid) = choose|k: int, mid: Seq<Event>|
        0 <= k < flows.len() && #[trigger] crate::trace::flows_stored(before, mid, flows.take(k))
            && crate::trace::flow_refused(mid, after, flows[k], e);
    lemma_flows_stored(before, mid, flows.take(k));
    lemma_flow_refused(mid, after, flows[k], e);
    lemma_chain(before, mid, after);
}

/// Reading flows neither starts nor ends a transaction.
pub proof fn lemma_all_loaded(before: Seq<Event>, after: Seq<Event>, flows: Seq<LoadedView>)
    requires
        crate::trace::all_loaded(before, after, flows),
    ensures
        goes_on(before, after),
    decreases flows.len(),
{
    if flows.len() == 0 {
        lemma_same(before);
    } else {
        let mid = choose|mid: Seq<Event>|
            crate::trace::all_loaded(before, mid, flows.drop_last())
                && #[trigger] crate::trace::flow_loaded(mid, after, flows.last());
        lemma_all_loaded(before, mid, flows.drop_last());
        lemma_loaded(mid, after, flows.last());
        lemma_chain(before, mid, after);
    }
}

proof fn lemma_covered_loaded(
    before: Seq<Event>,
    after: Seq<Event>,
    b: BindingView,
    flows: Seq<LoadedView>,
)
    requires
        crate::trace::covered_loaded(
            before,
            after,
            b.client_mac,
            b.target_ip,
            b.attribution,
            flows,
        ),
    ensures
        goes_on(before, after),
{
    let ids = choose|ids: Seq<Seq<crate::sql::SqlView>>|
        {
            &&& crate::trace::all_loaded(
                #[trigger] crate::trace::listed(
                    before,
                    b.client_mac,
                    b.target_ip,
                    b.attribution,
                    ids,
                ),
                after,
                flows,
            )
            &&& crate::trace::names_flows(ids, flows)
            &&& flows.len() == ids.len()
        };
    let start = crate::trace::listed(before, b.client_mac, b.target_ip, b.attribution, ids);
    lemma_same(before);
    lemma_query(
        before,
        before,
        crate::sqlite::covered_flows(b.client_mac, b.target_ip, b.attribution),
        Ok(ids),
    );
    lemma_all_loaded(start, after, flows);
    lemma_chain(before, start, after);
}

proof fn lemma_covered_refused(
    before: Seq<Event>,
    after: Seq<Event>,
    b: BindingView,
    e: ErrorView,
)
    requires
        crate::trace::covered_refused(
            before,
            after,
            b.client_mac,
            b.target_ip,
            b.attribution,
            e,
        ),
    ensures
        goes_on(before, after),
{
    let c = crate::sqlite::covered_flows(b.client_mac, b.target_ip, b.attribution);
    lemma_same(before);
    lemma_query(before, before, c, Err(e));
    if after != crate::trace::after_query(before, c, Err(e)) {
        let (ids, flows, mid) = choose|
            ids: Seq<Seq<crate::sql::SqlView>>,
            flows: Seq<LoadedView>,
            mid: Seq<Event>,
        |
            {
                &&& #[trigger] crate::trace::all_loaded(
                    #[trigger] crate::trace::listed(
                        before,
                        b.client_mac,
                        b.target_ip,
                        b.attribution,
                        ids,
                    ),
                    mid,
                    flows,
                )
                &&& crate::trace::names_flows(ids, flows)
                &&& flows.len() < ids.len()
                &&& crate::trace::listed_refused(mid, after, ids[flows.len() as int], e)
            };
        let start = crate::trace::listed(before, b.client_mac, b.target_ip, b.attribution, ids);
        lemma_query(before, before, c, Ok(ids));
        lemma_all_loaded(start, mid, flows);
        lemma_chain(before, start, mid);
        match crate::sql::text_column(ids[flows.len() as int], 0) {
            None => {},
            Some(flow_id) => {
                if crate::trace::load_failed(mid, after, flow_id, e) {
                    lemma_load_failed(mid, after, flow_id, e);
                } else {
                    let loaded = choose|loaded: LoadedView| #[trigger]
                        crate::trace::flow_loaded(mid, after, loaded) && loaded.flow_id == flow_id
                            && !crate::storage::loaded_minute_fits(loaded);
                    lemma_loaded(mid, after, loaded);
                }
                lemma_chain(before, mid, after);
            },
        }
    }
}

/// Applying a binding neither starts nor ends a transaction.
pub proof fn lemma_binding_applied(before: Seq<Event>, after: Seq<Event>, b: BindingView, n: nat)
    requires
        crate::trace::binding_applied(
            before,
            after,
            b.client_mac,
            b.target_ip,
            b.attribution,
            n,
        ),
    ensures
        goes_on(before, after),
{
    let (mid, flows, changes, m) = choose|
        mid: Seq<Event>,
        flows: Seq<LoadedView>,
        changes: Seq<StatementView>,
        m: Seq<Seq<usize>>,
    |
        {
            &&& #[trigger] crate::trace::covered_loaded(
                before,
                mid,
                b.client_mac,
                b.target_ip,
                b.attribution,
                flows,
            )
            &&& crate::storage::all_backfilled(b.client_mac, b.attribution, flows) == Ok::<
                (Seq<StatementView>, nat),
                ErrorView,
            >((changes, n))
            &&& #[trigger] crate::trace::changes_done(mid, after, changes, m)
        };
    lemma_covered_loaded(before, mid, b, flows);
    lemma_changes_done(mid, after, changes, m);
    lemma_chain(before, mid, after);
}

proof fn lemma_binding_refused(before: Seq<Event>, after: Seq<Event>, b: BindingView, e: ErrorView)
    requires
        crate::trace::binding_refused(
            before,
            after,
            b.client_mac,
            b.target_ip,
            b.attribution,
            e,
        ),
    ensures
        goes_on(before, after),
{
    if crate::trace::covered_refused(
        before,
        after,
        b.client_mac,
        b.target_ip,
        b.attribution,
        e,
    ) {
        lemma_covered_refused(before, after, b, e);
    } else {
        let (mid, flows) = choose|mid: Seq<Event>, flows: Seq<LoadedView>| #[trigger]
            crate::trace::covered_loaded(
                before,
                mid,
                b.client_mac,
                b.target_ip,
                b.attribution,
                flows,
            ) && match crate::storage::all_backfilled(b.client_mac, b.attribution, flows) {
                Err(fault) => after == mid && e == fault,
                Ok(outcome) => crate::trace::changes_failed(mid, after, outcome.0, e),
            };
        lemma_covered_loaded(before, mid, b, flows);
        if after != mid {
            let outcome = crate::storage::all_backfilled(b.client_mac, b.attribution, flows)->Ok_0;
            lemma_changes_failed(mid, after, outcome.0, e);
            lemma_chain(before, mid, after);
        }
    }
}

proof fn lemma_bindings_applied(
    before: Seq<Event>,
    after: Seq<Event>,
    bindings: Seq<BindingView>,
    updated: nat,
)
    requires
        crate::trace::bindings_applied(before, after, bindings, updated),
    ensures
        goes_on(before, after),
    decreases bindings.len(),
{
    if bindings.len() == 0 {
        lemma_same(before);
    } else {
        let b = bindings.last();
        let (mid, n) = choose|mid: Seq<Event>, n: nat|
            n <= updated && crate::trace::bindings_applied(
                before,
                mid,
                bindings.drop_last(),
                (updated - n) as nat,
            ) && #[trigger] crate::trace::binding_applied(
                mid,
                after,
                b.client_mac,
                b.target_ip,
                b.attribution,
                n,
            );
        lemma_bindings_applied(before, mid, bindings.drop_last(), (updated - n) as nat);
        lemma_binding_applied(mid, after, b, n);
        lemma_chain(before, mid, after);
    }
}

proof fn lemma_bindings_refused(
    before: Seq<Event>,
    after: Seq<Event>,
    bindings: Seq<BindingView>,
    e: ErrorView,
)
    requires
        crate::trace::bindings_refused(before, after, bindings, e),
    ensures
        goes_on(before, after),
{
    if exists|k: int, n: nat|
        0 <= k <= bindings.len() && n > usize::MAX && #[trigger] crate::trace::bindings_applied(
            before,
            after,
            bindings.take(k),
            n,
        ) && e == crate::trace::uncountable() {
        let (k, n) = choose|k: int, n: nat|
            0 <= k <= bindings.len() && n > usize::MAX && #[trigger] crate::trace::bindings_applied(
                before,
                after,
                bindings.take(k),
                n,
            ) && e == crate::trace::uncountable();
        lemma_bindings_applied(before, after, bindings.take(k), n);
    } else {
        let (k, mid, n) = choose|k: int, mid: Seq<Event>, n: nat|
            0 <= k < bindings.len() && #[trigger] crate::trace::bindings_applied(
                before,
                mid,
                bindings.take(k),
                n,
            ) && crate::trace::binding_refused(
                mid,
                after,
                bindings[k].client_mac,
                bindings[k].target_ip,
                bindings[k].attribution,
                e,
            );
        lemma_bindings_applied(before, mid, bindings.take(k), n);
        lemma_binding_refused(mid, after, bindings[k], e);
        lemma_chain(before, mid, after);
    }
}

proof fn lemma_counted(
    before: Seq<Event>,
    after: Seq<Event>,
    c: CommandView,
    r: Result<usize, ErrorView>,
)
    requires
        crate::trace::counted(before, after, c, r),
    ensures
        goes_on(before, after),
{
    let answer = choose|answer: Result<Seq<Seq<crate::sql::SqlView>>, ErrorView>|
        after == #[trigger] crate::trace::after_query(before, c, answer) && match answer {
            Ok(rows) => r == crate::trace::count_of(rows),
            Err(e) => r == Err::<usize, ErrorView>(e),
        };
    lemma_same(before);
    lemma_query(before, before, c, answer);
}

proof fn lemma_device_counted(
    before: Seq<Event>,
    after: Seq<Event>,
    mac: Seq<char>,
    flows: usize,
    contributions: usize,
)
    requires
        crate::trace::device_counted(before, after, mac, flows, contributions),
    ensures
        goes_on(before, after),
{
    let (found, mid) = choose|found: Seq<Seq<crate::sql::SqlView>>, mid: Seq<Event>|
        found.len() > 0 && #[trigger] crate::trace::counted(
            #[trigger] crate::trace::looked_for(before, mac, found),
            mid,
            crate::repository::flow_count(mac),
            Ok(flows),
        ) && crate::trace::counted(
            mid,
            after,
            crate::repository::contribution_count(mac),
            Ok(contributions),
        );
    let start = crate::trace::looked_for(before, mac, found);
    lemma_same(before);
    lemma_query(before, before, crate::repository::known_query(mac), Ok(found));
    lemma_counted(start, mid, crate::repository::flow_count(mac), Ok(flows));
    lemma_counted(mid, after, crate::repository::contribution_count(mac), Ok(contributions));
    lemma_chain(before, start, mid);
    lemma_chain(before, mid, after);
}

/// Removing a device neither starts nor ends a transaction.
pub proof fn lemma_device_gone(
    before: Seq<Event>,
    after: Seq<Event>,
    mac: Seq<char>,
    done: DataDeletionResult,
)
    requires
        crate::trace::device_gone(before, after, mac, done),
    ensures
        goes_on(before, after),
{
    let (mid, n) = choose|mid: Seq<Event>, n: Seq<Seq<usize>>|
        {
            &&& #[trigger] crate::trace::device_counted(
                before,
                mid,
                mac,
                done.flows_deleted,
                done.contributions_deleted,
            )
            &&& #[trigger] crate::trace::changes_done(
                mid,
                after,
                crate::storage::device_deleted(mac),
                n,
            )
            &&& done.devices_deleted == 1
            &&& done.flows_redacted == 0
            &&& done.device_minutes_deleted == n[0][0]
            &&& done.domain_minutes_deleted == n[1][0]
        };
    lemma_device_counted(before, mid, mac, done.flows_deleted, done.contributions_deleted);
    lemma_changes_done(mid, after, crate::storage::device_deleted(mac), n);
    lemma_chain(before, mid, after);
}

proof fn lemma_device_kept(before: Seq<Event>, after: Seq<Event>, mac: Seq<char>, e: ErrorView)
    requires
        crate::trace::device_kept(before, after, mac, e),
    ensures
        goes_on(before, after),
{
    let known = crate::repository::known_query(mac);
    let flows_of = crate::repository::flow_count(mac);
    let more = crate::repository::contribution_count(mac);
    lemma_same(before);
    lemma_query(before, before, known, Err(e));
    if after == crate::trace::after_query(before, known, Err(e)) {
    } else if exists|found: Seq<Seq<crate::sql::SqlView>>|
        found.len() > 0 && crate::trace::counted(
            #[trigger] crate::trace::looked_for(before, mac, found),
            after,
            flows_of,
            Err(e),
        ) {
        let found = choose|found: Seq<Seq<crate::sql::SqlView>>|
            found.len() > 0 && crate::trace::counted(
                #[trigger] crate::trace::looked_for(before, mac, found),
                after,
                flows_of,
                Err(e),
            );
        lemma_query(before, before, known, Ok(found));
        lemma_counted(crate::trace::looked_for(before, mac, found), after, flows_of, Err(e));
        lemma_chain(before, crate::trace::looked_for(before, mac, found), after);
    } else if exists|found: Seq<Seq<crate::sql::SqlView>>, mid: Seq<Event>, flows: usize|
        found.len() > 0 && #[trigger] crate::trace::counted(
            #[trigger] crate::trace::looked_for(before, mac, found),
            mid,
            flows_of,
            Ok(flows),
        ) && crate::trace::counted(mid, after, more, Err(e)) {
        let (found, mid, flows) = choose|
            found: Seq<Seq<crate::sql::SqlView>>,
            mid: Seq<Event>,
            flows: usize,
        |
            found.len() > 0 && #[trigger] crate::trace::counted(
                #[trigger] crate::trace::looked_for(before, mac, found),
                mid,
                flows_of,
                Ok(flows),
            ) && crate::trace::counted(mid, after, more, Err(e));
        lemma_query(before, before, known, Ok(found));
        lemma_counted(crate::trace::looked_for(before, mac, found), mid, flows_of, Ok(flows));
        lemma_counted(mid, after, more, Err(e));
        lemma_chain(before, crate::trace::looked_for(before, mac, found), mid);
        lemma_chain(before, mid, after);
    } else {
        let (mid, flows, contributions) = choose|
            mid: Seq<Event>,
            flows: usize,
            contributions: usize,
        |
            #[trigger] crate::trace::device_counted(before, mid, mac, flows, contributions)
                && crate::trace::changes_failed(
                mid,
                after,
                crate::storage::device_deleted(mac),
                e,
            );
        lemma_device_counted(before, mid, mac, flows, contributions);
        lemma_changes_failed(mid, after, crate::storage::device_deleted(mac), e);
        lemma_chain(before, mid, after);
    }
}

proof fn lemma_range_counted(
    before: Seq<Event>,
    after: Seq<Event>,
    from_ms: i64,
    to_ms: i64,
    flows: usize,
    contributions: usize,
)
    requires
        crate::trace::range_counted(before, after, from_ms, to_ms, flows, contributions),
    ensures
        goes_on(before, after),
{
    let first = crate::repository::contributions_in(from_ms, to_ms);
    let mid = choose|mid: Seq<Event>| #[trigger]
        crate::trace::counted(before, mid, first, Ok(contributions)) && crate::trace::counted(
            mid,
            after,
            crate::repository::flows_in(from_ms, to_ms),
            Ok(flows),
        );
    lemma_counted(before, mid, first, Ok(contributions));
    lemma_counted(mid, after, crate::repository::flows_in(from_ms, to_ms), Ok(flows));
    lemma_chain(before, mid, after);
}

proof fn lemma_range_kept(
    before: Seq<Event>,
    after: Seq<Event>,
    from_ms: i64,
    to_ms: i64,
    e: ErrorView,
)
    requires
        crate::trace::range_kept(before, after, from_ms, to_ms, e),
    ensures
        goes_on(before, after),
{
    let first = crate::repository::contributions_in(from_ms, to_ms);
    let second = crate::repository::flows_in(from_ms, to_ms);
    if crate::trace::counted(before, after, first, Err(e)) {
        lemma_counted(before, after, first, Err(e));
    } else if exists|mid: Seq<Event>, contributions: usize| #[trigger]
        crate::trace::counted(before, mid, first, Ok(contributions)) && crate::trace::counted(
            mid,
            after,
            second,
            Err(e),
        ) {
        let (mid, contributions) = choose|mid: Seq<Event>, contributions: usize| #[trigger]
            crate::trace::counted(before, mid, first, Ok(contributions))
                && crate::trace::counted(mid, after, second, Err(e));
        lemma_counted(before, mid, first, Ok(contributions));
        lemma_counted(mid, after, second, Err(e));
        lemma_chain(before, mid, after);
    } else {
        let (mid, flows, contributions) = choose|
            mid: Seq<Event>,
            flows: usize,
            contributions: usize,
        |
            #[trigger] crate::trace::range_counted(
                before,
                mid,
                from_ms,
                to_ms,
                flows,
                contributions,
            ) && crate::trace::changes_failed(
                mid,
                after,
                crate::storage::range_deleted(from_ms, to_ms),
                e,
            );
        lemma_range_counted(before, mid, from_ms, to_ms, flows, contributions);
        lemma_changes_failed(mid, after, crate::storage::range_deleted(from_ms, to_ms), e);
        lemma_chain(before, mid, after);
    }
}

/// While no transaction starts or ends, the state before the one that is open stays.
proof fn lemma_saved<A>(
    effect: spec_fn(A, Event) -> A,
    h: Held<A>,
    before: Seq<Event>,
    after: Seq<Event>,
)
    requires
        goes_on(before, after),
    ensures
        replayed(effect, h, after).saved == replayed(effect, h, before).saved,
    decreases after.len(),
{
    if after.len() == before.len() {
        assert(after =~= after.take(before.len() as int));
    } else {
        let mid = after.drop_last();
        assert(mid.take(before.len() as int) =~= after.take(before.len() as int));
        assert forall|i: int| before.len() <= i < mid.len() implies is_inner(#[trigger] mid[i]) by {
            assert(is_inner(after[i]));
        }
        lemma_saved(effect, h, before, mid);
        assert(is_inner(after[after.len() - 1]));
    }
}

/// The state that lasts is that before the transaction, however the attempt to undo it went; and
/// where it went well, nothing of the transaction is left.
pub open spec fn left_alone<A>(
    effect: spec_fn(A, Event) -> A,
    h: Held<A>,
    before: Seq<Event>,
    after: Seq<Event>,
) -> bool {
    let held = replayed(effect, h, before);
    let left = replayed(effect, h, after);
    &&& lasting(left) == lasting(held)
    &&& after.last() == Event::Rollback(Ok(())) ==> left.now == held.now && left.saved is None
}

proof fn lemma_not_begun<A>(
    effect: spec_fn(A, Event) -> A,
    h: Held<A>,
    before: Seq<Event>,
    after: Seq<Event>,
    e: ErrorView,
)
    requires
        crate::trace::not_begun(before, after, e),
    ensures
        left_alone(effect, h, before, after),
{
    assert(after.drop_last() =~= before);
}

proof fn lemma_undone<A>(
    effect: spec_fn(A, Event) -> A,
    h: Held<A>,
    before: Seq<Event>,
    mid: Seq<Event>,
    after: Seq<Event>,
)
    requires
        replayed(effect, h, before).saved is None,
        goes_on(crate::trace::begun(before), mid),
        crate::trace::undone(mid, after),
    ensures
        left_alone(effect, h, before, after),
{
    let start = crate::trace::begun(before);
    assert(start.drop_last() =~= before);
    lemma_saved(effect, h, start, mid);
    let answer = choose|answer: Result<(), ErrorView>|
        after == #[trigger] crate::trace::after_rollback(mid, answer);
    assert(after.drop_last() =~= mid);
}

proof fn lemma_not_committed<A>(
    effect: spec_fn(A, Event) -> A,
    h: Held<A>,
    before: Seq<Event>,
    mid: Seq<Event>,
    after: Seq<Event>,
    e: ErrorView,
)
    requires
        replayed(effect, h, before).saved is None,
        goes_on(crate::trace::begun(before), mid),
        crate::trace::not_committed(mid, after, e),
    ensures
        left_alone(effect, h, before, after),
{
    let start = crate::trace::begun(before);
    assert(start.drop_last() =~= before);
    lemma_saved(effect, h, start, mid);
    let tried = mid.push(Event::Commit(Err(e)));
    assert(tried.drop_last() =~= mid);
    assert(replayed(effect, h, tried) == replayed(effect, h, mid));
    let answer = choose|answer: Result<(), ErrorView>|
        after == #[trigger] crate::trace::after_rollback(tried, answer);
    assert(after.drop_last() =~= tried);
}

/// A batch of snapshots that fails leaves nothing behind, also of those ahead of the one that
/// failed, whatever the commands do.
pub proof fn failed_batches_leave_nothing<A>(
    effect: spec_fn(A, Event) -> A,
    h: Held<A>,
    before: Seq<Event>,
    after: Seq<Event>,
    flows: Seq<FlowView>,
    e: ErrorView,
)
    requires
        replayed(effect, h, before).saved is None,
        crate::trace::batch_undone(before, after, flows, e),
    ensures
        left_alone(effect, h, before, after),
{
    let start = crate::trace::begun(before);
    if crate::trace::not_begun(before, after, e) {
        lemma_not_begun(effect, h, before, after, e);
    } else if exists|mid: Seq<Event>| #[trigger]
        crate::trace::flows_refused(start, mid, flows, e) && crate::trace::undone(mid, after) {
        let mid = choose|mid: Seq<Event>| #[trigger]
            crate::trace::flows_refused(start, mid, flows, e) && crate::trace::undone(mid, after);
        lemma_flows_refused(start, mid, flows, e);
        lemma_undone(effect, h, before, mid, after);
    } else {
        let mid = choose|mid: Seq<Event>| #[trigger]
            crate::trace::flows_stored(start, mid, flows) && crate::trace::not_committed(
                mid,
                after,
                e,
            );
        lemma_flows_stored(start, mid, flows);
        lemma_not_committed(effect, h, before, mid, after, e);
    }
}

/// Bindings that cannot all be applied leave nothing behind, whatever the commands do.
pub proof fn failed_backfills_leave_nothing<A>(
    effect: spec_fn(A, Event) -> A,
    h: Held<A>,
    before: Seq<Event>,
    after: Seq<Event>,
    bindings: Seq<BindingView>,
    e: ErrorView,
)
    requires
        replayed(effect, h, before).saved is None,
        crate::repository::backfill_undone(before, after, bindings, e),
    ensures
        left_alone(effect, h, before, after),
{
    let start = crate::trace::begun(before);
    if crate::trace::not_begun(before, after, e) {
        lemma_not_begun(effect, h, before, after, e);
    } else if exists|mid: Seq<Event>| #[trigger]
        crate::trace::bindings_refused(start, mid, bindings, e) && crate::trace::undone(
            mid,
            after,
        ) {
        let mid = choose|mid: Seq<Event>| #[trigger]
            crate::trace::bindings_refused(start, mid, bindings, e) && crate::trace::undone(
                mid,
                after,
            );
        lemma_bindings_refused(start, mid, bindings, e);
        lemma_undone(effect, h, before, mid, after);
    } else {
        let (mid, updated) = choose|mid: Seq<Event>, updated: nat| #[trigger]
            crate::trace::bindings_applied(start, mid, bindings, updated)
                && crate::trace::not_committed(mid, after, e);
        lemma_bindings_applied(start, mid, bindings, updated);
        lemma_not_committed(effect, h, before, mid, after, e);
    }
}

/// A device that cannot be removed keeps everything, whatever the commands do.
pub proof fn failed_device_deletions_leave_everything<A>(
    effect: spec_fn(A, Event) -> A,
    h: Held<A>,
    before: Seq<Event>,
    after: Seq<Event>,
    mac: Seq<char>,
    e: ErrorView,
)
    requires
        replayed(effect, h, before).saved is None,
        crate::repository::device_deletion_undone(before, after, mac, e),
    ensures
        left_alone(effect, h, before, after),
{
    let start = crate::trace::begun(before);
    if crate::trace::not_begun(before, after, e) {
        lemma_not_begun(effect, h, before, after, e);
    } else if exists|mid: Seq<Event>| #[trigger]
        crate::trace::device_kept(start, mid, mac, e) && crate::trace::undone(mid, after) {
        let mid = choose|mid: Seq<Event>| #[trigger]
            crate::trace::device_kept(start, mid, mac, e) && crate::trace::undone(mid, after);
        lemma_device_kept(start, mid, mac, e);
        lemma_undone(effect, h, before, mid, after);
    } else if exists|mid: Seq<Event>| #[trigger]
        crate::trace::device_unknown(start, mid, mac) && crate::trace::not_committed(
            mid,
            after,
            e,
        ) {
        let mid = choose|mid: Seq<Event>| #[trigger]
            crate::trace::device_unknown(start, mid, mac) && crate::trace::not_committed(
                mid,
                after,
                e,
            );
        let found = choose|found: Seq<Seq<crate::sql::SqlView>>|
            mid == #[trigger] crate::trace::looked_for(start, mac, found) && found.len() == 0;
        lemma_same(start);
        lemma_query(start, start, crate::repository::known_query(mac), Ok(found));
        lemma_not_committed(effect, h, before, mid, after, e);
    } else {
        let (mid, done) = choose|mid: Seq<Event>, done: DataDeletionResult| #[trigger]
            crate::trace::device_gone(start, mid, mac, done) && crate::trace::not_committed(
                mid,
                after,
                e,
            );
        lemma_device_gone(start, mid, mac, done);
        lemma_not_committed(effect, h, before, mid, after, e);
    }
}

/// A domain that cannot be removed keeps everything, whatever the commands do.
pub proof fn failed_domain_deletions_leave_everything<A>(
    effect: spec_fn(A, Event) -> A,
    h: Held<A>,
    before: Seq<Event>,
    after: Seq<Event>,
    mac: Option<Seq<char>>,
    domain: Seq<char>,
    e: ErrorView,
)
    requires
        replayed(effect, h, before).saved is None,
        crate::repository::domain_deletion_undone(before, after, mac, domain, e),
    ensures
        left_alone(effect, h, before, after),
{
    let start = crate::trace::begun(before);
    let changes = crate::storage::domain_deleted(mac, domain);
    if crate::trace::not_begun(before, after, e) {
        lemma_not_begun(effect, h, before, after, e);
    } else if exists|mid: Seq<Event>| #[trigger]
        crate::trace::changes_failed(start, mid, changes, e) && crate::trace::undone(mid, after) {
        let mid = choose|mid: Seq<Event>| #[trigger]
            crate::trace::changes_failed(start, mid, changes, e) && crate::trace::undone(
                mid,
                after,
            );
        lemma_changes_failed(start, mid, changes, e);
        lemma_undone(effect, h, before, mid, after);
    } else {
        let (mid, done) = choose|mid: Seq<Event>, done: DataDeletionResult| #[trigger]
            crate::trace::domain_gone(start, mid, mac, domain, done)
                && crate::trace::not_committed(mid, after, e);
        let n = choose|n: Seq<Seq<usize>>| #[trigger]
            crate::trace::changes_done(start, mid, changes, n);
        lemma_changes_done(start, mid, changes, n);
        lemma_not_committed(effect, h, before, mid, after, e);
    }
}

/// A range of time that cannot be removed keeps everything, whatever the commands do.
pub proof fn failed_range_deletions_leave_everything<A>(
    effect: spec_fn(A, Event) -> A,
    h: Held<A>,
    before: Seq<Event>,
    after: Seq<Event>,
    from_ms: i64,
    to_ms: i64,
    e: ErrorView,
)
    requires
        replayed(effect, h, before).saved is None,
        crate::repository::range_deletion_undone(before, after, from_ms, to_ms, e),
    ensures
        left_alone(effect, h, before, after),
{
    let start = crate::trace::begun(before);
    let changes = crate::storage::range_deleted(from_ms, to_ms);
    if crate::trace::not_begun(before, after, e) {
        lemma_not_begun(effect, h, before, after, e);
    } else if exists|mid: Seq<Event>| #[trigger]
        crate::trace::range_kept(start, mid, from_ms, to_ms, e) && crate::trace::undone(
            mid,
            after,
        ) {
        let mid = choose|mid: Seq<Event>| #[trigger]
            crate::trace::range_kept(start, mid, from_ms, to_ms, e) && crate::trace::undone(
                mid,
                after,
            );
        lemma_range_kept(start, mid, from_ms, to_ms, e);
        lemma_undone(effect, h, before, mid, after);
    } else {
        let (mid, done) = choose|mid: Seq<Event>, done: DataDeletionResult| #[trigger]
            crate::trace::range_gone(start, mid, from_ms, to_ms, done)
                && crate::trace::not_committed(mid, after, e);
        let (counting, n) = choose|counting: Seq<Event>, n: Seq<Seq<usize>>|
            #[trigger] crate::trace::range_counted(
                start,
                counting,
                from_ms,
                to_ms,
                done.flows_deleted,
                done.contributions_deleted,
            ) && #[trigger] crate::trace::changes_done(counting, mid, changes, n);
        lemma_range_counted(
            start,
            counting,
            from_ms,
            to_ms,
            done.flows_deleted,
            done.contributions_deleted,
        );
        lemma_changes_done(counting, mid, changes, n);
        lemma_chain(start, counting, mid);
        lemma_not_committed(effect, h, before, mid, after, e);
    }
}

/// A migration that fails leaves neither a part of it nor the new version number behind, whatever
/// its batches do.
pub proof fn failed_migrations_leave_nothing<A>(
    effect: spec_fn(A, Event) -> A,
    h: Held<A>,
    before: Seq<Event>,
    after: Seq<Event>,
    e: ErrorView,
)
    requires
        replayed(effect, h, before).saved is None,
        crate::trace::not_migrated(before, after, e),
    ensures
        left_alone(effect, h, before, after),
{
    let c = crate::repository::schema_version();
    if after == crate::trace::after_query(before, c, Err(e)) {
        assert(after.drop_last() =~= before);
    } else {
        let rows = choose|rows: Seq<Seq<crate::sql::SqlView>>|
            {
                let asked = #[trigger] crate::trace::version_asked(before, rows);
                match crate::trace::version_of(rows) {
                    None => after == asked && e == ErrorView::Column,
                    Some(version) => if version > 3 {
                        after == asked && e == ErrorView::UnsupportedSchema(
                            crate::schema::unsupported(version),
                        )
                    } else {
                        ||| crate::trace::not_begun(asked, after, e)
                        ||| exists|mid: Seq<Event>| #[trigger]
                            crate::trace::upgrade_failed(
                                crate::trace::begun(asked),
                                mid,
                                crate::trace::upgrade_of(version),
                                e,
                            ) && crate::trace::undone(mid, after)
                        ||| crate::trace::not_committed(
                            crate::trace::begun(asked) + crate::trace::batches_run(
                                crate::trace::upgrade_of(version),
                            ),
                            after,
                            e,
                        )
                    },
                }
            };
        let asked = crate::trace::version_asked(before, rows);
        assert(asked.drop_last() =~= before);
        if after != asked {
            let start = crate::trace::begun(asked);
            let batches = crate::trace::upgrade_of(crate::trace::version_of(rows)->0);
            lemma_same(start);
            if crate::trace::not_begun(asked, after, e) {
                lemma_not_begun(effect, h, asked, after, e);
            } else if exists|mid: Seq<Event>| #[trigger]
                crate::trace::upgrade_failed(start, mid, batches, e) && crate::trace::undone(
                    mid,
                    after,
                ) {
                let mid = choose|mid: Seq<Event>| #[trigger]
                    crate::trace::upgrade_failed(start, mid, batches, e) && crate::trace::undone(
                        mid,
                        after,
                    );
                let k = choose|k: int|
                    0 <= k < batches.len() && mid == (start + crate::trace::batches_run(
                        batches.take(k),
                    )).push(Event::Batch(#[trigger] batches[k], Err(e)));
                let run = crate::trace::batches_run(batches.take(k));
                lemma_more(start, start, run);
                lemma_push(start, start + run, Event::Batch(batches[k], Err(e)));
                lemma_undone(effect, h, asked, mid, after);
            } else {
                let run = crate::trace::batches_run(batches);
                lemma_more(start, start, run);
                lemma_not_committed(effect, h, asked, start + run, after, e);
            }
        }
    }
}

} // verus!
