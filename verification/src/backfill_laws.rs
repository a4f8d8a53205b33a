//! What holds of domain bindings that are applied to flows that are stored already.
use vstd::prelude::*;

use crate::domain::{AttributionView, FlowView};
use crate::ledger::Database;
use crate::session::Event;
use crate::sql::{ErrorView, SqlView};
use crate::storage::{ContributionView, LoadedView, StatementView, StoredView};
use crate::trace::BindingView;
use crate::trace_laws::Held;

verus! {

/// The binding covers the flow: it is of its client to its target, was seen after the binding was
/// made and began before it expires.
pub open spec fn covers(b: BindingView, f: FlowView) -> bool {
    &&& f.client_mac == b.client_mac
    &&& f.destination_ip == b.target_ip
    &&& f.last_seen >= b.attribution.associated_at
    &&& f.first_seen < match b.attribution.expires_at {
        Some(t) => t,
        None => i64::MAX,
    }
}

/// A flow after a binding was applied to it.
pub open spec fn bound(b: BindingView, f: FlowView) -> FlowView {
    if covers(b, f) {
        FlowView { domain: crate::storage::effective(f.domain, Some(b.attribution)), ..f }
    } else {
        f
    }
}

/// Flows after bindings were applied to them, one after the other.
pub open spec fn all_bound(flows: Seq<FlowView>, bindings: Seq<BindingView>) -> Seq<FlowView>
    decreases bindings.len(),
{
    if bindings.len() == 0 {
        flows
    } else {
        all_bound(flows, bindings.drop_last()).map_values(|f: FlowView| bound(bindings.last(), f))
    }
}

/// The rows name exactly the flows that the binding covers, each of them once.
pub open spec fn lists_true(db: Database, b: BindingView, ids: Seq<Seq<SqlView>>) -> bool {
    &&& forall|k: int|
        0 <= k < ids.len() ==> {
            &&& crate::sql::text_column(#[trigger] ids[k], 0) is Some
            &&& crate::ledger::knows_flow(db.flows, crate::sql::text_column(ids[k], 0)->0)
        }
    &&& forall|j: int, k: int|
        0 <= j < k < ids.len() ==> crate::sql::text_column(#[trigger] ids[j], 0)
            != crate::sql::text_column(#[trigger] ids[k], 0)
    &&& forall|i: int|
        0 <= i < db.flows.len() ==> (covers(b, #[trigger] db.flows[i]) <==> exists|k: int|
            0 <= k < ids.len() && crate::sql::text_column(#[trigger] ids[k], 0) == Some(
                db.flows[i].flow_id,
            ))
}

/// Whatever flows were listed for a binding were those that it covered at that time.
pub open spec fn listed_true(
    effect: spec_fn(Database, Event) -> Database,
    h: Held<Database>,
    log: Seq<Event>,
) -> bool {
    forall|a: Seq<Event>, b: BindingView, ids: Seq<Seq<SqlView>>|
        crate::replay_laws::is_prefix(
            #[trigger] crate::trace::listed(a, b.client_mac, b.target_ip, b.attribution, ids),
            log,
        ) ==> lists_true(crate::trace_laws::replayed(effect, h, a).now, b, ids)
}

/// What late attributions never touch: devices, their traffic, and all of a flow but its domain.
/// Nothing is left uncounted by them, and nothing is counted twice.
pub open spec fn only_attributes(db: Database, after: Database) -> bool {
    &&& after.devices == db.devices
    &&& after.device_minutes == db.device_minutes
    &&& crate::ledger_laws::books(after)
    &&& crate::tally_laws::settled(db) ==> crate::tally_laws::settled(after)
}

/// The flow is among the first `k` that were read.
spec fn is_read(loaded: Seq<LoadedView>, k: int, id: Seq<char>) -> bool {
    exists|j: int| 0 <= j < k && (#[trigger] loaded[j]).flow_id == id
}

spec fn marked_flow(loaded: Seq<LoadedView>, k: int, a: AttributionView, f: FlowView) -> FlowView {
    if is_read(loaded, k, f.flow_id) {
        FlowView { domain: crate::storage::effective(f.domain, Some(a)), ..f }
    } else {
        f
    }
}

/// What was read are flows of the device, each of them once, as they are stored.
spec fn read_true(db: Database, mac: Seq<char>, loaded: Seq<LoadedView>) -> bool {
    &&& forall|k: int|
        0 <= k < loaded.len() ==> {
            let id = (#[trigger] loaded[k]).flow_id;
            &&& crate::replay_laws::reads_true(db, loaded[k])
            &&& crate::ledger::knows_flow(db.flows, id)
            &&& db.flows[crate::ledger_laws::flow_index(db.flows, id)].client_mac == mac
        }
    &&& forall|j: int, k: int|
        0 <= j < k < loaded.len() ==> (#[trigger] loaded[j]).flow_id != (
        #[trigger] loaded[k]).flow_id
}

/// What is planned for a flow that was read are the changes that its state calls for.
proof fn lemma_planned(
    mac: Seq<char>,
    a: AttributionView,
    flow: LoadedView,
    row: Seq<SqlView>,
    st: StoredView,
    cs: Seq<ContributionView>,
)
    requires
        flow.state == Some(row),
        crate::storage::stored_state(row) == Ok::<StoredView, ErrorView>(st),
        crate::storage::ledger_of(flow.ledger) == Ok::<Seq<ContributionView>, ErrorView>(cs),
    ensures
        ({
            let changes = crate::storage_laws::backfill_changes(flow.flow_id, mac, st, a, cs);
            match crate::storage::backfilled(mac, a, flow) {
                Err(_) => false,
                Ok(None) => changes == Seq::<StatementView>::empty(),
                Ok(Some(planned)) => planned == changes,
            }
        }),
{
    crate::storage::lemma_ledger_len(flow.ledger);
}

proof fn lemma_bound(
    db: Database,
    mac: Seq<char>,
    a: AttributionView,
    loaded: Seq<LoadedView>,
    k: int,
) -> (after: Database)
    requires
        crate::ledger_laws::books(db),
        read_true(db, mac, loaded),
        0 <= k <= loaded.len(),
    ensures
        crate::storage::all_backfilled(mac, a, loaded.take(k)) is Ok,
        crate::ledger::applied_all(
            db,
            crate::storage::all_backfilled(mac, a, loaded.take(k))->Ok_0.0,
        ) == Some(after),
        only_attributes(db, after),
        after.flows == db.flows.map_values(|f: FlowView| marked_flow(loaded, k, a, f)),
        forall|o: Seq<char>|
            !is_read(loaded, k, o) ==> #[trigger] crate::ledger_laws::entries_of(after.ledger, o)
                == crate::ledger_laws::entries_of(db.ledger, o),
    decreases k,
{
    if k == 0 {
        assert(db.flows.map_values(|f: FlowView| marked_flow(loaded, 0, a, f)) =~= db.flows);
        db
    } else {
        let mid = lemma_bound(db, mac, a, loaded, k - 1);
        let flow = loaded[k - 1];
        let id = flow.flow_id;
        assert(loaded.take(k).drop_last() =~= loaded.take(k - 1));
        assert(loaded.take(k).last() == flow);
        assert(crate::replay_laws::reads_true(db, flow));
        let at = crate::ledger_laws::flow_index(db.flows, id);
        assert(0 <= at < db.flows.len() && db.flows[at].flow_id == id);
        assert(!is_read(loaded, k - 1, id)) by {
            if is_read(loaded, k - 1, id) {
                let j = choose|j: int| 0 <= j < k - 1 && (#[trigger] loaded[j]).flow_id == id;
                assert(loaded[j].flow_id != loaded[k - 1].flow_id);
            }
        }
        let f = mid.flows[at];
        assert(f == db.flows[at]);
        let st = StoredView {
            counters: crate::storage::counters_of(f),
            last_seen: f.last_seen,
            domain: f.domain,
        };
        let cs = crate::ledger_laws::entries_of(mid.ledger, id);
        let changes = crate::storage_laws::backfill_changes(id, mac, st, a, cs);
        crate::storage_laws::backfilling_keeps_the_books(mid, at, a);
        if crate::tally_laws::settled(db) {
            crate::tally_laws::backfilling_stays_settled(mid, at, a);
        }
        lemma_planned(mac, a, flow, flow.state->0, st, cs);
        let after = crate::ledger::applied_all(mid, changes)->0;
        let before = crate::storage::all_backfilled(mac, a, loaded.take(k - 1))->Ok_0;
        crate::ledger::lemma_applied_append(db, before.0, changes);
        assert(before.0 + Seq::<StatementView>::empty() =~= before.0);
        let marked = db.flows.map_values(|f: FlowView| marked_flow(loaded, k, a, f));
        assert forall|i: int| 0 <= i < db.flows.len() implies after.flows[i] == marked[i] by {
            let o = db.flows[i].flow_id;
            if i == at {
                assert(loaded[k - 1].flow_id == o);
                assert(is_read(loaded, k, o));
            } else {
                assert(o != id) by {
                    if i < at {
                        assert(db.flows[i].flow_id != db.flows[at].flow_id);
                    } else {
                        assert(db.flows[at].flow_id != db.flows[i].flow_id);
                    }
                }
                assert(is_read(loaded, k, o) == is_read(loaded, k - 1, o)) by {
                    if is_read(loaded, k, o) {
                        let j = choose|j: int| 0 <= j < k && (#[trigger] loaded[j]).flow_id == o;
                        assert(j < k - 1);
                    }
                    if is_read(loaded, k - 1, o) {
                        let j = choose|j: int|
                            0 <= j < k - 1 && (#[trigger] loaded[j]).flow_id == o;
                        assert(loaded[j].flow_id == o);
                    }
                }
            }
        }
        assert(after.flows =~= marked);
        assert forall|o: Seq<char>|
            !is_read(loaded, k, o) implies #[trigger] crate::ledger_laws::entries_of(
            after.ledger,
            o,
        ) == crate::ledger_laws::entries_of(db.ledger, o) by {
            if o == id {
                assert(loaded[k - 1].flow_id == o);
            }
            if is_read(loaded, k - 1, o) {
                let j = choose|j: int| 0 <= j < k - 1 && (#[trigger] loaded[j]).flow_id == o;
                assert(loaded[j].flow_id == o);
            }
            assert(crate::ledger_laws::entries_of(mid.ledger, o)
                == crate::ledger_laws::entries_of(db.ledger, o));
        }
        after
    }
}

proof fn lemma_prefix_told(
    effect: spec_fn(Database, Event) -> Database,
    h: Held<Database>,
    part: Seq<Event>,
    log: Seq<Event>,
)
    requires
        crate::replay_laws::is_prefix(part, log),
        crate::replay_laws::told_true(effect, h, log),
        listed_true(effect, h, log),
    ensures
        crate::replay_laws::told_true(effect, h, part),
        listed_true(effect, h, part),
{
    assert forall|b: Seq<Event>| #[trigger]
        crate::replay_laws::is_prefix(b, part) implies crate::replay_laws::is_prefix(b, log) by {
        assert(log.take(b.len() as int) =~= part.take(b.len() as int)) by {
            assert forall|i: int| 0 <= i < b.len() implies log[i] == part[i] by {
                assert(log.take(part.len() as int)[i] == part[i]);
            }
        }
    }
}

proof fn lemma_all_read(
    effect: spec_fn(Database, Event) -> Database,
    h: Held<Database>,
    start: Seq<Event>,
    after: Seq<Event>,
    loaded: Seq<LoadedView>,
)
    requires
        crate::trace::all_loaded(start, after, loaded),
        crate::replay_laws::told_true(effect, h, after),
    ensures
        crate::trace_laws::replayed(effect, h, after) == crate::trace_laws::replayed(
            effect,
            h,
            start,
        ),
        forall|k: int|
            0 <= k < loaded.len() ==> crate::replay_laws::reads_true(
                crate::trace_laws::replayed(effect, h, start).now,
                #[trigger] loaded[k],
            ),
    decreases loaded.len(),
{
    if loaded.len() > 0 {
        let f = loaded.last();
        let mid = choose|mid: Seq<Event>|
            crate::trace::all_loaded(start, mid, loaded.drop_last())
                && #[trigger] crate::trace::flow_loaded(mid, after, f);
        crate::trace_laws::lemma_loaded(mid, after, f);
        assert(after.take(after.len() as int) =~= after);
        assert(crate::replay_laws::is_prefix(after, after));
        assert(crate::replay_laws::told_true(effect, h, mid)) by {
            assert forall|a: Seq<Event>, b: Seq<Event>, g: LoadedView| #[trigger]
                crate::trace::flow_loaded(a, b, g) && crate::replay_laws::is_prefix(
                    b,
                    mid,
                ) implies crate::replay_laws::reads_true(
                crate::trace_laws::replayed(effect, h, a).now,
                g,
            ) by {
                assert(after.take(b.len() as int) =~= mid.take(b.len() as int)) by {
                    assert forall|i: int| 0 <= i < b.len() implies after[i] == mid[i] by {
                        assert(after.take(mid.len() as int)[i] == mid[i]);
                    }
                }
                assert(crate::replay_laws::is_prefix(b, after));
            }
        }
        lemma_all_read(effect, h, start, mid, loaded.drop_last());
        crate::replay_laws::lemma_reading(effect, h, mid, after, f);
        assert forall|k: int| 0 <= k < loaded.len() implies crate::replay_laws::reads_true(
            crate::trace_laws::replayed(effect, h, start).now,
            #[trigger] loaded[k],
        ) by {
            if k < loaded.len() - 1 {
                assert(loaded.drop_last()[k] == loaded[k]);
            }
        }
    }
}

/// A binding that was applied gives exactly the flows that it covers the attribution that the rules
/// decide on, and touches nothing else of them. Applying it never fails on what is stored.
pub proof fn applied_binding_reaches_the_database(
    effect: spec_fn(Database, Event) -> Database,
    h: Held<Database>,
    before: Seq<Event>,
    after: Seq<Event>,
    b: BindingView,
    n: nat,
)
    requires
        crate::replay_laws::carries_out(effect),
        crate::replay_laws::told_true(effect, h, after),
        listed_true(effect, h, after),
        crate::trace::binding_applied(
            before,
            after,
            b.client_mac,
            b.target_ip,
            b.attribution,
            n,
        ),
        crate::ledger_laws::books(crate::trace_laws::replayed(effect, h, before).now),
    ensures
        ({
            let db = crate::trace_laws::replayed(effect, h, before);
            let left = crate::trace_laws::replayed(effect, h, after);
            &&& left.saved == db.saved
            &&& only_attributes(db.now, left.now)
            &&& left.now.flows == db.now.flows.map_values(|f: FlowView| bound(b, f))
        }),
{
    let held = crate::trace_laws::replayed(effect, h, before);
    let db = held.now;
    let (mid, loaded, changes, m) = choose|
        mid: Seq<Event>,
        loaded: Seq<LoadedView>,
        changes: Seq<StatementView>,
        m: Seq<Seq<usize>>,
    |
        {
            &&& #[trigger] crate::trace::covered_loaded(
                before,
                mid,
                b.client_mac,
                b.target_ip,
                b.attribution,
                loaded,
            )
            &&& crate::storage::all_backfilled(b.client_mac, b.attribution, loaded) == Ok::<
                (Seq<StatementView>, nat),
                ErrorView,
            >((changes, n))
            &&& #[trigger] crate::trace::changes_done(mid, after, changes, m)
        };
    let ids = choose|ids: Seq<Seq<SqlView>>|
        {
            &&& crate::trace::all_loaded(
                #[trigger] crate::trace::listed(
                    before,
                    b.client_mac,
                    b.target_ip,
                    b.attribution,
                    ids,
                ),
                mid,
                loaded,
            )
            &&& crate::trace::names_flows(ids, loaded)
            &&& loaded.len() == ids.len()
        };
    let start = crate::trace::listed(before, b.client_mac, b.target_ip, b.attribution, ids);
    crate::trace_laws::lemma_changes_done(mid, after, changes, m);
    crate::trace_laws::lemma_all_loaded(start, mid, loaded);
    crate::trace_laws::lemma_chain(start, mid, after);
    lemma_prefix_told(effect, h, mid, after);
    assert(crate::replay_laws::is_prefix(start, after));
    assert(lists_true(db, b, ids));
    crate::replay_laws::lemma_asked(
        effect,
        h,
        before,
        crate::sqlite::covered_flows(b.client_mac, b.target_ip, b.attribution),
        Ok(ids),
    );
    lemma_all_read(effect, h, start, mid, loaded);
    assert forall|k: int| 0 <= k < loaded.len() implies {
        let id = (#[trigger] loaded[k]).flow_id;
        &&& crate::replay_laws::reads_true(db, loaded[k])
        &&& crate::ledger::knows_flow(db.flows, id)
        &&& db.flows[crate::ledger_laws::flow_index(db.flows, id)].client_mac == b.client_mac
    } by {
        let id = loaded[k].flow_id;
        assert(crate::sql::text_column(ids[k], 0) == Some(id));
        let at = crate::ledger_laws::flow_index(db.flows, id);
        assert(0 <= at < db.flows.len() && db.flows[at].flow_id == id);
        assert(covers(b, db.flows[at]));
    }
    assert forall|j: int, k: int| 0 <= j < k < loaded.len() implies (#[trigger] loaded[j]).flow_id
        != (#[trigger] loaded[k]).flow_id by {
        assert(crate::sql::text_column(ids[j], 0) != crate::sql::text_column(ids[k], 0));
    }
    let len = loaded.len() as int;
    let left = lemma_bound(db, b.client_mac, b.attribution, loaded, len);
    assert(loaded.take(len) =~= loaded);
    crate::replay_laws::changes_reach_the_database(effect, h, mid, after, changes, m);
    assert forall|i: int| 0 <= i < db.flows.len() implies marked_flow(
        loaded,
        len,
        b.attribution,
        db.flows[i],
    ) == bound(b, #[trigger] db.flows[i]) by {
        let id = db.flows[i].flow_id;
        if covers(b, db.flows[i]) {
            let k = choose|k: int|
                0 <= k < ids.len() && crate::sql::text_column(#[trigger] ids[k], 0) == Some(id);
            assert(loaded[k].flow_id == id);
        }
        if is_read(loaded, len, id) {
            let k = choose|k: int| 0 <= k < len && (#[trigger] loaded[k]).flow_id == id;
            assert(crate::sql::text_column(ids[k], 0) == Some(id));
        }
    }
    assert(left.flows =~= db.flows.map_values(|f: FlowView| bound(b, f)));
}

proof fn lemma_bindings_reach(
    effect: spec_fn(Database, Event) -> Database,
    h: Held<Database>,
    before: Seq<Event>,
    after: Seq<Event>,
    bindings: Seq<BindingView>,
    updated: nat,
)
    requires
        crate::replay_laws::carries_out(effect),
        crate::replay_laws::told_true(effect, h, after),
        listed_true(effect, h, after),
        crate::trace::bindings_applied(before, after, bindings, updated),
        crate::ledger_laws::books(crate::trace_laws::replayed(effect, h, before).now),
    ensures
        ({
            let db = crate::trace_laws::replayed(effect, h, before);
            let left = crate::trace_laws::replayed(effect, h, after);
            &&& left.saved == db.saved
            &&& only_attributes(db.now, left.now)
            &&& left.now.flows == all_bound(db.now.flows, bindings)
        }),
    decreases bindings.len(),
{
    if bindings.len() > 0 {
        let b = bindings.last();
        let (mid, n) = choose|mid: Seq<Event>, n: nat|
            n <= updated && crate::trace::bindings_applied(
                before,
                mid,
                bindings.drop_last(),
                (updated - n) as nat,
            ) && #[trigger] crate::trace::binding_applied(
                mid,
                after,
                b.client_mac,
                b.target_ip,
                b.attribution,
                n,
            );
        crate::trace_laws::lemma_binding_applied(mid, after, b, n);
        assert(crate::replay_laws::is_prefix(mid, after));
        lemma_prefix_told(effect, h, mid, after);
        lemma_bindings_reach(
            effect,
            h,
            before,
            mid,
            bindings.drop_last(),
            (updated - n) as nat,
        );
        applied_binding_reaches_the_database(effect, h, mid, after, b, n);
    }
}

/// Bindings that were applied in one transaction leave what they leave one after the other, and
/// that lasts: flows that they cover are attributed anew, the traffic of devices stays as it is, no
/// byte is left uncounted and none is counted twice.
pub proof fn backfills_reach_the_database(
    effect: spec_fn(Database, Event) -> Database,
    h: Held<Database>,
    before: Seq<Event>,
    after: Seq<Event>,
    bindings: Seq<BindingView>,
    updated: nat,
)
    requires
        crate::replay_laws::carries_out(effect),
        crate::replay_laws::told_true(effect, h, after),
        listed_true(effect, h, after),
        crate::repository::backfill_done(before, after, bindings, updated),
        crate::ledger_laws::books(crate::trace_laws::replayed(effect, h, before).now),
    ensures
        ({
            let db = crate::trace_laws::replayed(effect, h, before).now;
            let left = crate::trace_laws::replayed(effect, h, after);
            &&& left.saved is None
            &&& only_attributes(db, left.now)
            &&& left.now.flows == all_bound(db.flows, bindings)
        }),
{
    let start = crate::trace::begun(before);
    let mid = choose|mid: Seq<Event>| #[trigger]
        crate::trace::bindings_applied(start, mid, bindings, updated)
            && crate::trace::committed(mid, after);
    assert(start.drop_last() =~= before);
    assert(after.drop_last() =~= mid);
    assert(after.take(mid.len() as int) =~= mid);
    lemma_prefix_told(effect, h, mid, after);
    lemma_bindings_reach(effect, h, start, mid, bindings, updated);
}

/// Applying a binding a second time changes no flow.
pub proof fn binding_twice_is_binding_once(b: BindingView, f: FlowView)
    ensures
        bound(b, bound(b, f)) == bound(b, f),
{
    crate::storage::effective_attribution_is_stable(f.domain, Some(b.attribution));
}

} // verus!
