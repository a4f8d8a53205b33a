//! What holds of a database that was filled by storing snapshots of flows, batch after batch: its
//! minutes add up to its flows, whatever was stored in which order.
use vstd::prelude::*;

use crate::domain::FlowView;
use crate::ledger::Database;
use crate::session::Event;
use crate::trace_laws::Held;

verus! {

/// The record of a session in which batches were stored, one after the other: as it was before the
/// first, and after each of them.
pub open spec fn stored_in_turn(logs: Seq<Seq<Event>>, batches: Seq<Seq<FlowView>>) -> bool {
    &&& logs.len() == batches.len() + 1
    &&& forall|i: int|
        0 <= i < batches.len() ==> crate::trace::batch_stored(
            logs[i],
            logs[i + 1],
            #[trigger] batches[i],
        )
}

/// A snapshot in one of the first batches has the identity and the device of the flow.
pub open spec fn in_batches(batches: Seq<Seq<FlowView>>, n: int, f: FlowView) -> bool {
    exists|i: int, k: int|
        0 <= i < n && 0 <= k < batches[i].len() && (#[trigger] batches[i][k]).flow_id == f.flow_id
            && batches[i][k].client_mac == f.client_mac
}

/// Each identity of a flow is that of one device, in all the batches.
pub open spec fn one_device_throughout(batches: Seq<Seq<FlowView>>) -> bool {
    forall|i: int, k: int, j: int, l: int|
        0 <= i < batches.len() && 0 <= k < batches[i].len() && 0 <= j < batches.len() && 0 <= l
            < batches[j].len() && (#[trigger] batches[i][k]).flow_id == (
        #[trigger] batches[j][l]).flow_id ==> batches[i][k].client_mac == batches[j][l].client_mac
}

/// Nothing was observed yet.
pub open spec fn is_fresh(db: Database) -> bool {
    &&& db.flows.len() == 0
    &&& db.device_minutes.len() == 0
    &&& db.domain_minutes.len() == 0
    &&& db.ledger.len() == 0
}

proof fn lemma_batch_is_prefix(before: Seq<Event>, after: Seq<Event>, flows: Seq<FlowView>)
    requires
        crate::trace::batch_stored(before, after, flows),
    ensures
        crate::replay_laws::is_prefix(before, after),
{
    let start = crate::trace::begun(before);
    let mid = choose|mid: Seq<Event>| #[trigger]
        crate::trace::flows_stored(start, mid, flows) && crate::trace::committed(mid, after);
    crate::trace_laws::lemma_flows_stored(start, mid, flows);
    assert forall|i: int| 0 <= i < before.len() implies after[i] == before[i] by {
        assert(mid.take(start.len() as int)[i] == start[i]);
    }
    assert(after.take(before.len() as int) =~= before);
}

proof fn lemma_told_before(
    effect: spec_fn(Database, Event) -> Database,
    h: Held<Database>,
    part: Seq<Event>,
    log: Seq<Event>,
)
    requires
        crate::replay_laws::is_prefix(part, log),
        crate::replay_laws::told_true(effect, h, log),
    ensures
        crate::replay_laws::told_true(effect, h, part),
{
    assert forall|b: Seq<Event>| #[trigger]
        crate::replay_laws::is_prefix(b, part) implies crate::replay_laws::is_prefix(b, log) by {
        assert(log.take(b.len() as int) =~= part.take(b.len() as int)) by {
            assert forall|i: int| 0 <= i < b.len() implies log[i] == part[i] by {
                assert(log.take(part.len() as int)[i] == part[i]);
            }
        }
    }
}

proof fn lemma_grown(
    effect: spec_fn(Database, Event) -> Database,
    h: Held<Database>,
    logs: Seq<Seq<Event>>,
    batches: Seq<Seq<FlowView>>,
    n: int,
)
    requires
        crate::replay_laws::carries_out(effect),
        stored_in_turn(logs, batches),
        0 <= n <= batches.len(),
        crate::replay_laws::told_true(effect, h, logs[n]),
        is_fresh(crate::trace_laws::replayed(effect, h, logs[0]).now),
        one_device_throughout(batches),
    ensures
        crate::tally_laws::settled(crate::trace_laws::replayed(effect, h, logs[n]).now),
        forall|k: int|
            0 <= k < crate::trace_laws::replayed(effect, h, logs[n]).now.flows.len()
                ==> in_batches(
                batches,
                n,
                #[trigger] crate::trace_laws::replayed(effect, h, logs[n]).now.flows[k],
            ),
    decreases n,
{
    if n == 0 {
        crate::tally_laws::empty_is_settled(crate::trace_laws::replayed(effect, h, logs[0]).now);
    } else {
        let flows = batches[n - 1];
        assert(crate::trace::batch_stored(logs[n - 1], logs[n - 1 + 1], flows));
        lemma_batch_is_prefix(logs[n - 1], logs[n], flows);
        lemma_told_before(effect, h, logs[n - 1], logs[n]);
        lemma_grown(effect, h, logs, batches, n - 1);
        let db = crate::trace_laws::replayed(effect, h, logs[n - 1]).now;
        let after = crate::tally_laws::all_stored(db, flows);
        assert(crate::replay_laws::one_device_each(db, flows)) by {
            assert forall|i: int, j: int|
                0 <= i < flows.len() && 0 <= j < flows.len() && (#[trigger] flows[i]).flow_id == (
                #[trigger] flows[j]).flow_id implies flows[i].client_mac == flows[j].client_mac by {
                assert(batches[n - 1][i].flow_id == batches[n - 1][j].flow_id);
            }
            assert forall|k: int, j: int|
                0 <= k < db.flows.len() && 0 <= j < flows.len() && (#[trigger] db.flows[k]).flow_id
                    == (#[trigger] flows[j]).flow_id implies db.flows[k].client_mac
                == flows[j].client_mac by {
                assert(in_batches(batches, n - 1, db.flows[k]));
                let (x, y) = choose|x: int, y: int|
                    0 <= x < n - 1 && 0 <= y < batches[x].len() && (
                    #[trigger] batches[x][y]).flow_id == db.flows[k].flow_id
                        && batches[x][y].client_mac == db.flows[k].client_mac;
                assert(batches[x][y].flow_id == batches[n - 1][j].flow_id);
            }
        }
        crate::replay_laws::stored_batches_reach_the_database(
            effect,
            h,
            logs[n - 1],
            logs[n],
            flows,
        );
        crate::tally_laws::storing_all_stays_settled(db, flows);
        crate::replay_laws::lemma_owners(db, flows);
        assert forall|k: int| 0 <= k < after.flows.len() implies in_batches(
            batches,
            n,
            #[trigger] after.flows[k],
        ) by {
            let f = after.flows[k];
            assert(crate::replay_laws::comes_from(db, flows, f));
            if exists|i: int|
                0 <= i < flows.len() && (#[trigger] flows[i]).flow_id == f.flow_id
                    && flows[i].client_mac == f.client_mac {
                let i = choose|i: int|
                    0 <= i < flows.len() && (#[trigger] flows[i]).flow_id == f.flow_id
                        && flows[i].client_mac == f.client_mac;
                assert(batches[n - 1][i].flow_id == f.flow_id);
            } else {
                let j = choose|j: int|
                    0 <= j < db.flows.len() && (#[trigger] db.flows[j]).flow_id == f.flow_id
                        && db.flows[j].client_mac == f.client_mac;
                assert(in_batches(batches, n - 1, db.flows[j]));
                let (x, y) = choose|x: int, y: int|
                    0 <= x < n - 1 && 0 <= y < batches[x].len() && (
                    #[trigger] batches[x][y]).flow_id == db.flows[j].flow_id
                        && batches[x][y].client_mac == db.flows[j].client_mac;
                assert(batches[x][y].flow_id == f.flow_id);
            }
        }
    }
}

/// Where nothing was observed at first, and since then only batches of snapshots were stored, in
/// which each identity of a flow is that of one device: the minutes of each device add up to the
/// counters of its flows, and those of each domain to the counters of the flows that are attributed
/// to it now.
pub proof fn minutes_of_stored_batches_add_up(
    effect: spec_fn(Database, Event) -> Database,
    h: Held<Database>,
    logs: Seq<Seq<Event>>,
    batches: Seq<Seq<FlowView>>,
    mac: Seq<char>,
    domain: Seq<char>,
    up: bool,
)
    requires
        crate::replay_laws::carries_out(effect),
        stored_in_turn(logs, batches),
        crate::replay_laws::told_true(effect, h, logs.last()),
        is_fresh(crate::trace_laws::replayed(effect, h, logs[0]).now),
        one_device_throughout(batches),
    ensures
        ({
            let db = crate::trace_laws::replayed(effect, h, logs.last()).now;
            &&& crate::storage_laws::device_total(db.device_minutes, mac, up)
                == crate::tally_laws::flow_total(db.flows, mac, up)
            &&& crate::tally_laws::domain_total(db.domain_minutes, mac, domain, up)
                == crate::tally_laws::attributed_total(db.flows, mac, domain, up)
        }),
{
    let n = batches.len() as int;
    lemma_grown(effect, h, logs, batches, n);
    crate::tally_laws::minutes_add_up_to_the_flows(
        crate::trace_laws::replayed(effect, h, logs[n]).now,
        mac,
        domain,
        up,
    );
}

/// Storing a snapshot counts for the minute in which its flow was last seen, of its own device,
/// exactly what the counters have grown by; storing it again counts nothing.
pub proof fn snapshots_count_in_their_minute(db: Database, f: FlowView)
    requires
        crate::ledger_laws::books(db),
        crate::ledger_laws::continues(db, f),
        crate::tally_laws::storable(f),
    ensures
        ({
            let once = crate::ledger_laws::stored(db, f)->0;
            let grown = crate::storage::increase(
                f,
                crate::ledger_laws::state_of(db, f.flow_id),
            );
            &&& once.device_minutes == if grown.upload_bytes > 0 || grown.download_bytes > 0 {
                crate::ledger::device_minute_added(
                    db.device_minutes,
                    f.client_mac,
                    crate::domain::minute_of(f.last_seen as int) as i64,
                    grown.upload_bytes as int,
                    grown.download_bytes as int,
                )
            } else {
                db.device_minutes
            }
            &&& crate::ledger_laws::stored(once, f) == Some(once)
        }),
{
    crate::ledger_laws::storing_keeps_the_books(db, f);
    crate::storage_laws::duplicate_snapshot_changes_nothing(db, f);
}

} // verus!
