//! What stays behind when a database carries out what is asked of it: a batch of snapshots, a
//! deletion or an expiry leaves exactly what the ledger says of it, and what is stored reads back.
//!
//! That a database does so is a condition of each law that needs it, and is assumed nowhere else.
use vstd::prelude::*;

use crate::domain::{DataDeletionResult, Device, DeviceView, Flow, FlowView};
use crate::ledger::Database;
use crate::session::Event;
use crate::sql::{CommandView, ErrorView, SqlValue, SqlView, StorageError};
use crate::storage::{ContributionView, LoadedView, StatementView, StoredView};
use crate::trace_laws::Held;

verus! {

/// What is stored after commands, one after the other.
pub open spec fn ran(
    effect: spec_fn(Database, Event) -> Database,
    db: Database,
    events: Seq<Event>,
) -> Database
    decreases events.len(),
{
    if events.len() == 0 {
        db
    } else {
        effect(ran(effect, db, events.drop_last()), events.last())
    }
}

/// The commands of each change do what the ledger says of the change.
pub open spec fn carries_out(effect: spec_fn(Database, Event) -> Database) -> bool {
    forall|db: Database, s: StatementView, n: Seq<usize>|
        crate::ledger::applied(db, s) is Some && crate::trace::rows_changed(
            crate::sqlite::commands_of(s),
            n,
        ) ==> #[trigger] ran(
            effect,
            db,
            crate::trace::executed(crate::sqlite::commands_of(s), n),
        ) == crate::ledger::applied(db, s)->0
}

/// What was read of a flow is what is stored of it.
pub open spec fn reads_true(db: Database, f: LoadedView) -> bool {
    &&& match f.state {
        None => crate::ledger_laws::state_of(db, f.flow_id) is None,
        Some(row) => crate::ledger_laws::state_of(db, f.flow_id) is Some
            && crate::storage::stored_state(row) == Ok::<StoredView, ErrorView>(
            crate::ledger_laws::state_of(db, f.flow_id)->0,
        ),
    }
    &&& crate::storage::ledger_of(f.ledger) == Ok::<Seq<ContributionView>, ErrorView>(
        crate::ledger_laws::entries_of(db.ledger, f.flow_id),
    )
}

/// The record begins with the other.
pub open spec fn is_prefix(part: Seq<Event>, log: Seq<Event>) -> bool {
    part.len() <= log.len() && log.take(part.len() as int) == part
}

/// Whatever was read of a flow was what was stored at that time.
pub open spec fn told_true(
    effect: spec_fn(Database, Event) -> Database,
    h: Held<Database>,
    log: Seq<Event>,
) -> bool {
    forall|a: Seq<Event>, b: Seq<Event>, f: LoadedView| #[trigger]
        crate::trace::flow_loaded(a, b, f) && is_prefix(b, log) ==> reads_true(
            crate::trace_laws::replayed(effect, h, a).now,
            f,
        )
}

/// A question changes nothing.
pub proof fn lemma_asked<A>(
    effect: spec_fn(A, Event) -> A,
    h: Held<A>,
    log: Seq<Event>,
    c: CommandView,
    answer: Result<Seq<Seq<SqlView>>, ErrorView>,
)
    ensures
        crate::trace_laws::replayed(effect, h, crate::trace::after_query(log, c, answer))
            == crate::trace_laws::replayed(effect, h, log),
{
    assert(crate::trace::after_query(log, c, answer).drop_last() =~= log);
}

/// Reading a flow changes nothing.
pub proof fn lemma_reading(
    effect: spec_fn(Database, Event) -> Database,
    h: Held<Database>,
    before: Seq<Event>,
    after: Seq<Event>,
    f: LoadedView,
)
    requires
        crate::trace::flow_loaded(before, after, f),
    ensures
        crate::trace_laws::replayed(effect, h, after) == crate::trace_laws::replayed(
            effect,
            h,
            before,
        ),
{
    let first = crate::repository::state_query(f.flow_id);
    let rows = choose|rows: Seq<Seq<SqlView>>|
        after == crate::trace::after_query(
            #[trigger] crate::trace::after_query(before, first, Ok(rows)),
            crate::repository::ledger_query(f.flow_id),
            Ok(f.ledger),
        ) && f.state == crate::trace::first_of(rows);
    lemma_asked(effect, h, before, first, Ok(rows));
    lemma_asked(
        effect,
        h,
        crate::trace::after_query(before, first, Ok(rows)),
        crate::repository::ledger_query(f.flow_id),
        Ok(f.ledger),
    );
}

proof fn lemma_executed(
    effect: spec_fn(Database, Event) -> Database,
    h: Held<Database>,
    log: Seq<Event>,
    commands: Seq<CommandView>,
    n: Seq<usize>,
    k: int,
)
    requires
        0 <= k <= commands.len(),
    ensures
        crate::trace_laws::replayed(
            effect,
            h,
            log + crate::trace::executed(commands, n).take(k),
        ) == (Held {
            now: ran(
                effect,
                crate::trace_laws::replayed(effect, h, log).now,
                crate::trace::executed(commands, n).take(k),
            ),
            ..crate::trace_laws::replayed(effect, h, log)
        }),
    decreases k,
{
    let events = crate::trace::executed(commands, n);
    if k == 0 {
        assert(log + events.take(0) =~= log);
    } else {
        lemma_executed(effect, h, log, commands, n, k - 1);
        assert((log + events.take(k)).drop_last() =~= log + events.take(k - 1));
        assert(events.take(k).drop_last() =~= events.take(k - 1));
        assert((log + events.take(k)).last() == events[k - 1]);
    }
}

/// Changes that were carried out, each of them once and in order, leave what the ledger says they
/// leave, and end no transaction.
pub proof fn changes_reach_the_database(
    effect: spec_fn(Database, Event) -> Database,
    h: Held<Database>,
    before: Seq<Event>,
    after: Seq<Event>,
    s: Seq<StatementView>,
    n: Seq<Seq<usize>>,
)
    requires
        carries_out(effect),
        crate::trace::changes_done(before, after, s, n),
        crate::ledger::applied_all(crate::trace_laws::replayed(effect, h, before).now, s) is Some,
    ensures
        crate::trace_laws::replayed(effect, h, after) == (Held {
            now: crate::ledger::applied_all(
                crate::trace_laws::replayed(effect, h, before).now,
                s,
            )->0,
            ..crate::trace_laws::replayed(effect, h, before)
        }),
    decreases s.len(),
{
    if s.len() == 0 {
        assert(after =~= before);
    } else {
        let s1 = s.drop_last();
        let n1 = n.drop_last();
        let mid = before + crate::trace::events_of(s1, n1);
        let commands = crate::sqlite::commands_of(s.last());
        let events = crate::trace::executed(commands, n.last());
        assert forall|k: int| 0 <= k < s1.len() implies crate::trace::rows_changed(
            crate::sqlite::commands_of(s1[k]),
            #[trigger] n1[k],
        ) by {
            assert(n1[k] == n[k] && s1[k] == s[k]);
        }
        changes_reach_the_database(effect, h, before, mid, s1, n1);
        lemma_executed(effect, h, mid, commands, n.last(), commands.len() as int);
        assert(events.take(commands.len() as int) =~= events);
        assert(after =~= mid + events);
        assert(crate::trace::rows_changed(commands, n[s.len() - 1]));
        let db = crate::trace_laws::replayed(effect, h, mid).now;
        assert(ran(effect, db, events) == crate::ledger::applied(db, s.last())->0);
    }
}

/// The stored flow, if there is one, is of the same device.
pub open spec fn keeps_device(db: Database, f: FlowView) -> bool {
    crate::ledger::knows_flow(db.flows, f.flow_id) ==> db.flows[crate::ledger_laws::flow_index(
        db.flows,
        f.flow_id,
    )].client_mac == f.client_mac
}

/// Each identity of a flow is that of one device, among the snapshots and in what is stored.
pub open spec fn one_device_each(db: Database, flows: Seq<FlowView>) -> bool {
    &&& forall|i: int, j: int|
        0 <= i < flows.len() && 0 <= j < flows.len() && (#[trigger] flows[i]).flow_id == (
        #[trigger] flows[j]).flow_id ==> flows[i].client_mac == flows[j].client_mac
    &&& forall|k: int, j: int|
        0 <= k < db.flows.len() && 0 <= j < flows.len() && (#[trigger] db.flows[k]).flow_id == (
        #[trigger] flows[j]).flow_id ==> db.flows[k].client_mac == flows[j].client_mac
}

/// A snapshot that was stored on what is known of its flow leaves what the ledger says it leaves,
/// and has not gone back behind what was stored before.
pub proof fn stored_snapshot_reaches_the_database(
    effect: spec_fn(Database, Event) -> Database,
    h: Held<Database>,
    before: Seq<Event>,
    after: Seq<Event>,
    f: FlowView,
)
    requires
        carries_out(effect),
        told_true(effect, h, after),
        crate::trace::flow_stored(before, after, f),
        crate::ledger_laws::books(crate::trace_laws::replayed(effect, h, before).now),
        keeps_device(crate::trace_laws::replayed(effect, h, before).now, f),
    ensures
        crate::ledger_laws::continues(crate::trace_laws::replayed(effect, h, before).now, f),
        crate::trace_laws::replayed(effect, h, after) == (Held {
            now: crate::ledger_laws::stored(
                crate::trace_laws::replayed(effect, h, before).now,
                f,
            )->0,
            ..crate::trace_laws::replayed(effect, h, before)
        }),
        crate::tally_laws::storable(f),
{
    let db = crate::trace_laws::replayed(effect, h, before).now;
    let (mid, loaded, changes, n) = choose|
        mid: Seq<Event>,
        loaded: LoadedView,
        changes: Seq<StatementView>,
        n: Seq<Seq<usize>>,
    |
        {
            &&& #[trigger] crate::trace::flow_loaded(before, mid, loaded)
            &&& loaded.flow_id == f.flow_id
            &&& crate::storage::upserted(f, loaded.state, loaded.ledger) == Ok::<
                Seq<StatementView>,
                ErrorView,
            >(changes)
            &&& #[trigger] crate::trace::changes_done(mid, after, changes, n)
        };
    crate::trace_laws::lemma_changes_done(mid, after, changes, n);
    assert(is_prefix(mid, after));
    assert(reads_true(db, loaded));
    lemma_reading(effect, h, before, mid, loaded);
    let st = crate::ledger_laws::state_of(db, f.flow_id);
    let cs = crate::ledger_laws::entries_of(db.ledger, f.flow_id);
    crate::storage::readable_snapshot_is_stored(f, st, loaded.ledger, cs);
    crate::ledger_laws::storing_keeps_the_books(db, f);
    changes_reach_the_database(effect, h, mid, after, changes, n);
}

/// The flow has the identity and the device of one that was stored, or of a snapshot.
pub open spec fn comes_from(db: Database, flows: Seq<FlowView>, f: FlowView) -> bool {
    ||| exists|k: int|
        0 <= k < db.flows.len() && (#[trigger] db.flows[k]).flow_id == f.flow_id
            && db.flows[k].client_mac == f.client_mac
    ||| exists|i: int|
        0 <= i < flows.len() && (#[trigger] flows[i]).flow_id == f.flow_id && flows[i].client_mac
            == f.client_mac
}

/// No flow changes its identity or its device by being stored.
pub proof fn lemma_owners(db: Database, flows: Seq<FlowView>)
    requires
        crate::ledger_laws::books(db),
        crate::tally_laws::all_continue(db, flows),
    ensures
        crate::ledger_laws::books(crate::tally_laws::all_stored(db, flows)),
        forall|k: int|
            0 <= k < crate::tally_laws::all_stored(db, flows).flows.len() ==> comes_from(
                db,
                flows,
                #[trigger] crate::tally_laws::all_stored(db, flows).flows[k],
            ),
    decreases flows.len(),
{
    let after = crate::tally_laws::all_stored(db, flows);
    if flows.len() == 0 {
        assert forall|k: int| 0 <= k < after.flows.len() implies comes_from(
            db,
            flows,
            #[trigger] after.flows[k],
        ) by {
            assert(db.flows[k] == after.flows[k]);
        }
    } else {
        let t = flows.drop_last();
        let f = flows.last();
        let mid = crate::tally_laws::all_stored(db, t);
        lemma_owners(db, t);
        crate::ledger_laws::storing_keeps_the_books(mid, f);
        assert forall|k: int| 0 <= k < after.flows.len() implies comes_from(
            db,
            flows,
            #[trigger] after.flows[k],
        ) by {
            if k < mid.flows.len() {
                let g = mid.flows[k];
                assert(comes_from(db, t, g));
                assert(after.flows[k].flow_id == g.flow_id && after.flows[k].client_mac
                    == g.client_mac);
                if exists|i: int|
                    0 <= i < t.len() && (#[trigger] t[i]).flow_id == g.flow_id && t[i].client_mac
                        == g.client_mac {
                    let i = choose|i: int|
                        0 <= i < t.len() && (#[trigger] t[i]).flow_id == g.flow_id
                            && t[i].client_mac == g.client_mac;
                    assert(flows[i] == t[i]);
                } else {
                    let j = choose|j: int|
                        0 <= j < db.flows.len() && (#[trigger] db.flows[j]).flow_id == g.flow_id
                            && db.flows[j].client_mac == g.client_mac;
                    assert(db.flows[j].flow_id == after.flows[k].flow_id);
                }
            } else {
                assert(flows[flows.len() - 1] == f);
            }
        }
    }
}

proof fn lemma_flows_reach(
    effect: spec_fn(Database, Event) -> Database,
    h: Held<Database>,
    before: Seq<Event>,
    mid: Seq<Event>,
    flows: Seq<FlowView>,
)
    requires
        carries_out(effect),
        told_true(effect, h, mid),
        crate::trace::flows_stored(before, mid, flows),
        crate::ledger_laws::books(crate::trace_laws::replayed(effect, h, before).now),
        one_device_each(crate::trace_laws::replayed(effect, h, before).now, flows),
    ensures
        crate::tally_laws::all_continue(
            crate::trace_laws::replayed(effect, h, before).now,
            flows,
        ),
        crate::trace_laws::replayed(effect, h, mid) == (Held {
            now: crate::tally_laws::all_stored(
                crate::trace_laws::replayed(effect, h, before).now,
                flows,
            ),
            ..crate::trace_laws::replayed(effect, h, before)
        }),
        crate::ledger_laws::books(crate::trace_laws::replayed(effect, h, mid).now),
    decreases flows.len(),
{
    if flows.len() > 0 {
        let part = choose|part: Seq<Event>|
            crate::trace::flows_stored(before, part, flows.drop_last())
                && #[trigger] crate::trace::flow_stored(part, mid, flows.last());
        crate::trace_laws::lemma_flow_stored(part, mid, flows.last());
        assert(told_true(effect, h, part)) by {
            assert forall|a: Seq<Event>, b: Seq<Event>, f: LoadedView| #[trigger]
                crate::trace::flow_loaded(a, b, f) && is_prefix(b, part) implies reads_true(
                crate::trace_laws::replayed(effect, h, a).now,
                f,
            ) by {
                assert(mid.take(b.len() as int) =~= part.take(b.len() as int)) by {
                    assert(mid.take(part.len() as int) == part);
                    assert forall|i: int| 0 <= i < b.len() implies mid[i] == part[i] by {
                        assert(mid.take(part.len() as int)[i] == part[i]);
                    }
                }
                assert(is_prefix(b, mid));
            }
        }
        let db = crate::trace_laws::replayed(effect, h, before).now;
        let t = flows.drop_last();
        assert(one_device_each(db, t)) by {
            assert forall|i: int, j: int|
                0 <= i < t.len() && 0 <= j < t.len() && (#[trigger] t[i]).flow_id == (
                #[trigger] t[j]).flow_id implies t[i].client_mac == t[j].client_mac by {
                assert(flows[i].flow_id == flows[j].flow_id);
            }
            assert forall|k: int, j: int|
                0 <= k < db.flows.len() && 0 <= j < t.len() && (#[trigger] db.flows[k]).flow_id == (
                #[trigger] t[j]).flow_id implies db.flows[k].client_mac == t[j].client_mac by {
                assert(db.flows[k].flow_id == flows[j].flow_id);
            }
        }
        lemma_flows_reach(effect, h, before, part, t);
        let f = flows.last();
        let last = flows.len() - 1;
        assert(keeps_device(crate::tally_laws::all_stored(db, t), f)) by {
            let now = crate::tally_laws::all_stored(db, t).flows;
            if crate::ledger::knows_flow(now, f.flow_id) {
                let at = crate::ledger_laws::flow_index(now, f.flow_id);
                assert(0 <= at < now.len() && now[at].flow_id == f.flow_id);
                lemma_owners(db, t);
                assert(comes_from(db, t, now[at]));
                assert(flows[last] == f);
                if exists|i: int|
                    0 <= i < t.len() && (#[trigger] t[i]).flow_id == now[at].flow_id
                        && t[i].client_mac == now[at].client_mac {
                    let i = choose|i: int|
                        0 <= i < t.len() && (#[trigger] t[i]).flow_id == now[at].flow_id
                            && t[i].client_mac == now[at].client_mac;
                    assert(flows[i] == t[i]);
                    assert(flows[i].flow_id == flows[last].flow_id);
                } else {
                    let k = choose|k: int|
                        0 <= k < db.flows.len() && (#[trigger] db.flows[k]).flow_id
                            == now[at].flow_id && db.flows[k].client_mac == now[at].client_mac;
                    assert(db.flows[k].flow_id == flows[last].flow_id);
                }
            }
        }
        stored_snapshot_reaches_the_database(effect, h, part, mid, flows.last());
        crate::ledger_laws::storing_keeps_the_books(
            crate::trace_laws::replayed(effect, h, part).now,
            flows.last(),
        );
    }
}

/// A batch of snapshots that was stored leaves all of them stored, one after the other, and what it
/// leaves lasts.
pub proof fn stored_batches_reach_the_database(
    effect: spec_fn(Database, Event) -> Database,
    h: Held<Database>,
    before: Seq<Event>,
    after: Seq<Event>,
    flows: Seq<FlowView>,
)
    requires
        carries_out(effect),
        told_true(effect, h, after),
        crate::trace::batch_stored(before, after, flows),
        crate::ledger_laws::books(crate::trace_laws::replayed(effect, h, before).now),
        one_device_each(crate::trace_laws::replayed(effect, h, before).now, flows),
    ensures
        crate::tally_laws::all_continue(
            crate::trace_laws::replayed(effect, h, before).now,
            flows,
        ),
        crate::trace_laws::replayed(effect, h, after) == (Held {
            now: crate::tally_laws::all_stored(
                crate::trace_laws::replayed(effect, h, before).now,
                flows,
            ),
            saved: None,
        }),
        crate::ledger_laws::books(crate::trace_laws::replayed(effect, h, after).now),
{
    let start = crate::trace::begun(before);
    let mid = choose|mid: Seq<Event>| #[trigger]
        crate::trace::flows_stored(start, mid, flows) && crate::trace::committed(mid, after);
    assert(start.drop_last() =~= before);
    assert(after.drop_last() =~= mid);
    assert(told_true(effect, h, mid)) by {
        assert forall|a: Seq<Event>, b: Seq<Event>, f: LoadedView| #[trigger]
            crate::trace::flow_loaded(a, b, f) && is_prefix(b, mid) implies reads_true(
            crate::trace_laws::replayed(effect, h, a).now,
            f,
        ) by {
            assert(after.take(b.len() as int) =~= mid.take(b.len() as int));
            assert(is_prefix(b, after));
        }
    }
    lemma_flows_reach(effect, h, start, mid, flows);
}

/// Counting changes nothing.
pub proof fn lemma_counting<A>(
    effect: spec_fn(A, Event) -> A,
    h: Held<A>,
    before: Seq<Event>,
    after: Seq<Event>,
    c: CommandView,
    r: Result<usize, ErrorView>,
)
    requires
        crate::trace::counted(before, after, c, r),
    ensures
        crate::trace_laws::replayed(effect, h, after) == crate::trace_laws::replayed(
            effect,
            h,
            before,
        ),
{
    let answer = choose|answer: Result<Seq<Seq<SqlView>>, ErrorView>|
        after == #[trigger] crate::trace::after_query(before, c, answer) && match answer {
            Ok(rows) => r == crate::trace::count_of(rows),
            Err(e) => r == Err::<usize, ErrorView>(e),
        };
    lemma_asked(effect, h, before, c, answer);
}

/// A device that was removed leaves what the ledger says is left without it, and that lasts; one
/// that is not known leaves everything as it was.
pub proof fn device_deletions_reach_the_database(
    effect: spec_fn(Database, Event) -> Database,
    h: Held<Database>,
    before: Seq<Event>,
    after: Seq<Event>,
    mac: Seq<char>,
    r: Option<DataDeletionResult>,
)
    requires
        carries_out(effect),
        crate::repository::device_deletion_done(before, after, mac, r),
        crate::ledger_laws::books(crate::trace_laws::replayed(effect, h, before).now),
    ensures
        crate::trace_laws::replayed(effect, h, after) == (Held {
            now: if r is Some {
                crate::deletion_laws::without_device(
                    crate::trace_laws::replayed(effect, h, before).now,
                    mac,
                )
            } else {
                crate::trace_laws::replayed(effect, h, before).now
            },
            saved: None,
        }),
{
    let start = crate::trace::begun(before);
    let mid = choose|mid: Seq<Event>| #[trigger]
        crate::trace::committed(mid, after) && match r {
            None => crate::trace::device_unknown(start, mid, mac),
            Some(done) => crate::trace::device_gone(start, mid, mac, done),
        };
    assert(start.drop_last() =~= before);
    assert(after.drop_last() =~= mid);
    let known = crate::repository::known_query(mac);
    match r {
        None => {
            let found = choose|found: Seq<Seq<SqlView>>|
                mid == #[trigger] crate::trace::looked_for(start, mac, found) && found.len() == 0;
            lemma_asked(effect, h, start, known, Ok(found));
        },
        Some(done) => {
            let (counting, n) = choose|counting: Seq<Event>, n: Seq<Seq<usize>>|
                {
                    &&& #[trigger] crate::trace::device_counted(
                        start,
                        counting,
                        mac,
                        done.flows_deleted,
                        done.contributions_deleted,
                    )
                    &&& #[trigger] crate::trace::changes_done(
                        counting,
                        mid,
                        crate::storage::device_deleted(mac),
                        n,
                    )
                };
            let (found, part) = choose|found: Seq<Seq<SqlView>>, part: Seq<Event>|
                found.len() > 0 && #[trigger] crate::trace::counted(
                    #[trigger] crate::trace::looked_for(start, mac, found),
                    part,
                    crate::repository::flow_count(mac),
                    Ok(done.flows_deleted),
                ) && crate::trace::counted(
                    part,
                    counting,
                    crate::repository::contribution_count(mac),
                    Ok(done.contributions_deleted),
                );
            lemma_asked(effect, h, start, known, Ok(found));
            lemma_counting(
                effect,
                h,
                crate::trace::looked_for(start, mac, found),
                part,
                crate::repository::flow_count(mac),
                Ok(done.flows_deleted),
            );
            lemma_counting(
                effect,
                h,
                part,
                counting,
                crate::repository::contribution_count(mac),
                Ok(done.contributions_deleted),
            );
            crate::deletion_laws::device_deletion_keeps_the_books(
                crate::trace_laws::replayed(effect, h, before).now,
                mac,
            );
            changes_reach_the_database(
                effect,
                h,
                counting,
                mid,
                crate::storage::device_deleted(mac),
                n,
            );
        },
    }
}

/// A domain that was removed leaves what the ledger says is left without it, and that lasts.
pub proof fn domain_deletions_reach_the_database(
    effect: spec_fn(Database, Event) -> Database,
    h: Held<Database>,
    before: Seq<Event>,
    after: Seq<Event>,
    mac: Option<Seq<char>>,
    domain: Seq<char>,
    done: DataDeletionResult,
)
    requires
        carries_out(effect),
        crate::repository::domain_deletion_done(before, after, mac, domain, done),
        crate::ledger_laws::books(crate::trace_laws::replayed(effect, h, before).now),
    ensures
        crate::trace_laws::replayed(effect, h, after) == (Held {
            now: crate::deletion_laws::without_domain(
                crate::trace_laws::replayed(effect, h, before).now,
                mac,
                domain,
            ),
            saved: None,
        }),
{
    let start = crate::trace::begun(before);
    let mid = choose|mid: Seq<Event>| #[trigger]
        crate::trace::domain_gone(start, mid, mac, domain, done) && crate::trace::committed(
            mid,
            after,
        );
    assert(start.drop_last() =~= before);
    assert(after.drop_last() =~= mid);
    let changes = crate::storage::domain_deleted(mac, domain);
    let n = choose|n: Seq<Seq<usize>>| #[trigger]
        crate::trace::changes_done(start, mid, changes, n);
    crate::deletion_laws::domain_deletion_keeps_the_books(
        crate::trace_laws::replayed(effect, h, before).now,
        mac,
        domain,
    );
    changes_reach_the_database(effect, h, start, mid, changes, n);
}

/// A range of time that was removed leaves what the ledger says is left without it, and that lasts.
pub proof fn range_deletions_reach_the_database(
    effect: spec_fn(Database, Event) -> Database,
    h: Held<Database>,
    before: Seq<Event>,
    after: Seq<Event>,
    from_ms: i64,
    to_ms: i64,
    done: DataDeletionResult,
)
    requires
        carries_out(effect),
        crate::repository::range_deletion_done(before, after, from_ms, to_ms, done),
        crate::ledger_laws::books(crate::trace_laws::replayed(effect, h, before).now),
    ensures
        crate::trace_laws::replayed(effect, h, after) == (Held {
            now: crate::deletion_laws::without_range(
                crate::trace_laws::replayed(effect, h, before).now,
                from_ms,
                to_ms,
            ),
            saved: None,
        }),
{
    let start = crate::trace::begun(before);
    let mid = choose|mid: Seq<Event>| #[trigger]
        crate::trace::range_gone(start, mid, from_ms, to_ms, done) && crate::trace::committed(
            mid,
            after,
        );
    assert(start.drop_last() =~= before);
    assert(after.drop_last() =~= mid);
    let changes = crate::storage::range_deleted(from_ms, to_ms);
    let (counting, n) = choose|counting: Seq<Event>, n: Seq<Seq<usize>>|
        #[trigger] crate::trace::range_counted(
            start,
            counting,
            from_ms,
            to_ms,
            done.flows_deleted,
            done.contributions_deleted,
        ) && #[trigger] crate::trace::changes_done(counting, mid, changes, n);
    let first = crate::repository::contributions_in(from_ms, to_ms);
    let second = crate::repository::flows_in(from_ms, to_ms);
    let part = choose|part: Seq<Event>| #[trigger]
        crate::trace::counted(start, part, first, Ok(done.contributions_deleted))
            && crate::trace::counted(part, counting, second, Ok(done.flows_deleted));
    lemma_counting(effect, h, start, part, first, Ok(done.contributions_deleted));
    lemma_counting(effect, h, part, counting, second, Ok(done.flows_deleted));
    crate::deletion_laws::range_deletion_keeps_the_books(
        crate::trace_laws::replayed(effect, h, before).now,
        from_ms,
        to_ms,
    );
    changes_reach_the_database(effect, h, counting, mid, changes, n);
}

/// What is no longer kept is gone once it was removed, and all else is there.
pub proof fn expiry_reaches_the_database(
    effect: spec_fn(Database, Event) -> Database,
    h: Held<Database>,
    before: Seq<Event>,
    after: Seq<Event>,
    flow_cutoff: i64,
    aggregate_cutoff: i64,
    n: Seq<Seq<usize>>,
)
    requires
        carries_out(effect),
        crate::trace::changes_done(
            before,
            after,
            crate::storage::expired_deleted(flow_cutoff, aggregate_cutoff),
            n,
        ),
        crate::ledger_laws::books(crate::trace_laws::replayed(effect, h, before).now),
    ensures
        crate::trace_laws::replayed(effect, h, after) == (Held {
            now: crate::deletion_laws::without_expired(
                crate::trace_laws::replayed(effect, h, before).now,
                flow_cutoff,
                aggregate_cutoff,
            ),
            ..crate::trace_laws::replayed(effect, h, before)
        }),
{
    crate::deletion_laws::expiry_keeps_the_books(
        crate::trace_laws::replayed(effect, h, before).now,
        flow_cutoff,
        aggregate_cutoff,
    );
    changes_reach_the_database(
        effect,
        h,
        before,
        after,
        crate::storage::expired_deleted(flow_cutoff, aggregate_cutoff),
        n,
    );
}

/// Flows that were stored read back as they were stored.
pub proof fn listed_flows_read_back(
    flows: Seq<FlowView>,
    rows: Seq<Vec<SqlValue>>,
    r: Result<Vec<Flow>, StorageError>,
)
    requires
        forall|i: int|
            0 <= i < flows.len() ==> crate::tally_laws::storable(#[trigger] flows[i]),
        crate::sql::rows_view(rows) == flows.map_values(
            |f: FlowView| crate::sqlite::flow_row(f),
        ),
        crate::repository::flows_read(r, rows),
    ensures
        r matches Ok(items) && crate::dns::flow_views(items@) == flows,
{
    let views = crate::sql::rows_view(rows);
    assert forall|k: int| 0 <= k < flows.len() implies crate::sqlite::flow_of(#[trigger] views[k])
        == Some(flows[k]) by {
        assert(crate::tally_laws::storable(flows[k]));
        crate::sqlite::flow_row_reads_back(flows[k]);
    }
    if let Ok(items) = r {
        let read = crate::dns::flow_views(items@);
        assert forall|k: int| 0 <= k < flows.len() implies read[k] == flows[k] by {
            assert(crate::sqlite::flow_of(views[k]) == Some(items@[k]@));
        }
        assert(read =~= flows);
    }
}

/// A device as it is stored.
pub open spec fn device_row(d: DeviceView) -> Seq<SqlView> {
    seq![
        crate::sql::text_param(d.mac_address),
        crate::sql::opt_text_param(d.display_name),
        crate::sql::opt_text_param(d.current_ip),
    ]
}

/// Devices that were noted read back as they were noted.
pub proof fn listed_devices_read_back(
    devices: Seq<DeviceView>,
    rows: Seq<Vec<SqlValue>>,
    r: Result<Vec<Device>, StorageError>,
)
    requires
        crate::sql::rows_view(rows) == devices.map_values(|d: DeviceView| device_row(d)),
        crate::repository::devices_read(r, rows),
    ensures
        r matches Ok(items) && items@.len() == devices.len() && forall|k: int|
            0 <= k < devices.len() ==> (#[trigger] items@[k])@ == devices[k],
{
    let views = crate::sql::rows_view(rows);
    assert forall|k: int| 0 <= k < devices.len() implies crate::sqlite::device_of(
        #[trigger] views[k],
    ) == Some(devices[k]) by {
        let row = device_row(devices[k]);
        assert(views[k] == row);
        assert(row.len() == 3);
        assert(row[0] == crate::sql::text_param(devices[k].mac_address));
        assert(row[1] == crate::sql::opt_text_param(devices[k].display_name));
        assert(row[2] == crate::sql::opt_text_param(devices[k].current_ip));
    }
    if let Ok(items) = r {
        assert forall|k: int| 0 <= k < devices.len() implies (#[trigger] items@[k])@
            == devices[k] by {
            assert(crate::sqlite::device_of(views[k]) == Some(items@[k]@));
        }
    }
}

/// What a new flow was stored as is what is read back of it, behind the flows that were there.
pub proof fn stored_flow_reads_back(
    db: Database,
    f: FlowView,
    rows: Seq<Vec<SqlValue>>,
    r: Result<Vec<Flow>, StorageError>,
)
    requires
        crate::ledger_laws::books(db),
        crate::tally_laws::storable(f),
        !crate::ledger::knows_flow(db.flows, f.flow_id),
        crate::sql::rows_view(rows) == crate::ledger_laws::stored(db, f)->0.flows.map_values(
            |g: FlowView| crate::sqlite::flow_row(g),
        ),
        crate::repository::flows_read(r, rows),
    ensures
        r matches Ok(items) && crate::dns::flow_views(items@) == db.flows.push(f),
{
    crate::storage_laws::new_flow_is_stored_as_given(db, f);
    let flows = db.flows.push(f);
    assert forall|i: int| 0 <= i < flows.len() implies crate::tally_laws::storable(
        #[trigger] flows[i],
    ) by {
        if i < db.flows.len() {
            assert(crate::ledger_laws::flow_sound(db.ledger, db.flows[i]));
        }
    }
    listed_flows_read_back(flows, rows, r);
}

/// The device with the wanted MAC address is the one that is found, as it is stored; where there is
/// none, none is found.
pub proof fn found_device_reads_back(
    devices: Seq<DeviceView>,
    mac: Seq<char>,
    rows: Seq<Vec<SqlValue>>,
    r: Result<Option<Device>, StorageError>,
)
    requires
        crate::sql::rows_view(rows) == devices.filter(
            |d: DeviceView| d.mac_address == mac,
        ).map_values(|d: DeviceView| device_row(d)),
        crate::repository::device_read(r, rows),
    ensures
        r is Ok,
        match r->Ok_0 {
            Some(found) => devices.contains(found@) && found@.mac_address == mac,
            None => !crate::ledger::knows_device(devices, mac),
        },
{
    let is_it = |d: DeviceView| d.mac_address == mac;
    let kept = devices.filter(is_it);
    let views = crate::sql::rows_view(rows);
    if kept.len() > 0 {
        let x = crate::ledger_laws::lemma_filter_origin(devices, is_it, 0);
        let row = device_row(kept[0]);
        assert(views[0] == row);
        assert(row.len() == 3);
        assert(row[0] == crate::sql::text_param(kept[0].mac_address));
        assert(row[1] == crate::sql::opt_text_param(kept[0].display_name));
        assert(row[2] == crate::sql::opt_text_param(kept[0].current_ip));
        assert(crate::sqlite::device_of(views[0]) == Some(kept[0]));
        assert(devices[x] == kept[0]);
    } else if crate::ledger::knows_device(devices, mac) {
        let i = choose|i: int|
            0 <= i < devices.len() && (#[trigger] devices[i]).mac_address == mac;
        let y = crate::ledger_laws::lemma_filter_keeps(devices, is_it, i);
    }
}

/// A device that was noted is found, with the address that it was noted with and the name that it
/// was given, or had before.
pub proof fn noted_device_is_found(
    devices: Seq<DeviceView>,
    mac: Seq<char>,
    name: Option<Seq<char>>,
    ip: Option<Seq<char>>,
    rows: Seq<Vec<SqlValue>>,
    r: Result<Option<Device>, StorageError>,
)
    requires
        crate::storage_laws::distinct_devices(devices),
        crate::sql::rows_view(rows) == crate::ledger::device_noted(
            devices,
            mac,
            name,
            ip,
        ).filter(|d: DeviceView| d.mac_address == mac).map_values(|d: DeviceView| device_row(d)),
        crate::repository::device_read(r, rows),
    ensures
        r matches Ok(Some(found)) && found@.mac_address == mac && found@.current_ip == ip && (
        name is Some ==> found@.display_name == name) && (name is None ==> forall|i: int|
            0 <= i < devices.len() && (#[trigger] devices[i]).mac_address == mac
                ==> found@.display_name == devices[i].display_name) && (
        !crate::ledger::knows_device(devices, mac) ==> found@.display_name == name),
{
    let after = crate::ledger::device_noted(devices, mac, name, ip);
    crate::ledger_laws::lemma_device_noted(devices, mac, name, ip, mac);
    found_device_reads_back(after, mac, rows, r);
    let found = r->Ok_0->0;
    let x = choose|x: int| 0 <= x < after.len() && after[x] == found@;
    if crate::ledger::knows_device(devices, mac) {
        assert(devices[x].mac_address == mac);
        assert forall|i: int|
            0 <= i < devices.len() && (#[trigger] devices[i]).mac_address == mac implies i == x by {
            if i < x {
                assert(devices[i].mac_address != devices[x].mac_address);
            } else if x < i {
                assert(devices[x].mac_address != devices[i].mac_address);
            }
        }
    } else if x < devices.len() {
        assert(after[x] == devices[x]);
    }
}

} // verus!
