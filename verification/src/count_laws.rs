//! What deletions report is what they removed, where the database counts truly; and a deletion that
//! is repeated reports nothing.
use vstd::prelude::*;

use crate::domain::{DataDeletionResult, FlowView};
use crate::ledger::{Database, DeviceMinuteRow, DomainMinuteRow, LedgerRow};
use crate::session::Event;
use crate::sql::{CommandView, ErrorView, SqlView};
use crate::storage::StatementView;
use crate::trace_laws::Held;

verus! {

/// How many rows a change removes, or redacts; nothing of the changes whose count is not reported.
pub open spec fn touched(db: Database, s: StatementView) -> Option<nat> {
    match s {
        StatementView::DeleteDeviceMinutesOf { mac_address } => Some(
            db.device_minutes.filter(|r: DeviceMinuteRow| r.mac == mac_address).len(),
        ),
        StatementView::DeleteDomainMinutesOf { mac_address } => Some(
            db.domain_minutes.filter(|r: DomainMinuteRow| r.mac == mac_address).len(),
        ),
        StatementView::DeleteContributionsTo { mac_address, domain } => Some(
            db.ledger.filter(
                |r: LedgerRow| crate::ledger::concerns(mac_address, domain, r.mac, r.domain),
            ).len(),
        ),
        StatementView::DeleteDomainMinutesFor { mac_address, domain } => Some(
            db.domain_minutes.filter(
                |r: DomainMinuteRow| in_scope(mac_address, r.mac) && r.domain == domain,
            ).len(),
        ),
        StatementView::RedactFlows { mac_address, domain } => Some(
            db.flows.filter(
                |f: FlowView| crate::ledger::concerns(mac_address, domain, f.client_mac, f.domain),
            ).len(),
        ),
        StatementView::DeleteDeviceMinutesIn { from_ms, to_ms } => Some(
            db.device_minutes.filter(
                |r: DeviceMinuteRow| from_ms <= r.minute_ms < to_ms,
            ).len(),
        ),
        StatementView::DeleteDomainMinutesIn { from_ms, to_ms } => Some(
            db.domain_minutes.filter(
                |r: DomainMinuteRow| from_ms <= r.minute_ms < to_ms,
            ).len(),
        ),
        StatementView::DeleteFlowsBefore { cutoff_ms } => Some(
            db.flows.filter(|f: FlowView| f.last_seen < cutoff_ms).len(),
        ),
        StatementView::DeleteDeviceMinutesBefore { cutoff_ms } => Some(
            db.device_minutes.filter(|r: DeviceMinuteRow| r.minute_ms < cutoff_ms).len(),
        ),
        StatementView::DeleteDomainMinutesBefore { cutoff_ms } => Some(
            db.domain_minutes.filter(|r: DomainMinuteRow| r.minute_ms < cutoff_ms).len(),
        ),
        _ => None,
    }
}

/// The device is the one that is meant, or all are.
pub open spec fn in_scope(wanted: Option<Seq<char>>, mac: Seq<char>) -> bool {
    wanted is None || wanted->0 == mac
}

/// For each change whose count is reported, the database told how many rows it removed.
pub open spec fn counted_true(
    effect: spec_fn(Database, Event) -> Database,
    h: Held<Database>,
    log: Seq<Event>,
) -> bool {
    forall|a: Seq<Event>, b: Seq<Event>, s: StatementView, n: Seq<usize>| #[trigger]
        crate::trace::change_done(a, b, s, n) && crate::replay_laws::is_prefix(b, log)
            ==> match touched(crate::trace_laws::replayed(effect, h, a).now, s) {
            Some(rows) => n[0] == rows,
            None => true,
        }
}

/// Each question for a number, and for whether a device is known, was answered truly.
pub open spec fn numbers_true(
    effect: spec_fn(Database, Event) -> Database,
    h: Held<Database>,
    log: Seq<Event>,
) -> bool {
    forall|a: Seq<Event>, c: CommandView, rows: Seq<Seq<SqlView>>|
        crate::replay_laws::is_prefix(
            #[trigger] crate::trace::after_query(a, c, Ok(rows)),
            log,
        ) ==> {
            let db = crate::trace_laws::replayed(effect, h, a).now;
            &&& forall|mac: Seq<char>|
                c == #[trigger] crate::repository::known_query(mac) ==> (rows.len() > 0
                    <==> crate::ledger::knows_device(db.devices, mac))
            &&& forall|mac: Seq<char>|
                c == #[trigger] crate::repository::flow_count(mac) ==> tells(
                    rows,
                    flows_of(db, mac),
                )
            &&& forall|mac: Seq<char>|
                c == #[trigger] crate::repository::contribution_count(mac) ==> tells(
                    rows,
                    entries_of(db, mac),
                )
            &&& forall|from_ms: i64, to_ms: i64|
                c == #[trigger] crate::repository::flows_in(from_ms, to_ms) ==> tells(
                    rows,
                    flows_in(db, from_ms, to_ms),
                )
            &&& forall|from_ms: i64, to_ms: i64|
                c == #[trigger] crate::repository::contributions_in(from_ms, to_ms) ==> tells(
                    rows,
                    entries_in(db, from_ms, to_ms),
                )
        }
}

/// The number that was read is the right one, if it can be held.
pub open spec fn tells(rows: Seq<Seq<SqlView>>, n: nat) -> bool {
    match crate::trace::count_of(rows) {
        Ok(told) => told == n,
        Err(_) => true,
    }
}

/// How many flows a device has.
pub open spec fn flows_of(db: Database, mac: Seq<char>) -> nat {
    db.flows.filter(|f: FlowView| f.client_mac == mac).len()
}

/// How many entries of the ledger are of a device.
pub open spec fn entries_of(db: Database, mac: Seq<char>) -> nat {
    db.ledger.filter(|r: LedgerRow| r.mac == mac).len()
}

/// How many flows overlap a range of time.
pub open spec fn flows_in(db: Database, from_ms: i64, to_ms: i64) -> nat {
    db.flows.filter(|f: FlowView| crate::ledger::overlaps(f, from_ms, to_ms)).len()
}

/// The entry is of a minute in the range, or of a flow that overlaps it.
pub open spec fn reaches_into(
    flows: Seq<FlowView>,
    r: LedgerRow,
    from_ms: i64,
    to_ms: i64,
) -> bool {
    from_ms <= r.minute_ms < to_ms || exists|i: int|
        0 <= i < flows.len() && (#[trigger] flows[i]).flow_id == r.flow_id
            && crate::ledger::overlaps(flows[i], from_ms, to_ms)
}

/// How many entries of the ledger a range of time takes with it.
pub open spec fn entries_in(db: Database, from_ms: i64, to_ms: i64) -> nat {
    db.ledger.filter(|r: LedgerRow| reaches_into(db.flows, r, from_ms, to_ms)).len()
}

proof fn lemma_events_prefix(s: Seq<StatementView>, n: Seq<Seq<usize>>, k: int)
    requires
        n.len() == s.len(),
        0 <= k <= s.len(),
    ensures
        crate::replay_laws::is_prefix(
            crate::trace::events_of(s.take(k), n.take(k)),
            crate::trace::events_of(s, n),
        ),
    decreases s.len(),
{
    let part = crate::trace::events_of(s.take(k), n.take(k));
    let whole = crate::trace::events_of(s, n);
    if k == s.len() {
        assert(s.take(k) =~= s && n.take(k) =~= n);
        assert(whole.take(whole.len() as int) =~= whole);
    } else {
        let t = s.drop_last();
        let m = n.drop_last();
        assert(t.take(k) =~= s.take(k) && m.take(k) =~= n.take(k));
        lemma_events_prefix(t, m, k);
        let most = crate::trace::events_of(t, m);
        assert forall|i: int| 0 <= i < part.len() implies whole[i] == part[i] by {
            assert(most.take(part.len() as int)[i] == part[i]);
        }
        assert(whole.take(part.len() as int) =~= part);
    }
}

proof fn lemma_applied_prefix(db: Database, s: Seq<StatementView>, k: int)
    requires
        crate::ledger::applied_all(db, s) is Some,
        0 <= k <= s.len(),
    ensures
        crate::ledger::applied_all(db, s.take(k)) is Some,
    decreases s.len(),
{
    if k == s.len() {
        assert(s.take(k) =~= s);
    } else {
        assert(s.drop_last().take(k) =~= s.take(k));
        lemma_applied_prefix(db, s.drop_last(), k);
    }
}

/// The number that was told for one of several changes is that of the rows that it touched.
proof fn lemma_told(
    effect: spec_fn(Database, Event) -> Database,
    h: Held<Database>,
    before: Seq<Event>,
    after: Seq<Event>,
    s: Seq<StatementView>,
    n: Seq<Seq<usize>>,
    k: int,
)
    requires
        crate::replay_laws::carries_out(effect),
        counted_true(effect, h, after),
        crate::trace::changes_done(before, after, s, n),
        crate::ledger::applied_all(crate::trace_laws::replayed(effect, h, before).now, s) is Some,
        0 <= k < s.len(),
    ensures
        crate::ledger::applied_all(
            crate::trace_laws::replayed(effect, h, before).now,
            s.take(k),
        ) is Some,
        match touched(
            crate::ledger::applied_all(
                crate::trace_laws::replayed(effect, h, before).now,
                s.take(k),
            )->0,
            s[k],
        ) {
            Some(rows) => n[k][0] == rows,
            None => true,
        },
{
    let db = crate::trace_laws::replayed(effect, h, before).now;
    let s0 = s.take(k);
    let n0 = n.take(k);
    let s1 = s.take(k + 1);
    let n1 = n.take(k + 1);
    let a = before + crate::trace::events_of(s0, n0);
    let b = before + crate::trace::events_of(s1, n1);
    assert(s1.drop_last() =~= s0 && n1.drop_last() =~= n0);
    assert(s1.last() == s[k] && n1.last() == n[k]);
    lemma_events_prefix(s, n, k + 1);
    let whole = crate::trace::events_of(s, n);
    let part = crate::trace::events_of(s1, n1);
    assert(crate::replay_laws::is_prefix(b, after)) by {
        assert forall|i: int| 0 <= i < b.len() implies after[i] == b[i] by {
            if i >= before.len() {
                assert(whole.take(part.len() as int)[i - before.len()] == part[i - before.len()]);
            }
        }
        assert(after.take(b.len() as int) =~= b);
    }
    assert(b =~= a + crate::trace::executed(crate::sqlite::commands_of(s[k]), n[k]));
    assert(crate::trace::change_done(a, b, s[k], n[k]));
    assert forall|j: int| 0 <= j < s0.len() implies crate::trace::rows_changed(
        crate::sqlite::commands_of(s0[j]),
        #[trigger] n0[j],
    ) by {
        assert(n0[j] == n[j] && s0[j] == s[j]);
    }
    lemma_applied_prefix(db, s, k);
    crate::replay_laws::changes_reach_the_database(effect, h, before, a, s0, n0);
}

/// Where no element is picked, nothing is left.
pub proof fn lemma_filter_none<A>(s: Seq<A>, p: spec_fn(A) -> bool)
    requires
        forall|i: int| 0 <= i < s.len() ==> !p(#[trigger] s[i]),
    ensures
        s.filter(p).len() == 0,
    decreases s.len(),
{
    reveal(Seq::filter);
    if s.len() > 0 {
        let t = s.drop_last();
        assert forall|i: int| 0 <= i < t.len() implies !p(#[trigger] t[i]) by {
            assert(t[i] == s[i]);
        }
        lemma_filter_none(t, p);
        assert(!p(s[s.len() - 1]));
    }
}

/// What is kept and what is dropped are all there is.
proof fn lemma_filter_gone<A>(s: Seq<A>, keep: spec_fn(A) -> bool, gone: spec_fn(A) -> bool)
    requires
        forall|x: A| #[trigger] keep(x) == !gone(x),
    ensures
        s.filter(keep).filter(gone).len() == 0,
{
    let kept = s.filter(keep);
    assert forall|i: int| 0 <= i < kept.len() implies !gone(#[trigger] kept[i]) by {
        let x = crate::ledger_laws::lemma_filter_origin(s, keep, i);
        assert(keep(s[x]));
    }
    lemma_filter_none(kept, gone);
}

proof fn lemma_three(s: Seq<StatementView>, db: Database)
    requires
        s.len() >= 3,
    ensures
        crate::ledger::applied_all(db, s.take(0)) == Some(db),
        crate::ledger::applied_all(db, s.take(1)) == crate::ledger::applied(db, s[0]),
        crate::ledger::applied(db, s[0]) is Some ==> crate::ledger::applied_all(db, s.take(2))
            == crate::ledger::applied(crate::ledger::applied(db, s[0])->0, s[1]),
{
    assert(s.take(0) =~= Seq::<StatementView>::empty());
    assert(s.take(1) =~= seq![s[0]]);
    crate::ledger::lemma_applied_one(db, s[0]);
    assert(s.take(2).drop_last() =~= s.take(1));
    assert(s.take(2).last() == s[1]);
}

/// A domain that was removed is reported with the flows, minutes and contributions that it had in
/// the scope of the removal.
pub proof fn domain_deletions_report_what_they_removed(
    effect: spec_fn(Database, Event) -> Database,
    h: Held<Database>,
    before: Seq<Event>,
    after: Seq<Event>,
    mac: Option<Seq<char>>,
    domain: Seq<char>,
    done: DataDeletionResult,
)
    requires
        crate::replay_laws::carries_out(effect),
        counted_true(effect, h, after),
        crate::repository::domain_deletion_done(before, after, mac, domain, done),
        crate::ledger_laws::books(crate::trace_laws::replayed(effect, h, before).now),
    ensures
        ({
            let db = crate::trace_laws::replayed(effect, h, before).now;
            &&& done.flows_redacted == db.flows.filter(
                |f: FlowView| crate::ledger::concerns(mac, domain, f.client_mac, f.domain),
            ).len()
            &&& done.domain_minutes_deleted == db.domain_minutes.filter(
                |r: DomainMinuteRow| in_scope(mac, r.mac) && r.domain == domain,
            ).len()
            &&& done.contributions_deleted == db.ledger.filter(
                |r: LedgerRow| crate::ledger::concerns(mac, domain, r.mac, r.domain),
            ).len()
            &&& done.devices_deleted == 0
            &&& done.flows_deleted == 0
            &&& done.device_minutes_deleted == 0
        }),
{
    let start = crate::trace::begun(before);
    let mid = choose|mid: Seq<Event>| #[trigger]
        crate::trace::domain_gone(start, mid, mac, domain, done) && crate::trace::committed(
            mid,
            after,
        );
    let db = crate::trace_laws::replayed(effect, h, before).now;
    let s = crate::storage::domain_deleted(mac, domain);
    let n = choose|n: Seq<Seq<usize>>|
        {
            &&& #[trigger] crate::trace::changes_done(start, mid, s, n)
            &&& done.devices_deleted == 0
            &&& done.flows_deleted == 0
            &&& done.flows_redacted == n[2][0]
            &&& done.device_minutes_deleted == 0
            &&& done.domain_minutes_deleted == n[1][0]
            &&& done.contributions_deleted == n[0][0]
        };
    assert(start.drop_last() =~= before);
    lemma_counted_before(effect, h, mid, after);
    crate::deletion_laws::domain_deletion_keeps_the_books(db, mac, domain);
    lemma_told(effect, h, start, mid, s, n, 0);
    lemma_told(effect, h, start, mid, s, n, 1);
    lemma_told(effect, h, start, mid, s, n, 2);
    lemma_three(s, db);
}

/// What was counted up to a time was counted truly if all is.
proof fn lemma_counted_before(
    effect: spec_fn(Database, Event) -> Database,
    h: Held<Database>,
    part: Seq<Event>,
    log: Seq<Event>,
)
    requires
        counted_true(effect, h, log),
        crate::trace::committed(part, log),
    ensures
        counted_true(effect, h, part),
{
    assert forall|b: Seq<Event>| #[trigger]
        crate::replay_laws::is_prefix(b, part) implies crate::replay_laws::is_prefix(b, log) by {
        assert(log.take(b.len() as int) =~= part.take(b.len() as int));
    }
}

/// Removing a domain again removes nothing and reports nothing.
pub proof fn repeated_domain_deletions_report_nothing(
    effect: spec_fn(Database, Event) -> Database,
    h: Held<Database>,
    before: Seq<Event>,
    once: Seq<Event>,
    twice: Seq<Event>,
    mac: Option<Seq<char>>,
    domain: Seq<char>,
    done: DataDeletionResult,
    again: DataDeletionResult,
)
    requires
        crate::replay_laws::carries_out(effect),
        counted_true(effect, h, twice),
        crate::repository::domain_deletion_done(before, once, mac, domain, done),
        crate::repository::domain_deletion_done(once, twice, mac, domain, again),
        crate::ledger_laws::books(crate::trace_laws::replayed(effect, h, before).now),
    ensures
        again == (DataDeletionResult {
            devices_deleted: 0,
            flows_deleted: 0,
            flows_redacted: 0,
            device_minutes_deleted: 0,
            domain_minutes_deleted: 0,
            contributions_deleted: 0,
        }),
        crate::trace_laws::replayed(effect, h, twice) == crate::trace_laws::replayed(
            effect,
            h,
            once,
        ),
{
    let db = crate::trace_laws::replayed(effect, h, before).now;
    let left = crate::deletion_laws::without_domain(db, mac, domain);
    crate::deletion_laws::domain_deletion_keeps_the_books(db, mac, domain);
    crate::replay_laws::domain_deletions_reach_the_database(
        effect,
        h,
        before,
        once,
        mac,
        domain,
        done,
    );
    crate::replay_laws::domain_deletions_reach_the_database(
        effect,
        h,
        once,
        twice,
        mac,
        domain,
        again,
    );
    crate::deletion_laws::domain_deletion_is_idempotent(db, mac, domain);
    domain_deletions_report_what_they_removed(effect, h, once, twice, mac, domain, again);
    let flow = |f: FlowView| crate::ledger::concerns(mac, domain, f.client_mac, f.domain);
    let minute = |r: DomainMinuteRow| in_scope(mac, r.mac) && r.domain == domain;
    let entry = |r: LedgerRow| crate::ledger::concerns(mac, domain, r.mac, r.domain);
    assert forall|i: int| 0 <= i < left.flows.len() implies !flow(#[trigger] left.flows[i]) by {
    }
    lemma_filter_none(left.flows, flow);
    lemma_filter_gone(
        db.domain_minutes,
        |r: DomainMinuteRow| !((mac is None || mac->0 == r.mac) && r.domain == domain),
        minute,
    );
    lemma_filter_gone(
        db.ledger,
        |r: LedgerRow| !crate::ledger::concerns(mac, domain, r.mac, r.domain),
        entry,
    );
}

/// A cleanup reports the flows and the minutes that were too old.
pub proof fn cleanups_report_what_they_removed(
    effect: spec_fn(Database, Event) -> Database,
    h: Held<Database>,
    before: Seq<Event>,
    after: Seq<Event>,
    flow_cutoff: i64,
    aggregate_cutoff: i64,
    n: Seq<Seq<usize>>,
)
    requires
        crate::replay_laws::carries_out(effect),
        counted_true(effect, h, after),
        crate::trace::changes_done(
            before,
            after,
            crate::storage::expired_deleted(flow_cutoff, aggregate_cutoff),
            n,
        ),
        crate::ledger_laws::books(crate::trace_laws::replayed(effect, h, before).now),
    ensures
        ({
            let db = crate::trace_laws::replayed(effect, h, before).now;
            &&& n[0][0] == db.flows.filter(|f: FlowView| f.last_seen < flow_cutoff).len()
            &&& n[1][0] == db.device_minutes.filter(
                |r: DeviceMinuteRow| r.minute_ms < aggregate_cutoff,
            ).len()
            &&& n[3][0] == db.domain_minutes.filter(
                |r: DomainMinuteRow| r.minute_ms < aggregate_cutoff,
            ).len()
        }),
{
    let db = crate::trace_laws::replayed(effect, h, before).now;
    let s = crate::storage::expired_deleted(flow_cutoff, aggregate_cutoff);
    crate::deletion_laws::expiry_keeps_the_books(db, flow_cutoff, aggregate_cutoff);
    lemma_told(effect, h, before, after, s, n, 0);
    lemma_told(effect, h, before, after, s, n, 1);
    lemma_told(effect, h, before, after, s, n, 3);
    lemma_three(s, db);
    let db1 = crate::ledger::applied(db, s[0])->0;
    let db2 = crate::ledger::applied(db1, s[1])->0;
    assert(s.take(3).drop_last() =~= s.take(2));
    assert(s.take(3).last() == s[2]);
    assert(crate::ledger::applied_all(db, s.take(3)) == crate::ledger::applied(db2, s[2]));
}

/// A cleanup that is repeated with the same limits removes nothing and reports nothing.
pub proof fn repeated_cleanups_report_nothing(
    effect: spec_fn(Database, Event) -> Database,
    h: Held<Database>,
    before: Seq<Event>,
    once: Seq<Event>,
    twice: Seq<Event>,
    flow_cutoff: i64,
    aggregate_cutoff: i64,
    n: Seq<Seq<usize>>,
    again: Seq<Seq<usize>>,
)
    requires
        crate::replay_laws::carries_out(effect),
        counted_true(effect, h, twice),
        crate::trace::changes_done(
            before,
            once,
            crate::storage::expired_deleted(flow_cutoff, aggregate_cutoff),
            n,
        ),
        crate::trace::changes_done(
            once,
            twice,
            crate::storage::expired_deleted(flow_cutoff, aggregate_cutoff),
            again,
        ),
        crate::ledger_laws::books(crate::trace_laws::replayed(effect, h, before).now),
    ensures
        again[0][0] == 0,
        again[1][0] + again[3][0] == 0,
        crate::trace_laws::replayed(effect, h, twice) == crate::trace_laws::replayed(
            effect,
            h,
            once,
        ),
{
    let db = crate::trace_laws::replayed(effect, h, before).now;
    crate::deletion_laws::expiry_keeps_the_books(db, flow_cutoff, aggregate_cutoff);
    crate::replay_laws::expiry_reaches_the_database(
        effect,
        h,
        before,
        once,
        flow_cutoff,
        aggregate_cutoff,
        n,
    );
    crate::replay_laws::expiry_reaches_the_database(
        effect,
        h,
        once,
        twice,
        flow_cutoff,
        aggregate_cutoff,
        again,
    );
    crate::deletion_laws::expiry_is_idempotent(
        db,
        flow_cutoff,
        aggregate_cutoff,
        flow_cutoff,
        aggregate_cutoff,
    );
    cleanups_report_what_they_removed(
        effect,
        h,
        once,
        twice,
        flow_cutoff,
        aggregate_cutoff,
        again,
    );
    let gone = |f: FlowView| f.last_seen < flow_cutoff;
    lemma_filter_gone(db.flows, |f: FlowView| !gone(f), gone);
    lemma_filter_gone(
        db.device_minutes,
        |r: DeviceMinuteRow| !(r.minute_ms < aggregate_cutoff),
        |r: DeviceMinuteRow| r.minute_ms < aggregate_cutoff,
    );
    lemma_filter_gone(
        db.domain_minutes,
        |r: DomainMinuteRow| !(r.minute_ms < aggregate_cutoff),
        |r: DomainMinuteRow| r.minute_ms < aggregate_cutoff,
    );
}

proof fn lemma_prefix(a: Seq<Event>, b: Seq<Event>, c: Seq<Event>)
    requires
        crate::replay_laws::is_prefix(a, b),
        crate::replay_laws::is_prefix(b, c),
    ensures
        crate::replay_laws::is_prefix(a, c),
{
    assert forall|i: int| 0 <= i < a.len() implies c[i] == a[i] by {
        assert(b.take(a.len() as int)[i] == a[i]);
        assert(c.take(b.len() as int)[i] == b[i]);
    }
    assert(c.take(a.len() as int) =~= a);
}

/// A number that was counted truly is the right one.
proof fn lemma_number(
    effect: spec_fn(Database, Event) -> Database,
    h: Held<Database>,
    before: Seq<Event>,
    after: Seq<Event>,
    c: CommandView,
    told: usize,
) -> (rows: Seq<Seq<SqlView>>)
    requires
        crate::trace::counted(before, after, c, Ok(told)),
    ensures
        after == crate::trace::after_query(before, c, Ok(rows)),
        crate::trace::count_of(rows) == Ok::<usize, ErrorView>(told),
        crate::replay_laws::is_prefix(before, after),
        crate::trace_laws::replayed(effect, h, after) == crate::trace_laws::replayed(
            effect,
            h,
            before,
        ),
{
    let answer = choose|answer: Result<Seq<Seq<SqlView>>, ErrorView>|
        after == #[trigger] crate::trace::after_query(before, c, answer) && match answer {
            Ok(rows) => Ok::<usize, ErrorView>(told) == crate::trace::count_of(rows),
            Err(e) => Ok::<usize, ErrorView>(told) == Err::<usize, ErrorView>(e),
        };
    assert(after.take(before.len() as int) =~= before);
    crate::replay_laws::lemma_asked(effect, h, before, c, answer);
    answer->Ok_0
}

/// A device is removed exactly where it is known. It is then reported with the flows, the minutes
/// and the contributions that it had.
pub proof fn device_deletions_report_what_they_removed(
    effect: spec_fn(Database, Event) -> Database,
    h: Held<Database>,
    before: Seq<Event>,
    after: Seq<Event>,
    mac: Seq<char>,
    r: Option<DataDeletionResult>,
)
    requires
        crate::replay_laws::carries_out(effect),
        counted_true(effect, h, after),
        numbers_true(effect, h, after),
        crate::repository::device_deletion_done(before, after, mac, r),
        crate::ledger_laws::books(crate::trace_laws::replayed(effect, h, before).now),
    ensures
        ({
            let db = crate::trace_laws::replayed(effect, h, before).now;
            match r {
                Some(done) => {
                    &&& crate::ledger::knows_device(db.devices, mac)
                    &&& done.devices_deleted == 1
                    &&& done.flows_deleted == flows_of(db, mac)
                    &&& done.flows_redacted == 0
                    &&& done.device_minutes_deleted == db.device_minutes.filter(
                        |m: DeviceMinuteRow| m.mac == mac,
                    ).len()
                    &&& done.domain_minutes_deleted == db.domain_minutes.filter(
                        |m: DomainMinuteRow| m.mac == mac,
                    ).len()
                    &&& done.contributions_deleted == entries_of(db, mac)
                },
                None => !crate::ledger::knows_device(db.devices, mac),
            }
        }),
{
    let start = crate::trace::begun(before);
    let mid = choose|mid: Seq<Event>| #[trigger]
        crate::trace::committed(mid, after) && match r {
            None => crate::trace::device_unknown(start, mid, mac),
            Some(done) => crate::trace::device_gone(start, mid, mac, done),
        };
    let db = crate::trace_laws::replayed(effect, h, before).now;
    let known = crate::repository::known_query(mac);
    assert(start.drop_last() =~= before);
    assert(after.take(mid.len() as int) =~= mid);
    assert(crate::replay_laws::is_prefix(mid, after));
    match r {
        None => {
            let found = choose|found: Seq<Seq<SqlView>>|
                mid == #[trigger] crate::trace::looked_for(start, mac, found) && found.len() == 0;
            assert(crate::replay_laws::is_prefix(
                crate::trace::after_query(start, known, Ok(found)),
                after,
            ));
        },
        Some(done) => {
            let s = crate::storage::device_deleted(mac);
            let flows = crate::repository::flow_count(mac);
            let more = crate::repository::contribution_count(mac);
            let (counting, n) = choose|counting: Seq<Event>, n: Seq<Seq<usize>>|
                {
                    &&& #[trigger] crate::trace::device_counted(
                        start,
                        counting,
                        mac,
                        done.flows_deleted,
                        done.contributions_deleted,
                    )
                    &&& #[trigger] crate::trace::changes_done(counting, mid, s, n)
                    &&& done.devices_deleted == 1
                    &&& done.flows_redacted == 0
                    &&& done.device_minutes_deleted == n[0][0]
                    &&& done.domain_minutes_deleted == n[1][0]
                };
            let (found, part) = choose|found: Seq<Seq<SqlView>>, part: Seq<Event>|
                found.len() > 0 && #[trigger] crate::trace::counted(
                    #[trigger] crate::trace::looked_for(start, mac, found),
                    part,
                    flows,
                    Ok(done.flows_deleted),
                ) && crate::trace::counted(part, counting, more, Ok(done.contributions_deleted));
            let looked = crate::trace::looked_for(start, mac, found);
            crate::replay_laws::lemma_asked(effect, h, start, known, Ok(found));
            let rows = lemma_number(effect, h, looked, part, flows, done.flows_deleted);
            let rest = lemma_number(effect, h, part, counting, more, done.contributions_deleted);
            crate::trace_laws::lemma_changes_done(counting, mid, s, n);
            lemma_prefix(counting, mid, after);
            lemma_prefix(part, counting, after);
            lemma_prefix(looked, part, after);
            assert(crate::replay_laws::is_prefix(
                crate::trace::after_query(start, known, Ok(found)),
                after,
            ));
            assert(crate::replay_laws::is_prefix(
                crate::trace::after_query(looked, flows, Ok(rows)),
                after,
            ));
            assert(crate::replay_laws::is_prefix(
                crate::trace::after_query(part, more, Ok(rest)),
                after,
            ));
            crate::deletion_laws::device_deletion_keeps_the_books(db, mac);
            lemma_counted_before(effect, h, mid, after);
            lemma_told(effect, h, counting, mid, s, n, 0);
            lemma_told(effect, h, counting, mid, s, n, 1);
            lemma_three(s, db);
        },
    }
}

proof fn lemma_deletion_goes_on(
    before: Seq<Event>,
    after: Seq<Event>,
    mac: Seq<char>,
    r: Option<DataDeletionResult>,
)
    requires
        crate::repository::device_deletion_done(before, after, mac, r),
    ensures
        crate::replay_laws::is_prefix(before, after),
{
    let start = crate::trace::begun(before);
    let mid = choose|mid: Seq<Event>| #[trigger]
        crate::trace::committed(mid, after) && match r {
            None => crate::trace::device_unknown(start, mid, mac),
            Some(done) => crate::trace::device_gone(start, mid, mac, done),
        };
    assert(start.take(before.len() as int) =~= before);
    assert(after.take(mid.len() as int) =~= mid);
    match r {
        None => {
            assert(mid.take(start.len() as int) =~= start);
        },
        Some(done) => {
            crate::trace_laws::lemma_device_gone(start, mid, mac, done);
        },
    }
    lemma_prefix(before, start, mid);
    lemma_prefix(before, mid, after);
}

/// A device that was removed is not known any more: removing it again finds nothing.
pub proof fn repeated_device_deletions_find_nothing(
    effect: spec_fn(Database, Event) -> Database,
    h: Held<Database>,
    before: Seq<Event>,
    once: Seq<Event>,
    twice: Seq<Event>,
    mac: Seq<char>,
    r: Option<DataDeletionResult>,
    again: Option<DataDeletionResult>,
)
    requires
        crate::replay_laws::carries_out(effect),
        counted_true(effect, h, twice),
        numbers_true(effect, h, twice),
        crate::repository::device_deletion_done(before, once, mac, r),
        crate::repository::device_deletion_done(once, twice, mac, again),
        crate::ledger_laws::books(crate::trace_laws::replayed(effect, h, before).now),
    ensures
        again is None,
        crate::trace_laws::replayed(effect, h, twice) == crate::trace_laws::replayed(
            effect,
            h,
            once,
        ),
{
    let db = crate::trace_laws::replayed(effect, h, before).now;
    crate::deletion_laws::device_deletion_keeps_the_books(db, mac);
    lemma_deletion_goes_on(once, twice, mac, again);
    assert forall|b: Seq<Event>| #[trigger]
        crate::replay_laws::is_prefix(b, once) implies crate::replay_laws::is_prefix(b, twice) by {
        lemma_prefix(b, once, twice);
    }
    device_deletions_report_what_they_removed(effect, h, before, once, mac, r);
    crate::replay_laws::device_deletions_reach_the_database(effect, h, before, once, mac, r);
    device_deletions_report_what_they_removed(effect, h, once, twice, mac, again);
    crate::replay_laws::device_deletions_reach_the_database(effect, h, once, twice, mac, again);
}

/// A range of time that was removed is reported with the flows that overlapped it, the minutes in
/// it, and the contributions that it took with it.
pub proof fn range_deletions_report_what_they_removed(
    effect: spec_fn(Database, Event) -> Database,
    h: Held<Database>,
    before: Seq<Event>,
    after: Seq<Event>,
    from_ms: i64,
    to_ms: i64,
    done: DataDeletionResult,
)
    requires
        crate::replay_laws::carries_out(effect),
        counted_true(effect, h, after),
        numbers_true(effect, h, after),
        crate::repository::range_deletion_done(before, after, from_ms, to_ms, done),
        crate::ledger_laws::books(crate::trace_laws::replayed(effect, h, before).now),
    ensures
        ({
            let db = crate::trace_laws::replayed(effect, h, before).now;
            &&& done.devices_deleted == 0
            &&& done.flows_deleted == flows_in(db, from_ms, to_ms)
            &&& done.flows_redacted == 0
            &&& done.device_minutes_deleted == db.device_minutes.filter(
                |r: DeviceMinuteRow| from_ms <= r.minute_ms < to_ms,
            ).len()
            &&& done.domain_minutes_deleted == db.domain_minutes.filter(
                |r: DomainMinuteRow| from_ms <= r.minute_ms < to_ms,
            ).len()
            &&& done.contributions_deleted == entries_in(db, from_ms, to_ms)
        }),
{
    let start = crate::trace::begun(before);
    let mid = choose|mid: Seq<Event>| #[trigger]
        crate::trace::range_gone(start, mid, from_ms, to_ms, done) && crate::trace::committed(
            mid,
            after,
        );
    let db = crate::trace_laws::replayed(effect, h, before).now;
    let s = crate::storage::range_deleted(from_ms, to_ms);
    let first = crate::repository::contributions_in(from_ms, to_ms);
    let second = crate::repository::flows_in(from_ms, to_ms);
    assert(start.drop_last() =~= before);
    assert(after.take(mid.len() as int) =~= mid);
    assert(crate::replay_laws::is_prefix(mid, after));
    let (counting, n) = choose|counting: Seq<Event>, n: Seq<Seq<usize>>|
        {
            &&& #[trigger] crate::trace::range_counted(
                start,
                counting,
                from_ms,
                to_ms,
                done.flows_deleted,
                done.contributions_deleted,
            )
            &&& #[trigger] crate::trace::changes_done(counting, mid, s, n)
            &&& done.devices_deleted == 0
            &&& done.flows_redacted == 0
            &&& done.device_minutes_deleted == n[0][0]
            &&& done.domain_minutes_deleted == n[1][0]
        };
    let part = choose|part: Seq<Event>| #[trigger]
        crate::trace::counted(start, part, first, Ok(done.contributions_deleted))
            && crate::trace::counted(part, counting, second, Ok(done.flows_deleted));
    let rows = lemma_number(effect, h, start, part, first, done.contributions_deleted);
    let rest = lemma_number(effect, h, part, counting, second, done.flows_deleted);
    crate::trace_laws::lemma_changes_done(counting, mid, s, n);
    lemma_prefix(counting, mid, after);
    lemma_prefix(part, counting, after);
    assert(crate::replay_laws::is_prefix(
        crate::trace::after_query(start, first, Ok(rows)),
        after,
    ));
    assert(crate::replay_laws::is_prefix(
        crate::trace::after_query(part, second, Ok(rest)),
        after,
    ));
    crate::deletion_laws::range_deletion_keeps_the_books(db, from_ms, to_ms);
    lemma_counted_before(effect, h, mid, after);
    lemma_told(effect, h, counting, mid, s, n, 0);
    lemma_told(effect, h, counting, mid, s, n, 1);
    lemma_three(s, db);
}

} // verus!
