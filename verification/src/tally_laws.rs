//! The traffic of the minutes is the traffic of the flows: as long as nothing is deleted, what is
//! counted for devices and domains adds up to the counters of the stored flows.
use vstd::prelude::*;

use crate::domain::{AttributionView, FlowView};
use crate::ledger::{Database, DomainMinuteRow, LedgerRow};
use crate::storage::StoredView;

verus! {

/// What was counted of the flows of a device.
pub open spec fn flow_total(flows: Seq<FlowView>, mac: Seq<char>, up: bool) -> int
    decreases flows.len(),
{
    if flows.len() == 0 {
        0
    } else {
        let f = flows.last();
        flow_total(flows.drop_last(), mac, up) + if f.client_mac == mac {
            crate::ledger_laws::part(up, f.upload_bytes as int, f.download_bytes as int)
        } else {
            0
        }
    }
}

/// The flow is of the device and attributed to the domain.
pub open spec fn is_attributed(f: FlowView, mac: Seq<char>, domain: Seq<char>) -> bool {
    f.client_mac == mac && f.domain is Some && f.domain->0.domain == domain
}

/// What was counted of the flows of a device that are attributed to a domain.
pub open spec fn attributed_total(
    flows: Seq<FlowView>,
    mac: Seq<char>,
    domain: Seq<char>,
    up: bool,
) -> int
    decreases flows.len(),
{
    if flows.len() == 0 {
        0
    } else {
        let f = flows.last();
        attributed_total(flows.drop_last(), mac, domain, up) + if is_attributed(f, mac, domain) {
            crate::ledger_laws::part(up, f.upload_bytes as int, f.download_bytes as int)
        } else {
            0
        }
    }
}

/// The traffic of a device with a domain over all minutes.
pub open spec fn domain_total(
    rows: Seq<DomainMinuteRow>,
    mac: Seq<char>,
    domain: Seq<char>,
    up: bool,
) -> int
    decreases rows.len(),
{
    if rows.len() == 0 {
        0
    } else {
        let r = rows.last();
        domain_total(rows.drop_last(), mac, domain, up) + if r.mac == mac && r.domain == domain {
            crate::ledger_laws::part(up, r.upload, r.download)
        } else {
            0
        }
    }
}

/// The entry was counted for the domain.
pub open spec fn is_about(r: LedgerRow, mac: Seq<char>, domain: Seq<char>) -> bool {
    r.mac == mac && r.domain is Some && r.domain->0.domain == domain
}

/// What flows have contributed to a domain over all minutes.
pub open spec fn entry_total(
    rows: Seq<LedgerRow>,
    mac: Seq<char>,
    domain: Seq<char>,
    up: bool,
) -> int
    decreases rows.len(),
{
    if rows.len() == 0 {
        0
    } else {
        let r = rows.last();
        entry_total(rows.drop_last(), mac, domain, up) + if is_about(r, mac, domain) {
            crate::ledger_laws::part(up, r.upload, r.download)
        } else {
            0
        }
    }
}

/// Nothing of what was counted is missing, and nothing was counted twice.
pub open spec fn settled(db: Database) -> bool {
    &&& crate::ledger_laws::books(db)
    &&& crate::ledger_laws::matched(db.domain_minutes, db.ledger)
    &&& crate::ledger_laws::all_contributed(db)
    &&& crate::storage_laws::distinct_device_minutes(db.device_minutes)
    &&& forall|mac: Seq<char>, up: bool| #[trigger]
        crate::storage_laws::device_total(db.device_minutes, mac, up) == flow_total(
            db.flows,
            mac,
            up,
        )
}

/// The snapshot can be stored: its counters are within range.
pub open spec fn storable(f: FlowView) -> bool {
    f.upload_bytes <= i64::MAX && f.download_bytes <= i64::MAX && f.packet_count <= i64::MAX
}

/// What is stored after snapshots, one after the other.
pub open spec fn all_stored(db: Database, flows: Seq<FlowView>) -> Database
    decreases flows.len(),
{
    if flows.len() == 0 {
        db
    } else {
        crate::ledger_laws::stored(all_stored(db, flows.drop_last()), flows.last())->0
    }
}

/// Each snapshot continues what was stored when its turn comes.
pub open spec fn all_continue(db: Database, flows: Seq<FlowView>) -> bool
    decreases flows.len(),
{
    flows.len() > 0 ==> {
        &&& all_continue(db, flows.drop_last())
        &&& storable(flows.last())
        &&& crate::ledger_laws::continues(all_stored(db, flows.drop_last()), flows.last())
    }
}

proof fn lemma_flow_push(flows: Seq<FlowView>, f: FlowView, m: Seq<char>, up: bool)
    ensures
        flow_total(flows.push(f), m, up) == flow_total(flows, m, up) + if f.client_mac == m {
            crate::ledger_laws::part(up, f.upload_bytes as int, f.download_bytes as int)
        } else {
            0
        },
{
    assert(flows.push(f).drop_last() =~= flows);
}

proof fn lemma_flow_update(flows: Seq<FlowView>, i: int, f: FlowView, m: Seq<char>, up: bool)
    requires
        0 <= i < flows.len(),
        f.client_mac == flows[i].client_mac,
    ensures
        flow_total(flows.update(i, f), m, up) == flow_total(flows, m, up) + if f.client_mac == m {
            crate::ledger_laws::part(up, f.upload_bytes as int, f.download_bytes as int)
                - crate::ledger_laws::part(
                up,
                flows[i].upload_bytes as int,
                flows[i].download_bytes as int,
            )
        } else {
            0
        },
    decreases flows.len(),
{
    let s = flows.drop_last();
    if i == flows.len() - 1 {
        assert(flows.update(i, f).drop_last() =~= s);
    } else {
        assert(flows.update(i, f).drop_last() =~= s.update(i, f));
        assert(s[i] == flows[i]);
        lemma_flow_update(s, i, f, m, up);
    }
}

/// Nothing stored is settled.
pub proof fn empty_is_settled(db: Database)
    requires
        db.flows.len() == 0,
        db.device_minutes.len() == 0,
        db.domain_minutes.len() == 0,
        db.ledger.len() == 0,
    ensures
        settled(db),
{
    crate::deletion_laws::empty_books_are_in_order(db);
}

/// Storing a snapshot leaves nothing uncounted and counts nothing twice.
pub proof fn storing_stays_settled(db: Database, f: FlowView)
    requires
        settled(db),
        crate::ledger_laws::continues(db, f),
        storable(f),
    ensures
        settled(crate::ledger_laws::stored(db, f)->0),
{
    let after = crate::ledger_laws::stored(db, f)->0;
    let st = crate::ledger_laws::state_of(db, f.flow_id);
    let g = FlowView { domain: crate::storage::decided(f, st), ..f };
    crate::ledger_laws::storing_keeps_the_books(db, f);
    crate::storage_laws::storing_counts_the_increase(db, f, f.client_mac, true);
    assert forall|m: Seq<char>, up: bool| #[trigger]
        crate::storage_laws::device_total(after.device_minutes, m, up) == flow_total(
            after.flows,
            m,
            up,
        ) by {
        crate::storage_laws::storing_counts_the_increase(db, f, m, up);
        assert(crate::storage_laws::device_total(db.device_minutes, m, up) == flow_total(
            db.flows,
            m,
            up,
        ));
        if crate::ledger::knows_flow(db.flows, f.flow_id) {
            let at = crate::ledger_laws::flow_index(db.flows, f.flow_id);
            let n = crate::ledger::merged(db.flows[at], g);
            assert forall|j: int| 0 <= j < db.flows.len() implies after.flows[j]
                == db.flows.update(at, n)[j] by {
                if j < at {
                    assert(db.flows[j].flow_id != db.flows[at].flow_id);
                } else if at < j {
                    assert(db.flows[at].flow_id != db.flows[j].flow_id);
                }
            }
            assert(after.flows =~= db.flows.update(at, n));
            lemma_flow_update(db.flows, at, n, m, up);
        } else {
            lemma_flow_push(db.flows, g, m, up);
        }
    }
}

/// Attributing a stored flow later leaves nothing uncounted and counts nothing twice.
pub proof fn backfilling_stays_settled(db: Database, i: int, a: AttributionView)
    requires
        settled(db),
        0 <= i < db.flows.len(),
    ensures
        ({
            let f = db.flows[i];
            let st = StoredView {
                counters: crate::storage::counters_of(f),
                last_seen: f.last_seen,
                domain: f.domain,
            };
            settled(
                crate::ledger::applied_all(
                    db,
                    crate::storage_laws::backfill_changes(
                        f.flow_id,
                        f.client_mac,
                        st,
                        a,
                        crate::ledger_laws::entries_of(db.ledger, f.flow_id),
                    ),
                )->0,
            )
        }),
{
    crate::storage_laws::backfilling_keeps_the_books(db, i, a);
    let f = db.flows[i];
    let n = FlowView { domain: crate::storage::effective(f.domain, Some(a)), ..f };
    let flows = db.flows.update(i, n);
    assert forall|m: Seq<char>, up: bool| #[trigger]
        crate::storage_laws::device_total(db.device_minutes, m, up) == flow_total(
            flows,
            m,
            up,
        ) by {
        lemma_flow_update(db.flows, i, n, m, up);
    }
}

/// Storing any number of snapshots, each of which continues what is stored, leaves nothing
/// uncounted and counts nothing twice.
pub proof fn storing_all_stays_settled(db: Database, flows: Seq<FlowView>)
    requires
        settled(db),
        all_continue(db, flows),
    ensures
        settled(all_stored(db, flows)),
    decreases flows.len(),
{
    if flows.len() > 0 {
        storing_all_stays_settled(db, flows.drop_last());
        storing_stays_settled(all_stored(db, flows.drop_last()), flows.last());
    }
}

spec fn other_minute(mac: Seq<char>, domain: Seq<char>, minute: i64) -> spec_fn(LedgerRow) -> bool {
    |r: LedgerRow| !crate::ledger_laws::charges(r, mac, domain, minute)
}

proof fn lemma_without_minute(
    rows: Seq<LedgerRow>,
    mac: Seq<char>,
    domain: Seq<char>,
    minute: i64,
    m: Seq<char>,
    d: Seq<char>,
    t: i64,
    up: bool,
)
    ensures
        crate::ledger_laws::charged(rows.filter(other_minute(mac, domain, minute)), m, d, t, up)
            == if m == mac && d == domain && t == minute {
            0
        } else {
            crate::ledger_laws::charged(rows, m, d, t, up)
        },
        entry_total(rows.filter(other_minute(mac, domain, minute)), m, d, up) == entry_total(
            rows,
            m,
            d,
            up,
        ) - if m == mac && d == domain {
            crate::ledger_laws::charged(rows, mac, domain, minute, up)
        } else {
            0
        },
    decreases rows.len(),
{
    reveal(Seq::filter);
    if rows.len() > 0 {
        let p = other_minute(mac, domain, minute);
        let s = rows.drop_last();
        lemma_without_minute(s, mac, domain, minute, m, d, t, up);
        if p(rows.last()) {
            assert(rows.filter(p).drop_last() =~= s.filter(p));
        }
    }
}

proof fn lemma_none_about(rows: Seq<LedgerRow>, m: Seq<char>, d: Seq<char>, up: bool)
    requires
        forall|i: int| 0 <= i < rows.len() ==> !is_about(#[trigger] rows[i], m, d),
    ensures
        entry_total(rows, m, d, up) == 0,
    decreases rows.len(),
{
    if rows.len() > 0 {
        let s = rows.drop_last();
        assert forall|i: int| 0 <= i < s.len() implies !is_about(#[trigger] s[i], m, d) by {
            assert(s[i] == rows[i]);
        }
        lemma_none_about(s, m, d, up);
        assert(!is_about(rows[rows.len() - 1], m, d));
    }
}

/// Minutes that match the ledger add up to it.
proof fn lemma_minutes_total(
    minutes: Seq<DomainMinuteRow>,
    ledger: Seq<LedgerRow>,
    m: Seq<char>,
    d: Seq<char>,
    up: bool,
)
    requires
        crate::ledger_laws::matched(minutes, ledger),
        crate::ledger_laws::distinct_minutes(minutes),
        crate::ledger_laws::distinct_entries(ledger),
        crate::ledger_laws::entries_sound(ledger),
    ensures
        domain_total(minutes, m, d, up) == entry_total(ledger, m, d, up),
    decreases minutes.len(),
{
    if minutes.len() == 0 {
        assert forall|i: int| 0 <= i < ledger.len() implies !is_about(
            #[trigger] ledger[i],
            m,
            d,
        ) by {
            if is_about(ledger[i], m, d) {
                let t = ledger[i].minute_ms;
                assert(crate::ledger_laws::entry_sound(ledger[i]));
                crate::ledger_laws::lemma_charged_at_least(ledger, i, m, d, t, true);
                crate::ledger_laws::lemma_charged_at_least(ledger, i, m, d, t, false);
                assert(crate::ledger_laws::charged(ledger, m, d, t, true)
                    == crate::ledger_laws::billed(minutes, m, d, t, true));
                assert(crate::ledger_laws::charged(ledger, m, d, t, false)
                    == crate::ledger_laws::billed(minutes, m, d, t, false));
            }
        }
        lemma_none_about(ledger, m, d, up);
    } else {
        let r = minutes.last();
        let s = minutes.drop_last();
        let p = other_minute(r.mac, r.domain, r.minute_ms);
        let rest = ledger.filter(p);
        crate::ledger_laws::lemma_prefix_distinct(minutes);
        crate::ledger_laws::lemma_filter_entries(ledger, p);
        assert forall|x: Seq<char>, y: Seq<char>, t: i64, u: bool| #[trigger]
            crate::ledger_laws::charged(rest, x, y, t, u) == crate::ledger_laws::billed(
                s,
                x,
                y,
                t,
                u,
            ) by {
            lemma_without_minute(ledger, r.mac, r.domain, r.minute_ms, x, y, t, u);
            assert(crate::ledger_laws::charged(ledger, x, y, t, u) == crate::ledger_laws::billed(
                minutes,
                x,
                y,
                t,
                u,
            ));
            if x == r.mac && y == r.domain && t == r.minute_ms {
                crate::ledger_laws::lemma_billed_absent(s, x, y, t, u);
            }
        }
        lemma_minutes_total(s, rest, m, d, up);
        lemma_without_minute(ledger, r.mac, r.domain, r.minute_ms, m, d, r.minute_ms, up);
        crate::ledger_laws::lemma_billed_at(
            minutes,
            minutes.len() - 1,
            r.mac,
            r.domain,
            r.minute_ms,
            up,
        );
        assert(crate::ledger_laws::charged(ledger, r.mac, r.domain, r.minute_ms, up)
            == crate::ledger_laws::billed(minutes, r.mac, r.domain, r.minute_ms, up));
    }
}

spec fn other_flow(id: Seq<char>) -> spec_fn(LedgerRow) -> bool {
    |r: LedgerRow| r.flow_id != id
}

proof fn lemma_without_flow(
    rows: Seq<LedgerRow>,
    f: FlowView,
    m: Seq<char>,
    d: Seq<char>,
    o: Seq<char>,
    up: bool,
)
    requires
        forall|i: int|
            0 <= i < rows.len() && (#[trigger] rows[i]).flow_id == f.flow_id ==> rows[i].mac
                == f.client_mac && crate::ledger_laws::same_domain(f.domain, rows[i].domain),
    ensures
        entry_total(rows, m, d, up) == entry_total(rows.filter(other_flow(f.flow_id)), m, d, up)
            + if is_attributed(f, m, d) {
            crate::ledger_laws::contributed(rows, f.flow_id, up)
        } else {
            0
        },
        o != f.flow_id ==> crate::ledger_laws::contributed(
            rows.filter(other_flow(f.flow_id)),
            o,
            up,
        ) == crate::ledger_laws::contributed(rows, o, up),
    decreases rows.len(),
{
    reveal(Seq::filter);
    if rows.len() > 0 {
        let p = other_flow(f.flow_id);
        let s = rows.drop_last();
        assert forall|i: int|
            0 <= i < s.len() && (#[trigger] s[i]).flow_id == f.flow_id implies s[i].mac
            == f.client_mac && crate::ledger_laws::same_domain(f.domain, s[i].domain) by {
            assert(s[i] == rows[i]);
        }
        lemma_without_flow(s, f, m, d, o, up);
        assert(rows[rows.len() - 1] == rows.last());
        if p(rows.last()) {
            assert(rows.filter(p).drop_last() =~= s.filter(p));
        }
    }
}

/// Entries of flows that have contributed what was counted of them add up to the flows.
proof fn lemma_entries_total(
    flows: Seq<FlowView>,
    ledger: Seq<LedgerRow>,
    m: Seq<char>,
    d: Seq<char>,
    up: bool,
)
    requires
        crate::ledger_laws::distinct_flows(flows),
        forall|i: int|
            0 <= i < ledger.len() ==> crate::ledger_laws::owned(flows, #[trigger] ledger[i]),
        forall|i: int|
            0 <= i < flows.len() ==> crate::ledger_laws::contributed(
                ledger,
                (#[trigger] flows[i]).flow_id,
                up,
            ) == crate::ledger_laws::part(
                up,
                flows[i].upload_bytes as int,
                flows[i].download_bytes as int,
            ),
    ensures
        entry_total(ledger, m, d, up) == attributed_total(flows, m, d, up),
    decreases flows.len(),
{
    if flows.len() == 0 {
        if ledger.len() > 0 {
            assert(crate::ledger_laws::owned(flows, ledger[0]));
        }
    } else {
        let f = flows.last();
        let s = flows.drop_last();
        let p = other_flow(f.flow_id);
        let rest = ledger.filter(p);
        let last = flows.len() - 1;
        assert(flows[last] == f);
        assert forall|i: int|
            0 <= i < ledger.len() && (#[trigger] ledger[i]).flow_id
                == f.flow_id implies ledger[i].mac == f.client_mac
            && crate::ledger_laws::same_domain(f.domain, ledger[i].domain) by {
            assert(crate::ledger_laws::owned(flows, ledger[i]));
            let j = choose|j: int|
                0 <= j < flows.len() && (#[trigger] flows[j]).flow_id == ledger[i].flow_id
                    && flows[j].client_mac == ledger[i].mac && crate::ledger_laws::same_domain(
                    flows[j].domain,
                    ledger[i].domain,
                );
            if j < last {
                assert(flows[j].flow_id != flows[last].flow_id);
            }
        }
        assert forall|x: int, y: int| 0 <= x < y < s.len() implies (#[trigger] s[x]).flow_id != (
        #[trigger] s[y]).flow_id by {
            assert(flows[x].flow_id != flows[y].flow_id);
        }
        assert forall|i: int| 0 <= i < rest.len() implies crate::ledger_laws::owned(
            s,
            #[trigger] rest[i],
        ) by {
            let x = crate::ledger_laws::lemma_filter_origin(ledger, p, i);
            assert(crate::ledger_laws::owned(flows, ledger[x]));
            let j = choose|j: int|
                0 <= j < flows.len() && (#[trigger] flows[j]).flow_id == ledger[x].flow_id
                    && flows[j].client_mac == ledger[x].mac && crate::ledger_laws::same_domain(
                    flows[j].domain,
                    ledger[x].domain,
                );
            assert(j < last);
            assert(s[j] == flows[j]);
        }
        assert forall|i: int| 0 <= i < s.len() implies crate::ledger_laws::contributed(
            rest,
            (#[trigger] s[i]).flow_id,
            up,
        ) == crate::ledger_laws::part(
            up,
            s[i].upload_bytes as int,
            s[i].download_bytes as int,
        ) by {
            assert(flows[i] == s[i]);
            assert(flows[i].flow_id != flows[last].flow_id);
            lemma_without_flow(ledger, f, m, d, s[i].flow_id, up);
        }
        lemma_entries_total(s, rest, m, d, up);
        lemma_without_flow(ledger, f, m, d, f.flow_id, up);
    }
}

/// As long as nothing is uncounted and nothing counted twice, the minutes of a device add up to
/// the counters of its flows, and those of a domain to the counters of the flows that are
/// attributed to it.
pub proof fn minutes_add_up_to_the_flows(db: Database, mac: Seq<char>, domain: Seq<char>, up: bool)
    requires
        settled(db),
    ensures
        crate::storage_laws::device_total(db.device_minutes, mac, up) == flow_total(
            db.flows,
            mac,
            up,
        ),
        domain_total(db.domain_minutes, mac, domain, up) == attributed_total(
            db.flows,
            mac,
            domain,
            up,
        ),
{
    lemma_minutes_total(db.domain_minutes, db.ledger, mac, domain, up);
    lemma_entries_total(db.flows, db.ledger, mac, domain, up);
}

} // verus!
