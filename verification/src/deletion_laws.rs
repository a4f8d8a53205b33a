//! What deletions and late attributions do to what is stored: they remove exactly what they name,
//! can be repeated without effect, and keep the books in order.
use vstd::prelude::*;

use crate::domain::{DeviceView, FlowView};
use crate::ledger::{Database, DeviceMinuteRow, DomainMinuteRow, LedgerRow};
use crate::storage::StatementView;

verus! {

/// Nothing stored is in order.
pub proof fn empty_books_are_in_order(db: Database)
    requires
        db.flows.len() == 0,
        db.device_minutes.len() == 0,
        db.domain_minutes.len() == 0,
        db.ledger.len() == 0,
    ensures
        crate::ledger_laws::books(db),
{
}

proof fn lemma_contributed_filtered(
    rows: Seq<LedgerRow>,
    q: spec_fn(LedgerRow) -> bool,
    id: Seq<char>,
    up: bool,
)
    requires
        crate::ledger_laws::entries_sound(rows),
    ensures
        crate::ledger_laws::contributed(rows.filter(q), id, up) <= crate::ledger_laws::contributed(
            rows,
            id,
            up,
        ),
    decreases rows.len(),
{
    reveal(Seq::filter);
    if rows.len() > 0 {
        let s = rows.drop_last();
        assert forall|k: int| 0 <= k < s.len() implies crate::ledger_laws::entry_sound(
            #[trigger] s[k],
        ) by {
            assert(s[k] == rows[k]);
        }
        lemma_contributed_filtered(s, q, id, up);
        assert(crate::ledger_laws::entry_sound(rows[rows.len() - 1]));
        if q(rows.last()) {
            assert(rows.filter(q).drop_last() =~= s.filter(q));
        }
    }
}

/// For each minute of a domain, either all its traffic stays or all its entries go.
spec fn filters_agree(
    minutes: Seq<DomainMinuteRow>,
    ledger: Seq<LedgerRow>,
    p: spec_fn(DomainMinuteRow) -> bool,
    q: spec_fn(LedgerRow) -> bool,
) -> bool {
    forall|i: int, j: int|
        0 <= i < minutes.len() && 0 <= j < ledger.len() && q(#[trigger] ledger[j])
            && crate::ledger_laws::charges(
            ledger[j],
            (#[trigger] minutes[i]).mac,
            minutes[i].domain,
            minutes[i].minute_ms,
        ) ==> p(minutes[i])
}

/// Removing traffic together with the entries that were counted in it keeps the balance.
proof fn lemma_balanced_filtered(
    minutes: Seq<DomainMinuteRow>,
    ledger: Seq<LedgerRow>,
    p: spec_fn(DomainMinuteRow) -> bool,
    q: spec_fn(LedgerRow) -> bool,
)
    requires
        crate::ledger_laws::balanced(minutes, ledger),
        filters_agree(minutes, ledger, p, q),
    ensures
        crate::ledger_laws::balanced(minutes.filter(p), ledger.filter(q)),
{
    let dm = minutes.filter(p);
    let l = ledger.filter(q);
    crate::ledger_laws::lemma_filter_distinct(minutes, p);
    crate::ledger_laws::lemma_filter_entries(ledger, q);
    assert forall|m: Seq<char>, d: Seq<char>, t: i64, up: bool| #[trigger]
        crate::ledger_laws::charged(l, m, d, t, up) <= crate::ledger_laws::billed(
            dm,
            m,
            d,
            t,
            up,
        ) by {
        crate::ledger_laws::lemma_charged_filtered(ledger, q, m, d, t, up);
        if exists|j: int|
            0 <= j < ledger.len() && q(#[trigger] ledger[j]) && crate::ledger_laws::charges(
                ledger[j],
                m,
                d,
                t,
            ) {
            let j = choose|j: int|
                0 <= j < ledger.len() && q(#[trigger] ledger[j]) && crate::ledger_laws::charges(
                    ledger[j],
                    m,
                    d,
                    t,
                );
            assert forall|i: int|
                0 <= i < minutes.len() && !p(
                    #[trigger] minutes[i],
                ) implies !crate::ledger::is_domain_minute(minutes[i], m, d, t) || (
            minutes[i].upload == 0 && minutes[i].download == 0) by {
                if crate::ledger::is_domain_minute(minutes[i], m, d, t) {
                    assert(crate::ledger_laws::charges(
                        ledger[j],
                        minutes[i].mac,
                        minutes[i].domain,
                        minutes[i].minute_ms,
                    ));
                }
            }
            crate::ledger_laws::lemma_billed_filtered(minutes, p, m, d, t, up);
            assert(crate::ledger_laws::charged(ledger, m, d, t, up)
                <= crate::ledger_laws::billed(minutes, m, d, t, up));
        } else {
            crate::ledger_laws::lemma_billed_sound(dm, m, d, t, up);
        }
    }
}

proof fn lemma_filter_all<A>(s: Seq<A>, p: spec_fn(A) -> bool)
    requires
        forall|i: int| 0 <= i < s.len() ==> p(#[trigger] s[i]),
    ensures
        s.filter(p) == s,
    decreases s.len(),
{
    reveal(Seq::filter);
    if s.len() > 0 {
        let t = s.drop_last();
        assert forall|i: int| 0 <= i < t.len() implies p(#[trigger] t[i]) by {
            assert(t[i] == s[i]);
        }
        lemma_filter_all(t, p);
        assert(p(s[s.len() - 1]));
        assert(t.push(s.last()) =~= s);
    } else {
        assert(s.filter(p) =~= s);
    }
}

/// Dropping flows with their entries keeps the books in order.
proof fn lemma_flows_dropped(db: Database, drop: spec_fn(FlowView) -> bool)
    requires
        crate::ledger_laws::books(db),
    ensures
        crate::ledger_laws::books(crate::ledger::flows_dropped(db, drop)),
        forall|i: int|
            0 <= i < crate::ledger::flows_dropped(db, drop).ledger.len() ==> exists|j: int|
                0 <= j < db.flows.len() && !drop(#[trigger] db.flows[j]) && db.flows[j].flow_id == (
                #[trigger] crate::ledger::flows_dropped(db, drop).ledger[i]).flow_id
                    && db.flows[j].client_mac == crate::ledger::flows_dropped(
                    db,
                    drop,
                ).ledger[i].mac,
{
    let after = crate::ledger::flows_dropped(db, drop);
    let keep = |f: FlowView| !drop(f);
    let flows = db.flows.filter(keep);
    let q = |r: LedgerRow| crate::ledger::knows_flow(flows, r.flow_id);
    let p = |r: DomainMinuteRow| true;
    assert(after.flows =~= flows);
    assert(after.ledger =~= db.ledger.filter(q));
    lemma_filter_all(db.domain_minutes, p);
    lemma_balanced_filtered(db.domain_minutes, db.ledger, p, q);
    assert forall|x: int, y: int| 0 <= x < y < flows.len() implies (#[trigger] flows[x]).flow_id
        != (#[trigger] flows[y]).flow_id by {
        let (i, j) = crate::ledger_laws::lemma_filter_origins(db.flows, keep, x, y);
        assert(db.flows[i].flow_id != db.flows[j].flow_id);
    }
    assert forall|k: int| 0 <= k < after.ledger.len() implies crate::ledger_laws::owned(
        flows,
        #[trigger] after.ledger[k],
    ) && exists|j: int|
        0 <= j < db.flows.len() && !drop(#[trigger] db.flows[j]) && db.flows[j].flow_id
            == after.ledger[k].flow_id && db.flows[j].client_mac == after.ledger[k].mac by {
        let r = after.ledger[k];
        let i = crate::ledger_laws::lemma_filter_origin(db.ledger, q, k);
        assert(crate::ledger_laws::owned(db.flows, db.ledger[i]));
        let j = choose|j: int|
            0 <= j < db.flows.len() && (#[trigger] db.flows[j]).flow_id == r.flow_id
                && db.flows[j].client_mac == r.mac && crate::ledger_laws::same_domain(
                db.flows[j].domain,
                r.domain,
            );
        let x = choose|x: int| 0 <= x < flows.len() && (#[trigger] flows[x]).flow_id == r.flow_id;
        let o = crate::ledger_laws::lemma_filter_origin(db.flows, keep, x);
        if o < j {
            assert(db.flows[o].flow_id != db.flows[j].flow_id);
        } else if j < o {
            assert(db.flows[j].flow_id != db.flows[o].flow_id);
        }
        assert(flows[x] == db.flows[j]);
        assert(!drop(db.flows[j]));
    }
    assert forall|k: int| 0 <= k < flows.len() implies crate::ledger_laws::flow_sound(
        after.ledger,
        #[trigger] flows[k],
    ) by {
        let i = crate::ledger_laws::lemma_filter_origin(db.flows, keep, k);
        assert(crate::ledger_laws::flow_sound(db.ledger, db.flows[i]));
        lemma_contributed_filtered(db.ledger, q, flows[k].flow_id, true);
        lemma_contributed_filtered(db.ledger, q, flows[k].flow_id, false);
    }
    assert forall|k: int| 0 <= k < flows.len() implies crate::ledger::knows_device(
        db.devices,
        (#[trigger] flows[k]).client_mac,
    ) by {
        let i = crate::ledger_laws::lemma_filter_origin(db.flows, keep, k);
        assert(crate::ledger::knows_device(db.devices, db.flows[i].client_mac));
    }
}

/// Removing minutes and entries that agree keeps the books in order.
proof fn lemma_minutes_dropped(
    db: Database,
    p: spec_fn(DomainMinuteRow) -> bool,
    q: spec_fn(LedgerRow) -> bool,
)
    requires
        crate::ledger_laws::books(db),
        filters_agree(db.domain_minutes, db.ledger, p, q),
    ensures
        crate::ledger_laws::books(
            Database {
                domain_minutes: db.domain_minutes.filter(p),
                ledger: db.ledger.filter(q),
                ..db
            },
        ),
{
    lemma_balanced_filtered(db.domain_minutes, db.ledger, p, q);
    let l = db.ledger.filter(q);
    assert forall|k: int| 0 <= k < l.len() implies crate::ledger_laws::owned(
        db.flows,
        #[trigger] l[k],
    ) by {
        let i = crate::ledger_laws::lemma_filter_origin(db.ledger, q, k);
        assert(crate::ledger_laws::owned(db.flows, db.ledger[i]));
    }
    assert forall|k: int| 0 <= k < db.flows.len() implies crate::ledger_laws::flow_sound(
        l,
        #[trigger] db.flows[k],
    ) by {
        assert(crate::ledger_laws::flow_sound(db.ledger, db.flows[k]));
        lemma_contributed_filtered(db.ledger, q, db.flows[k].flow_id, true);
        lemma_contributed_filtered(db.ledger, q, db.flows[k].flow_id, false);
    }
}

/// A list of four changes.
proof fn lemma_applied_four(
    db: Database,
    a: StatementView,
    b: StatementView,
    c: StatementView,
    d: StatementView,
)
    ensures
        crate::ledger::applied_all(db, seq![a, b, c, d]) == match crate::ledger::applied(db, a) {
            None => None,
            Some(x) => match crate::ledger::applied(x, b) {
                None => None,
                Some(y) => match crate::ledger::applied(y, c) {
                    None => None,
                    Some(z) => crate::ledger::applied(z, d),
                },
            },
        },
        crate::ledger::applied_all(db, seq![a, b, c]) == match crate::ledger::applied(db, a) {
            None => None,
            Some(x) => match crate::ledger::applied(x, b) {
                None => None,
                Some(y) => crate::ledger::applied(y, c),
            },
        },
{
    crate::ledger::lemma_applied_one(db, a);
    let two = seq![a, b];
    let three = seq![a, b, c];
    let four = seq![a, b, c, d];
    assert(two.drop_last() =~= seq![a]);
    assert(three.drop_last() =~= two);
    assert(four.drop_last() =~= three);
    assert(two.last() == b && three.last() == c && four.last() == d);
    assert(crate::ledger::applied_all(db, two) == match crate::ledger::applied(db, a) {
        None => None,
        Some(x) => crate::ledger::applied(x, b),
    });
    reveal_with_fuel(crate::ledger::applied_all, 2);
}

/// What is stored after a device was deleted.
pub open spec fn without_device(db: Database, mac: Seq<char>) -> Database {
    let dropped = crate::ledger::flows_dropped(db, |f: FlowView| f.client_mac == mac);
    Database {
        devices: db.devices.filter(|d: DeviceView| d.mac_address != mac),
        device_minutes: db.device_minutes.filter(|r: DeviceMinuteRow| r.mac != mac),
        domain_minutes: db.domain_minutes.filter(|r: DomainMinuteRow| r.mac != mac),
        flows: dropped.flows,
        ledger: dropped.ledger,
    }
}

/// Deleting a device never fails, removes what was observed of it and nothing else, and keeps the
/// books in order.
pub proof fn device_deletion_keeps_the_books(db: Database, mac: Seq<char>)
    requires
        crate::ledger_laws::books(db),
    ensures
        crate::ledger::applied_all(db, crate::storage::device_deleted(mac)) == Some(
            without_device(db, mac),
        ),
        crate::ledger_laws::books(without_device(db, mac)),
        !crate::ledger::knows_device(without_device(db, mac).devices, mac),
        forall|i: int|
            0 <= i < without_device(db, mac).ledger.len() ==> (#[trigger] without_device(
                db,
                mac,
            ).ledger[i]).mac != mac,
{
    let gone = |f: FlowView| f.client_mac == mac;
    let p = |r: DomainMinuteRow| r.mac != mac;
    let q = |r: LedgerRow| true;
    let dropped = crate::ledger::flows_dropped(db, gone);
    let after = without_device(db, mac);
    lemma_flows_dropped(db, gone);
    assert forall|i: int| 0 <= i < dropped.ledger.len() implies (#[trigger] dropped.ledger[i]).mac
        != mac by {
        let j = choose|j: int|
            0 <= j < db.flows.len() && !gone(#[trigger] db.flows[j]) && db.flows[j].flow_id
                == dropped.ledger[i].flow_id && db.flows[j].client_mac == dropped.ledger[i].mac;
        assert(!gone(db.flows[j]));
    }
    lemma_filter_all(dropped.ledger, q);
    lemma_minutes_dropped(dropped, p, q);
    let mid = Database { domain_minutes: db.domain_minutes.filter(p), ..dropped };
    let keep_device = |d: DeviceView| d.mac_address != mac;
    assert forall|k: int| 0 <= k < after.flows.len() implies crate::ledger::knows_device(
        after.devices,
        (#[trigger] after.flows[k]).client_mac,
    ) by {
        let i = crate::ledger_laws::lemma_filter_origin(db.flows, |f: FlowView| !gone(f), k);
        assert(crate::ledger::knows_device(db.devices, db.flows[i].client_mac));
        let x = choose|x: int|
            0 <= x < db.devices.len() && (#[trigger] db.devices[x]).mac_address
                == db.flows[i].client_mac;
        let y = crate::ledger_laws::lemma_filter_keeps(db.devices, keep_device, x);
        assert(after.devices[y].mac_address == after.flows[k].client_mac);
    }
    if crate::ledger::knows_device(after.devices, mac) {
        let x = choose|x: int|
            0 <= x < after.devices.len() && (#[trigger] after.devices[x]).mac_address == mac;
        let y = crate::ledger_laws::lemma_filter_origin(db.devices, keep_device, x);
    }
    lemma_applied_four(
        db,
        StatementView::DeleteDeviceMinutesOf { mac_address: mac },
        StatementView::DeleteDomainMinutesOf { mac_address: mac },
        StatementView::DeleteFlowsOf { mac_address: mac },
        StatementView::DeleteDevice { mac_address: mac },
    );
    assert forall|i: int| 0 <= i < after.flows.len() implies (#[trigger] after.flows[i]).client_mac
        != mac by {
        let x = crate::ledger_laws::lemma_filter_origin(db.flows, |f: FlowView| !gone(f), i);
    }
}

/// After a device was deleted nothing of it is left, and everything of other devices is as it was.
pub proof fn device_deletion_is_exact(db: Database, mac: Seq<char>)
    ensures
        forall|d: DeviceView| #[trigger]
            without_device(db, mac).devices.contains(d) <==> (db.devices.contains(d)
                && d.mac_address != mac),
        forall|f: FlowView| #[trigger]
            without_device(db, mac).flows.contains(f) <==> (db.flows.contains(f) && f.client_mac
                != mac),
        forall|r: DeviceMinuteRow| #[trigger]
            without_device(db, mac).device_minutes.contains(r) <==> (db.device_minutes.contains(r)
                && r.mac != mac),
        forall|r: DomainMinuteRow| #[trigger]
            without_device(db, mac).domain_minutes.contains(r) <==> (db.domain_minutes.contains(r)
                && r.mac != mac),
{
    let gone = |f: FlowView| f.client_mac == mac;
    lemma_filter_contains(db.devices, |d: DeviceView| d.mac_address != mac);
    lemma_filter_contains(db.flows, |f: FlowView| !gone(f));
    lemma_filter_contains(db.device_minutes, |r: DeviceMinuteRow| r.mac != mac);
    lemma_filter_contains(db.domain_minutes, |r: DomainMinuteRow| r.mac != mac);
}

/// What is stored after a domain was deleted.
pub open spec fn without_domain(
    db: Database,
    mac: Option<Seq<char>>,
    domain: Seq<char>,
) -> Database {
    Database {
        ledger: db.ledger.filter(
            |r: LedgerRow| !crate::ledger::concerns(mac, domain, r.mac, r.domain),
        ),
        domain_minutes: db.domain_minutes.filter(
            |r: DomainMinuteRow| !((mac is None || mac->0 == r.mac) && r.domain == domain),
        ),
        flows: db.flows.map_values(
            |f: FlowView|
                if crate::ledger::concerns(mac, domain, f.client_mac, f.domain) {
                    FlowView { domain: None, ..f }
                } else {
                    f
                },
        ),
        ..db
    }
}

/// Deleting a domain never fails and keeps the books in order. Devices and their traffic stay, and
/// so do the flows, with nothing changed but their attribution.
pub proof fn domain_deletion_keeps_the_books(
    db: Database,
    mac: Option<Seq<char>>,
    domain: Seq<char>,
)
    requires
        crate::ledger_laws::books(db),
    ensures
        crate::ledger::applied_all(db, crate::storage::domain_deleted(mac, domain)) == Some(
            without_domain(db, mac, domain),
        ),
        crate::ledger_laws::books(without_domain(db, mac, domain)),
        without_domain(db, mac, domain).devices == db.devices,
        without_domain(db, mac, domain).device_minutes == db.device_minutes,
        without_domain(db, mac, domain).flows.len() == db.flows.len(),
        forall|i: int|
            0 <= i < db.flows.len() ==> {
                let f = #[trigger] without_domain(db, mac, domain).flows[i];
                &&& f == FlowView { domain: f.domain, ..db.flows[i] }
                &&& !crate::ledger::concerns(mac, domain, f.client_mac, f.domain)
                &&& !crate::ledger::concerns(
                    mac,
                    domain,
                    db.flows[i].client_mac,
                    db.flows[i].domain,
                ) ==> f == db.flows[i]
            },
{
    let after = without_domain(db, mac, domain);
    let p = |r: DomainMinuteRow| !((mac is None || mac->0 == r.mac) && r.domain == domain);
    let q = |r: LedgerRow| !crate::ledger::concerns(mac, domain, r.mac, r.domain);
    lemma_applied_four(
        db,
        StatementView::DeleteContributionsTo { mac_address: mac, domain },
        StatementView::DeleteDomainMinutesFor { mac_address: mac, domain },
        StatementView::RedactFlows { mac_address: mac, domain },
        StatementView::RedactFlows { mac_address: mac, domain },
    );
    lemma_minutes_dropped(db, p, q);
    let mid = Database {
        domain_minutes: db.domain_minutes.filter(p),
        ledger: db.ledger.filter(q),
        ..db
    };
    assert(after.ledger =~= mid.ledger);
    assert(after.domain_minutes =~= mid.domain_minutes);
    assert forall|x: int, y: int| 0 <= x < y < after.flows.len() implies (
    #[trigger] after.flows[x]).flow_id != (#[trigger] after.flows[y]).flow_id by {
        assert(db.flows[x].flow_id != db.flows[y].flow_id);
    }
    assert forall|k: int| 0 <= k < after.ledger.len() implies crate::ledger_laws::owned(
        after.flows,
        #[trigger] after.ledger[k],
    ) by {
        let i = crate::ledger_laws::lemma_filter_origin(db.ledger, q, k);
        let r = db.ledger[i];
        assert(crate::ledger_laws::owned(db.flows, r));
        let j = choose|j: int|
            0 <= j < db.flows.len() && (#[trigger] db.flows[j]).flow_id == r.flow_id
                && db.flows[j].client_mac == r.mac && crate::ledger_laws::same_domain(
                db.flows[j].domain,
                r.domain,
            );
        assert(after.flows[j] == db.flows[j]);
    }
    assert forall|k: int| 0 <= k < after.flows.len() implies crate::ledger_laws::flow_sound(
        after.ledger,
        #[trigger] after.flows[k],
    ) by {
        assert(crate::ledger_laws::flow_sound(mid.ledger, mid.flows[k]));
    }
    assert forall|k: int| 0 <= k < after.flows.len() implies crate::ledger::knows_device(
        after.devices,
        (#[trigger] after.flows[k]).client_mac,
    ) by {
        assert(crate::ledger::knows_device(db.devices, db.flows[k].client_mac));
    }
}

/// After a domain was deleted, no flow and no minute in the scope of the deletion is attributed to
/// it, and nothing else has changed: flows lost nothing but this attribution, and other domains,
/// other devices, and the traffic of devices are as they were.
pub proof fn domain_deletion_is_exact(db: Database, mac: Option<Seq<char>>, domain: Seq<char>)
    ensures
        without_domain(db, mac, domain).devices == db.devices,
        without_domain(db, mac, domain).device_minutes == db.device_minutes,
        forall|r: DomainMinuteRow| #[trigger]
            without_domain(db, mac, domain).domain_minutes.contains(r) <==> (
            db.domain_minutes.contains(r) && !((mac is None || mac->0 == r.mac) && r.domain
                == domain)),
        without_domain(db, mac, domain).flows.len() == db.flows.len(),
        forall|i: int|
            0 <= i < db.flows.len() ==> (#[trigger] without_domain(db, mac, domain).flows[i])
                == if crate::ledger::concerns(
                mac,
                domain,
                db.flows[i].client_mac,
                db.flows[i].domain,
            ) {
                FlowView { domain: None, ..db.flows[i] }
            } else {
                db.flows[i]
            },
{
    lemma_filter_contains(
        db.domain_minutes,
        |r: DomainMinuteRow| !((mac is None || mac->0 == r.mac) && r.domain == domain),
    );
}

/// Deleting a domain a second time changes nothing.
pub proof fn domain_deletion_is_idempotent(db: Database, mac: Option<Seq<char>>, domain: Seq<char>)
    ensures
        without_domain(without_domain(db, mac, domain), mac, domain) == without_domain(
            db,
            mac,
            domain,
        ),
{
    let p = |r: DomainMinuteRow| !((mac is None || mac->0 == r.mac) && r.domain == domain);
    let q = |r: LedgerRow| !crate::ledger::concerns(mac, domain, r.mac, r.domain);
    let once = without_domain(db, mac, domain);
    let twice = without_domain(once, mac, domain);
    crate::dns_laws::lemma_filter_twice(db.domain_minutes, p, p);
    crate::dns_laws::lemma_filter_twice(db.ledger, q, q);
    assert(twice.ledger =~= once.ledger);
    assert(twice.domain_minutes =~= once.domain_minutes);
    assert(twice.flows =~= once.flows);
}

/// What is stored after a range of time was deleted.
pub open spec fn without_range(db: Database, from_ms: i64, to_ms: i64) -> Database {
    crate::ledger::flows_dropped(
        Database {
            device_minutes: db.device_minutes.filter(
                |r: DeviceMinuteRow| !(from_ms <= r.minute_ms < to_ms),
            ),
            domain_minutes: db.domain_minutes.filter(
                |r: DomainMinuteRow| !(from_ms <= r.minute_ms < to_ms),
            ),
            ledger: db.ledger.filter(|r: LedgerRow| !(from_ms <= r.minute_ms < to_ms)),
            ..db
        },
        |f: FlowView| crate::ledger::overlaps(f, from_ms, to_ms),
    )
}

/// Deleting a range of time never fails, keeps the books in order and keeps the devices.
pub proof fn range_deletion_keeps_the_books(db: Database, from_ms: i64, to_ms: i64)
    requires
        crate::ledger_laws::books(db),
    ensures
        crate::ledger::applied_all(db, crate::storage::range_deleted(from_ms, to_ms)) == Some(
            without_range(db, from_ms, to_ms),
        ),
        crate::ledger_laws::books(without_range(db, from_ms, to_ms)),
        without_range(db, from_ms, to_ms).devices == db.devices,
{
    let p = |r: DomainMinuteRow| !(from_ms <= r.minute_ms < to_ms);
    let q = |r: LedgerRow| !(from_ms <= r.minute_ms < to_ms);
    lemma_minutes_dropped(db, p, q);
    let mid = Database {
        device_minutes: db.device_minutes.filter(
            |r: DeviceMinuteRow| !(from_ms <= r.minute_ms < to_ms),
        ),
        domain_minutes: db.domain_minutes.filter(p),
        ledger: db.ledger.filter(q),
        ..db
    };
    assert(crate::ledger_laws::books(mid));
    let gone = |f: FlowView| crate::ledger::overlaps(f, from_ms, to_ms);
    lemma_flows_dropped(mid, gone);
    lemma_applied_four(
        db,
        StatementView::DeleteDeviceMinutesIn { from_ms, to_ms },
        StatementView::DeleteDomainMinutesIn { from_ms, to_ms },
        StatementView::DeleteContributionsIn { from_ms, to_ms },
        StatementView::DeleteFlowsIn { from_ms, to_ms },
    );
}

/// After a range was deleted no minute in it is left and no flow overlaps it; whatever lies outside
/// is still there. The start belongs to the range, the end does not.
pub proof fn range_deletion_is_exact(db: Database, from_ms: i64, to_ms: i64)
    ensures
        forall|r: DeviceMinuteRow| #[trigger]
            without_range(db, from_ms, to_ms).device_minutes.contains(r) <==> (
            db.device_minutes.contains(r) && !(from_ms <= r.minute_ms < to_ms)),
        forall|r: DomainMinuteRow| #[trigger]
            without_range(db, from_ms, to_ms).domain_minutes.contains(r) <==> (
            db.domain_minutes.contains(r) && !(from_ms <= r.minute_ms < to_ms)),
        forall|f: FlowView| #[trigger]
            without_range(db, from_ms, to_ms).flows.contains(f) <==> (db.flows.contains(f)
                && !crate::ledger::overlaps(f, from_ms, to_ms)),
{
    let after = without_range(db, from_ms, to_ms);
    lemma_filter_contains(
        db.device_minutes,
        |r: DeviceMinuteRow| !(from_ms <= r.minute_ms < to_ms),
    );
    lemma_filter_contains(
        db.domain_minutes,
        |r: DomainMinuteRow| !(from_ms <= r.minute_ms < to_ms),
    );
    let gone = |f: FlowView| crate::ledger::overlaps(f, from_ms, to_ms);
    lemma_filter_contains(db.flows, |f: FlowView| !gone(f));
}

pub proof fn lemma_filter_contains<A>(s: Seq<A>, p: spec_fn(A) -> bool)
    ensures
        forall|x: A| #[trigger] s.filter(p).contains(x) <==> (s.contains(x) && p(x)),
{
    assert forall|x: A| #[trigger] s.filter(p).contains(x) <==> (s.contains(x) && p(x)) by {
        if s.filter(p).contains(x) {
            let i = choose|i: int| 0 <= i < s.filter(p).len() && s.filter(p)[i] == x;
            let j = crate::ledger_laws::lemma_filter_origin(s, p, i);
            assert(s[j] == x);
        }
        if s.contains(x) && p(x) {
            let i = choose|i: int| 0 <= i < s.len() && s[i] == x;
            let j = crate::ledger_laws::lemma_filter_keeps(s, p, i);
            assert(s.filter(p)[j] == x);
        }
    }
}

/// Deleting a range of time a second time changes nothing.
pub proof fn range_deletion_is_idempotent(db: Database, from_ms: i64, to_ms: i64)
    requires
        crate::ledger_laws::books(db),
    ensures
        without_range(without_range(db, from_ms, to_ms), from_ms, to_ms) == without_range(
            db,
            from_ms,
            to_ms,
        ),
{
    let once = without_range(db, from_ms, to_ms);
    let twice = without_range(once, from_ms, to_ms);
    range_deletion_keeps_the_books(db, from_ms, to_ms);
    let d = |r: DeviceMinuteRow| !(from_ms <= r.minute_ms < to_ms);
    let p = |r: DomainMinuteRow| !(from_ms <= r.minute_ms < to_ms);
    let q = |r: LedgerRow| !(from_ms <= r.minute_ms < to_ms);
    let gone = |f: FlowView| crate::ledger::overlaps(f, from_ms, to_ms);
    let keep = |f: FlowView| !gone(f);
    crate::dns_laws::lemma_filter_twice(db.device_minutes, d, d);
    crate::dns_laws::lemma_filter_twice(db.domain_minutes, p, p);
    assert(twice.device_minutes =~= once.device_minutes);
    assert(twice.domain_minutes =~= once.domain_minutes);
    assert(once.flows =~= db.flows.filter(keep));
    crate::dns_laws::lemma_filter_twice(db.flows, keep, keep);
    assert(twice.flows =~= once.flows);
    let known = |r: LedgerRow| crate::ledger::knows_flow(once.flows, r.flow_id);
    assert(once.ledger =~= db.ledger.filter(q).filter(known));
    assert forall|i: int| 0 <= i < once.ledger.len() implies q(#[trigger] once.ledger[i])
        && known(once.ledger[i]) by {
        let x = crate::ledger_laws::lemma_filter_origin(db.ledger.filter(q), known, i);
        let y = crate::ledger_laws::lemma_filter_origin(db.ledger, q, x);
    }
    lemma_filter_all(once.ledger, q);
    lemma_filter_all(once.ledger, known);
    assert(twice.ledger =~= once.ledger);
}

/// What is stored after what is no longer kept was deleted.
pub open spec fn without_expired(
    db: Database,
    flow_cutoff: i64,
    aggregate_cutoff: i64,
) -> Database {
    let dropped = crate::ledger::flows_dropped(db, |f: FlowView| f.last_seen < flow_cutoff);
    Database {
        device_minutes: db.device_minutes.filter(
            |r: DeviceMinuteRow| !(r.minute_ms < aggregate_cutoff),
        ),
        domain_minutes: db.domain_minutes.filter(
            |r: DomainMinuteRow| !(r.minute_ms < aggregate_cutoff),
        ),
        ledger: dropped.ledger.filter(|r: LedgerRow| !(r.minute_ms < aggregate_cutoff)),
        ..dropped
    }
}

/// Deleting what is no longer kept never fails and keeps the books in order.
pub proof fn expiry_keeps_the_books(db: Database, flow_cutoff: i64, aggregate_cutoff: i64)
    requires
        crate::ledger_laws::books(db),
    ensures
        crate::ledger::applied_all(
            db,
            crate::storage::expired_deleted(flow_cutoff, aggregate_cutoff),
        ) == Some(without_expired(db, flow_cutoff, aggregate_cutoff)),
        crate::ledger_laws::books(without_expired(db, flow_cutoff, aggregate_cutoff)),
        without_expired(db, flow_cutoff, aggregate_cutoff).devices == db.devices,
        forall|f: FlowView| #[trigger]
            without_expired(db, flow_cutoff, aggregate_cutoff).flows.contains(f) <==> (
            db.flows.contains(f) && f.last_seen >= flow_cutoff),
{
    let gone = |f: FlowView| f.last_seen < flow_cutoff;
    let dropped = crate::ledger::flows_dropped(db, gone);
    lemma_flows_dropped(db, gone);
    let p = |r: DomainMinuteRow| !(r.minute_ms < aggregate_cutoff);
    let q = |r: LedgerRow| !(r.minute_ms < aggregate_cutoff);
    lemma_minutes_dropped(dropped, p, q);
    lemma_applied_four(
        db,
        StatementView::DeleteFlowsBefore { cutoff_ms: flow_cutoff },
        StatementView::DeleteDeviceMinutesBefore { cutoff_ms: aggregate_cutoff },
        StatementView::DeleteContributionsBefore { cutoff_ms: aggregate_cutoff },
        StatementView::DeleteDomainMinutesBefore { cutoff_ms: aggregate_cutoff },
    );
    lemma_filter_contains(db.flows, |f: FlowView| !gone(f));
}

/// Deleting what is no longer kept removes exactly the flows and minutes that are too old.
pub proof fn expiry_is_exact(db: Database, flow_cutoff: i64, aggregate_cutoff: i64)
    ensures
        forall|f: FlowView| #[trigger]
            without_expired(db, flow_cutoff, aggregate_cutoff).flows.contains(f) <==> (
            db.flows.contains(f) && f.last_seen >= flow_cutoff),
        forall|r: DeviceMinuteRow| #[trigger]
            without_expired(db, flow_cutoff, aggregate_cutoff).device_minutes.contains(r) <==> (
            db.device_minutes.contains(r) && r.minute_ms >= aggregate_cutoff),
        forall|r: DomainMinuteRow| #[trigger]
            without_expired(db, flow_cutoff, aggregate_cutoff).domain_minutes.contains(r) <==> (
            db.domain_minutes.contains(r) && r.minute_ms >= aggregate_cutoff),
{
    let gone = |f: FlowView| f.last_seen < flow_cutoff;
    lemma_filter_contains(db.flows, |f: FlowView| !gone(f));
    lemma_filter_contains(
        db.device_minutes,
        |r: DeviceMinuteRow| !(r.minute_ms < aggregate_cutoff),
    );
    lemma_filter_contains(
        db.domain_minutes,
        |r: DomainMinuteRow| !(r.minute_ms < aggregate_cutoff),
    );
}

/// Deleting what is no longer kept can be repeated: a second time, with the same limits or earlier
/// ones, it removes nothing.
pub proof fn expiry_is_idempotent(
    db: Database,
    flow_cutoff: i64,
    aggregate_cutoff: i64,
    flow_again: i64,
    aggregate_again: i64,
)
    requires
        flow_again <= flow_cutoff,
        aggregate_again <= aggregate_cutoff,
    ensures
        without_expired(
            without_expired(db, flow_cutoff, aggregate_cutoff),
            flow_again,
            aggregate_again,
        ) == without_expired(db, flow_cutoff, aggregate_cutoff),
{
    let once = without_expired(db, flow_cutoff, aggregate_cutoff);
    let twice = without_expired(once, flow_again, aggregate_again);
    let gone = |f: FlowView| f.last_seen < flow_cutoff;
    let keep = |f: FlowView| !gone(f);
    let gone2 = |f: FlowView| f.last_seen < flow_again;
    let keep2 = |f: FlowView| !gone2(f);
    let d = |r: DeviceMinuteRow| !(r.minute_ms < aggregate_cutoff);
    let d2 = |r: DeviceMinuteRow| !(r.minute_ms < aggregate_again);
    let p = |r: DomainMinuteRow| !(r.minute_ms < aggregate_cutoff);
    let p2 = |r: DomainMinuteRow| !(r.minute_ms < aggregate_again);
    let q = |r: LedgerRow| !(r.minute_ms < aggregate_cutoff);
    let q2 = |r: LedgerRow| !(r.minute_ms < aggregate_again);
    assert(once.flows =~= db.flows.filter(keep));
    assert forall|i: int| 0 <= i < once.flows.len() implies keep2(#[trigger] once.flows[i]) by {
        let x = crate::ledger_laws::lemma_filter_origin(db.flows, keep, i);
    }
    lemma_filter_all(once.flows, keep2);
    assert(twice.flows =~= once.flows);
    assert forall|i: int| 0 <= i < once.device_minutes.len() implies d2(
        #[trigger] once.device_minutes[i],
    ) by {
        let x = crate::ledger_laws::lemma_filter_origin(db.device_minutes, d, i);
    }
    lemma_filter_all(once.device_minutes, d2);
    assert forall|i: int| 0 <= i < once.domain_minutes.len() implies p2(
        #[trigger] once.domain_minutes[i],
    ) by {
        let x = crate::ledger_laws::lemma_filter_origin(db.domain_minutes, p, i);
    }
    lemma_filter_all(once.domain_minutes, p2);
    let known = |r: LedgerRow| crate::ledger::knows_flow(once.flows, r.flow_id);
    assert(once.ledger =~= db.ledger.filter(known).filter(q));
    assert forall|i: int| 0 <= i < once.ledger.len() implies q2(#[trigger] once.ledger[i])
        && known(once.ledger[i]) by {
        let x = crate::ledger_laws::lemma_filter_origin(db.ledger.filter(known), q, i);
        let y = crate::ledger_laws::lemma_filter_origin(db.ledger, known, x);
    }
    lemma_filter_all(once.ledger, known);
    lemma_filter_all(once.ledger, q2);
    assert(twice.ledger =~= once.ledger);
}

/// What is no longer kept is deleted step by step; where that breaks off after any of the steps,
/// doing all of it again leaves what doing it at once would have left.
pub proof fn interrupted_expiry_can_be_repeated(
    db: Database,
    flow_cutoff: i64,
    aggregate_cutoff: i64,
    k: int,
)
    requires
        0 <= k <= crate::storage::expired_deleted(flow_cutoff, aggregate_cutoff).len(),
    ensures
        ({
            let steps = crate::storage::expired_deleted(flow_cutoff, aggregate_cutoff);
            let part = crate::ledger::applied_all(db, steps.take(k));
            &&& part is Some
            &&& crate::ledger::applied_all(part->0, steps) == Some(
                without_expired(db, flow_cutoff, aggregate_cutoff),
            )
        }),
{
    let steps = crate::storage::expired_deleted(flow_cutoff, aggregate_cutoff);
    let (a, b, c, d) = (steps[0], steps[1], steps[2], steps[3]);
    let whole = without_expired(db, flow_cutoff, aggregate_cutoff);
    let gone = |f: FlowView| f.last_seen < flow_cutoff;
    let keep = |f: FlowView| !gone(f);
    let device = |r: DeviceMinuteRow| !(r.minute_ms < aggregate_cutoff);
    let domain = |r: DomainMinuteRow| !(r.minute_ms < aggregate_cutoff);
    let late = |r: LedgerRow| !(r.minute_ms < aggregate_cutoff);
    let flows = db.flows.filter(keep);
    let known = |r: LedgerRow| crate::ledger::knows_flow(flows, r.flow_id);
    let entries = db.ledger.filter(known);
    // Each filter leaves alone what it has let through.
    assert forall|i: int| 0 <= i < flows.len() implies keep(#[trigger] flows[i]) by {
        let x = crate::ledger_laws::lemma_filter_origin(db.flows, keep, i);
    }
    lemma_filter_all(flows, keep);
    assert forall|i: int| 0 <= i < whole.device_minutes.len() implies device(
        #[trigger] whole.device_minutes[i],
    ) by {
        let x = crate::ledger_laws::lemma_filter_origin(db.device_minutes, device, i);
    }
    lemma_filter_all(whole.device_minutes, device);
    assert forall|i: int| 0 <= i < whole.domain_minutes.len() implies domain(
        #[trigger] whole.domain_minutes[i],
    ) by {
        let x = crate::ledger_laws::lemma_filter_origin(db.domain_minutes, domain, i);
    }
    lemma_filter_all(whole.domain_minutes, domain);
    assert forall|i: int| 0 <= i < entries.len() implies known(#[trigger] entries[i]) by {
        let x = crate::ledger_laws::lemma_filter_origin(db.ledger, known, i);
    }
    lemma_filter_all(entries, known);
    assert(whole.ledger =~= entries.filter(late));
    assert forall|i: int| 0 <= i < whole.ledger.len() implies late(#[trigger] whole.ledger[i])
        && known(whole.ledger[i]) by {
        let x = crate::ledger_laws::lemma_filter_origin(entries, late, i);
    }
    lemma_filter_all(whole.ledger, late);
    lemma_filter_all(whole.ledger, known);
    // The states after each step, and what all the steps make of them.
    let db1 = crate::ledger::applied(db, a)->0;
    let db2 = crate::ledger::applied(db1, b)->0;
    let db3 = crate::ledger::applied(db2, c)->0;
    let db4 = crate::ledger::applied(db3, d)->0;
    assert(db1.flows =~= flows && db1.ledger =~= entries);
    lemma_applied_four(db, a, b, c, d);
    crate::ledger::lemma_applied_one(db, a);
    assert(steps =~= seq![a, b, c, d]);
    assert(steps.take(0) =~= Seq::<StatementView>::empty());
    assert(steps.take(1) =~= seq![a]);
    assert(steps.take(2).drop_last() =~= seq![a]);
    assert(steps.take(2).last() == b);
    assert(crate::ledger::applied_all(db, steps.take(2)) == Some(db2));
    assert(steps.take(3) =~= seq![a, b, c]);
    assert(steps.take(4) =~= steps);
    let part = crate::ledger::applied_all(db, steps.take(k))->0;
    assert(k == 0 || k == 1 || k == 2 || k == 3 || k == 4);
    lemma_applied_four(part, a, b, c, d);
    let again = without_expired(part, flow_cutoff, aggregate_cutoff);
    assert(crate::ledger::applied_all(part, steps) == Some(again));
    assert(again.flows =~= whole.flows);
    assert(again.device_minutes =~= whole.device_minutes);
    assert(again.domain_minutes =~= whole.domain_minutes);
    assert(again.ledger =~= whole.ledger);
}

} // verus!
