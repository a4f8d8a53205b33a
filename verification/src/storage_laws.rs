//! What holds of stored flows, device traffic and late attributions.
use vstd::prelude::*;

use crate::domain::{AttributionView, DeviceView, FlowView};
use crate::ledger::{Database, DeviceMinuteRow};
use crate::storage::{ContributionView, StatementView, StoredView};

verus! {

/// The traffic of a device over all minutes.
pub open spec fn device_total(rows: Seq<DeviceMinuteRow>, mac: Seq<char>, up: bool) -> int
    decreases rows.len(),
{
    if rows.len() == 0 {
        0
    } else {
        device_total(rows.drop_last(), mac, up) + if rows.last().mac == mac {
            crate::ledger_laws::part(up, rows.last().upload, rows.last().download)
        } else {
            0
        }
    }
}

/// No two rows are about the same device and minute.
pub open spec fn distinct_device_minutes(rows: Seq<DeviceMinuteRow>) -> bool {
    forall|i: int, j: int|
        0 <= i < j < rows.len() ==> !crate::ledger::is_device_minute(
            #[trigger] rows[j],
            (#[trigger] rows[i]).mac,
            rows[i].minute_ms,
        )
}

proof fn lemma_total_push(rows: Seq<DeviceMinuteRow>, r: DeviceMinuteRow, m: Seq<char>, up: bool)
    ensures
        device_total(rows.push(r), m, up) == device_total(rows, m, up) + if r.mac == m {
            crate::ledger_laws::part(up, r.upload, r.download)
        } else {
            0
        },
{
    assert(rows.push(r).drop_last() =~= rows);
}

proof fn lemma_total_update(
    rows: Seq<DeviceMinuteRow>,
    i: int,
    r: DeviceMinuteRow,
    m: Seq<char>,
    up: bool,
)
    requires
        0 <= i < rows.len(),
        r.mac == rows[i].mac,
    ensures
        device_total(rows.update(i, r), m, up) == device_total(rows, m, up) + if r.mac == m {
            crate::ledger_laws::part(up, r.upload, r.download) - crate::ledger_laws::part(
                up,
                rows[i].upload,
                rows[i].download,
            )
        } else {
            0
        },
    decreases rows.len(),
{
    let s = rows.drop_last();
    if i == rows.len() - 1 {
        assert(rows.update(i, r).drop_last() =~= s);
    } else {
        assert(rows.update(i, r).drop_last() =~= s.update(i, r));
        assert(s[i] == rows[i]);
        lemma_total_update(s, i, r, m, up);
    }
}

proof fn lemma_total_added(
    rows: Seq<DeviceMinuteRow>,
    mac: Seq<char>,
    minute: i64,
    upload: int,
    download: int,
    m: Seq<char>,
    up: bool,
)
    requires
        distinct_device_minutes(rows),
    ensures
        distinct_device_minutes(
            crate::ledger::device_minute_added(rows, mac, minute, upload, download),
        ),
        device_total(
            crate::ledger::device_minute_added(rows, mac, minute, upload, download),
            m,
            up,
        ) == device_total(rows, m, up) + if m == mac {
            crate::ledger_laws::part(up, upload, download)
        } else {
            0
        },
{
    let after = crate::ledger::device_minute_added(rows, mac, minute, upload, download);
    if exists|i: int|
        0 <= i < rows.len() && crate::ledger::is_device_minute(#[trigger] rows[i], mac, minute) {
        let i = choose|i: int|
            0 <= i < rows.len() && crate::ledger::is_device_minute(
                #[trigger] rows[i],
                mac,
                minute,
            );
        let n = DeviceMinuteRow {
            upload: rows[i].upload + upload,
            download: rows[i].download + download,
            ..rows[i]
        };
        assert forall|j: int| 0 <= j < rows.len() implies after[j] == rows.update(i, n)[j] by {
            if j < i {
                assert(!crate::ledger::is_device_minute(rows[i], rows[j].mac, rows[j].minute_ms));
            } else if i < j {
                assert(!crate::ledger::is_device_minute(rows[j], rows[i].mac, rows[i].minute_ms));
            }
        }
        assert(after =~= rows.update(i, n));
        lemma_total_update(rows, i, n, m, up);
        assert forall|x: int, y: int|
            0 <= x < y < after.len() implies !crate::ledger::is_device_minute(
            #[trigger] after[y],
            (#[trigger] after[x]).mac,
            after[x].minute_ms,
        ) by {
            assert(!crate::ledger::is_device_minute(rows[y], rows[x].mac, rows[x].minute_ms));
        }
    } else {
        let r = DeviceMinuteRow { mac, minute_ms: minute, upload, download };
        lemma_total_push(rows, r, m, up);
        assert forall|x: int, y: int|
            0 <= x < y < after.len() implies !crate::ledger::is_device_minute(
            #[trigger] after[y],
            (#[trigger] after[x]).mac,
            after[x].minute_ms,
        ) by {
            assert(after[x] == rows[x]);
            if y == rows.len() {
                assert(!crate::ledger::is_device_minute(rows[x], mac, minute));
            } else {
                assert(after[y] == rows[y]);
            }
        }
    }
}

/// Storing a snapshot adds to the traffic of its device exactly what the counters have grown by,
/// and nothing to any other device.
pub proof fn storing_counts_the_increase(db: Database, f: FlowView, m: Seq<char>, up: bool)
    requires
        crate::ledger_laws::books(db),
        crate::ledger_laws::continues(db, f),
        distinct_device_minutes(db.device_minutes),
        f.upload_bytes <= i64::MAX,
        f.download_bytes <= i64::MAX,
        f.packet_count <= i64::MAX,
    ensures
        ({
            let after = crate::ledger_laws::stored(db, f)->0;
            let grown = crate::storage::increase(
                f,
                crate::ledger_laws::state_of(db, f.flow_id),
            );
            &&& distinct_device_minutes(after.device_minutes)
            &&& device_total(after.device_minutes, m, up) == device_total(
                db.device_minutes,
                m,
                up,
            ) + if m == f.client_mac {
                crate::ledger_laws::part(
                    up,
                    grown.upload_bytes as int,
                    grown.download_bytes as int,
                )
            } else {
                0
            }
        }),
{
    crate::ledger_laws::storing_keeps_the_books(db, f);
    let grown = crate::storage::increase(f, crate::ledger_laws::state_of(db, f.flow_id));
    lemma_total_added(
        db.device_minutes,
        f.client_mac,
        crate::domain::minute_of(f.last_seen as int) as i64,
        grown.upload_bytes as int,
        grown.download_bytes as int,
        m,
        up,
    );
}

/// A flow that was not stored before is stored as it was given.
pub proof fn new_flow_is_stored_as_given(db: Database, f: FlowView)
    requires
        crate::ledger_laws::books(db),
        !crate::ledger::knows_flow(db.flows, f.flow_id),
        f.upload_bytes <= i64::MAX,
        f.download_bytes <= i64::MAX,
        f.packet_count <= i64::MAX,
    ensures
        crate::ledger_laws::stored(db, f)->0.flows == db.flows.push(f),
{
    crate::ledger_laws::storing_keeps_the_books(db, f);
    assert(FlowView {
        domain: crate::storage::decided(f, crate::ledger_laws::state_of(db, f.flow_id)),
        ..f
    } == f);
}

/// A snapshot of a stored flow replaces its last time, counters, attribution and state. Its
/// identity stays, a NAT mapping that is known stays known, and other flows stay as they are.
pub proof fn later_snapshot_updates_the_flow(db: Database, f: FlowView, i: int)
    requires
        crate::ledger_laws::books(db),
        crate::ledger_laws::continues(db, f),
        crate::ledger::knows_flow(db.flows, f.flow_id),
        f.upload_bytes <= i64::MAX,
        f.download_bytes <= i64::MAX,
        f.packet_count <= i64::MAX,
        0 <= i < db.flows.len(),
    ensures
        crate::ledger_laws::stored(db, f)->0.flows.len() == db.flows.len(),
        crate::ledger_laws::stored(db, f)->0.flows[i] == if db.flows[i].flow_id == f.flow_id {
            FlowView {
                last_seen: f.last_seen,
                upload_bytes: f.upload_bytes,
                download_bytes: f.download_bytes,
                packet_count: f.packet_count,
                nat_source_ip: crate::ledger::coalesce(
                    f.nat_source_ip,
                    db.flows[i].nat_source_ip,
                ),
                nat_source_port: crate::ledger::coalesce(
                    f.nat_source_port,
                    db.flows[i].nat_source_port,
                ),
                nat_destination_ip: crate::ledger::coalesce(
                    f.nat_destination_ip,
                    db.flows[i].nat_destination_ip,
                ),
                nat_destination_port: crate::ledger::coalesce(
                    f.nat_destination_port,
                    db.flows[i].nat_destination_port,
                ),
                domain: crate::storage::decided(
                    f,
                    crate::ledger_laws::state_of(db, f.flow_id),
                ),
                connection_state: f.connection_state,
                ..db.flows[i]
            }
        } else {
            db.flows[i]
        },
{
    crate::ledger_laws::storing_keeps_the_books(db, f);
}

/// Storing a flow keeps the name that a user gave its device.
pub proof fn storing_keeps_device_names(db: Database, f: FlowView, i: int)
    requires
        crate::ledger_laws::books(db),
        crate::ledger_laws::continues(db, f),
        f.upload_bytes <= i64::MAX,
        f.download_bytes <= i64::MAX,
        f.packet_count <= i64::MAX,
        0 <= i < db.devices.len(),
    ensures
        crate::ledger_laws::stored(db, f)->0.devices[i].mac_address == db.devices[i].mac_address,
        crate::ledger_laws::stored(db, f)->0.devices[i].display_name == db.devices[i].display_name,
        db.devices[i].mac_address == f.client_mac ==> crate::ledger_laws::stored(
            db,
            f,
        )->0.devices[i].current_ip == Some(f.client_ip),
{
    crate::ledger_laws::storing_keeps_the_books(db, f);
    if db.devices[i].mac_address == f.client_mac {
        assert(crate::ledger::knows_device(db.devices, f.client_mac));
    }
}

/// The changes that apply an attribution to a stored flow with known contributions.
pub open spec fn backfill_changes(
    id: Seq<char>,
    mac: Seq<char>,
    st: StoredView,
    a: AttributionView,
    cs: Seq<ContributionView>,
) -> Seq<StatementView> {
    let decision = crate::storage::effective(st.domain, Some(a));
    if decision == st.domain {
        Seq::<StatementView>::empty()
    } else {
        crate::storage::reattribution(id, mac, st, decision->0, cs).push(
            StatementView::SetFlowDomain { flow_id: id, attribution: decision->0 },
        )
    }
}

/// Applying an attribution to a stored flow of its device never fails, keeps the books in order,
/// leaves device traffic alone, and changes nothing of any flow but the attribution of this one.
pub proof fn backfilling_keeps_the_books(db: Database, i: int, a: AttributionView)
    requires
        crate::ledger_laws::books(db),
        0 <= i < db.flows.len(),
    ensures
        ({
            let f = db.flows[i];
            let st = StoredView {
                counters: crate::storage::counters_of(f),
                last_seen: f.last_seen,
                domain: f.domain,
            };
            let after = crate::ledger::applied_all(
                db,
                backfill_changes(
                    f.flow_id,
                    f.client_mac,
                    st,
                    a,
                    crate::ledger_laws::entries_of(db.ledger, f.flow_id),
                ),
            );
            &&& after is Some
            &&& crate::ledger_laws::books(after->0)
            &&& after->0.device_minutes == db.device_minutes
            &&& after->0.devices == db.devices
            &&& after->0.flows == db.flows.update(
                i,
                FlowView { domain: crate::storage::effective(f.domain, Some(a)), ..f },
            )
            &&& crate::ledger_laws::matched(db.domain_minutes, db.ledger)
                ==> crate::ledger_laws::matched(after->0.domain_minutes, after->0.ledger)
            &&& crate::ledger_laws::all_contributed(db) ==> crate::ledger_laws::all_contributed(
                after->0,
            )
            &&& forall|o: Seq<char>|
                o != f.flow_id ==> #[trigger] crate::ledger_laws::entries_of(after->0.ledger, o)
                    == crate::ledger_laws::entries_of(db.ledger, o)
        }),
{
    let f = db.flows[i];
    let id = f.flow_id;
    let mac = f.client_mac;
    let st = StoredView {
        counters: crate::storage::counters_of(f),
        last_seen: f.last_seen,
        domain: f.domain,
    };
    let cs = crate::ledger_laws::entries_of(db.ledger, id);
    let decision = crate::storage::effective(st.domain, Some(a));
    assert(crate::ledger_laws::flow_sound(db.ledger, f));
    assert(crate::ledger::knows_flow(db.flows, id));
    assert forall|k: int|
        0 <= k < db.flows.len() && (#[trigger] db.flows[k]).flow_id == id implies k == i by {
        if k < i {
            assert(db.flows[k].flow_id != db.flows[i].flow_id);
        } else if i < k {
            assert(db.flows[i].flow_id != db.flows[k].flow_id);
        }
    }
    if decision == st.domain {
        assert(db.flows.update(i, FlowView { domain: decision, ..f }) =~= db.flows);
    } else {
        assert forall|k: int|
            0 <= k < db.ledger.len() && (#[trigger] db.ledger[k]).flow_id == id implies {
            &&& db.ledger[k].mac == mac
            &&& db.ledger[k].upload <= i64::MAX
            &&& db.ledger[k].download <= i64::MAX
        } by {
            assert(crate::ledger_laws::owned(db.flows, db.ledger[k]));
            crate::ledger_laws::lemma_contributed_at_least(db.ledger, k, id, true);
            crate::ledger_laws::lemma_contributed_at_least(db.ledger, k, id, false);
        }
        let d = decision->0;
        let g = FlowView { domain: Some(d), ..f };
        let db1 = crate::ledger_laws::lemma_reattributed(db, id, mac, st, d);
        assert forall|k: int| 0 <= k < db1.ledger.len() implies if (
        #[trigger] db1.ledger[k]).flow_id == id {
            db1.ledger[k].mac == mac && crate::ledger_laws::same_domain(
                Some(d),
                db1.ledger[k].domain,
            )
        } else {
            crate::ledger_laws::owned(db1.flows, db1.ledger[k])
        } by {
            if db1.ledger[k].flow_id != id {
                assert(crate::ledger_laws::owned(db.flows, db.ledger[k]));
            }
        }
        assert forall|k: int|
            0 <= k < db1.flows.len() && (#[trigger] db1.flows[k]).flow_id
                != id implies crate::ledger_laws::flow_sound(db1.ledger, db1.flows[k]) by {
            assert(crate::ledger_laws::flow_sound(db.ledger, db.flows[k]));
            let o = db1.flows[k].flow_id;
            assert(crate::ledger_laws::contributed(db1.ledger, o, true)
                == crate::ledger_laws::contributed(db.ledger, o, true));
            assert(crate::ledger_laws::contributed(db1.ledger, o, false)
                == crate::ledger_laws::contributed(db.ledger, o, false));
        }
        assert(crate::ledger_laws::books_but(
            db1,
            id,
            mac,
            Some(d),
            f.upload_bytes as int,
            f.download_bytes as int,
        ));
        crate::ledger_laws::lemma_flow_noted(
            db1,
            g,
            f.upload_bytes as int,
            f.download_bytes as int,
        );
        let set = StatementView::SetFlowDomain { flow_id: id, attribution: d };
        let flows = db.flows.map_values(
            |x: FlowView|
                if x.flow_id == id {
                    FlowView { domain: Some(d), ..x }
                } else {
                    x
                },
        );
        assert(flows =~= crate::ledger::flow_noted(db1.flows, g));
        assert(flows =~= db.flows.update(i, g));
        let moves = crate::storage::reattribution(id, mac, st, d, cs);
        assert(moves.push(set).drop_last() =~= moves);
        assert(crate::ledger::applied(db1, set) == Some(Database { flows, ..db1 }));
        if crate::ledger_laws::all_contributed(db) {
            assert forall|k: int| 0 <= k < flows.len() implies crate::ledger_laws::contributed(
                db1.ledger,
                (#[trigger] flows[k]).flow_id,
                true,
            ) == flows[k].upload_bytes && crate::ledger_laws::contributed(
                db1.ledger,
                flows[k].flow_id,
                false,
            ) == flows[k].download_bytes by {
                let o = db.flows[k].flow_id;
                if o != id {
                    assert(crate::ledger_laws::contributed(db1.ledger, o, true)
                        == crate::ledger_laws::contributed(db.ledger, o, true));
                    assert(crate::ledger_laws::contributed(db1.ledger, o, false)
                        == crate::ledger_laws::contributed(db.ledger, o, false));
                }
            }
        }
    }
}

/// Noting or naming a device keeps the books in order.
pub proof fn device_changes_keep_the_books(
    db: Database,
    mac: Seq<char>,
    name: Option<Seq<char>>,
    ip: Option<Seq<char>>,
)
    requires
        crate::ledger_laws::books(db),
    ensures
        crate::ledger_laws::books(
            crate::ledger::applied(
                db,
                StatementView::UpsertDevice {
                    mac_address: mac,
                    display_name: name,
                    current_ip: ip,
                },
            )->0,
        ),
        crate::ledger_laws::books(
            crate::ledger::applied(
                db,
                StatementView::RenameDevice { mac_address: mac, display_name: name },
            )->0,
        ),
{
    assert forall|k: int| 0 <= k < db.flows.len() implies crate::ledger::knows_device(
        crate::ledger::device_noted(db.devices, mac, name, ip),
        (#[trigger] db.flows[k]).client_mac,
    ) by {
        crate::ledger_laws::lemma_device_noted(db.devices, mac, name, ip, db.flows[k].client_mac);
    }
    let renamed = crate::ledger::applied(
        db,
        StatementView::RenameDevice { mac_address: mac, display_name: name },
    )->0;
    assert forall|k: int| 0 <= k < db.flows.len() implies crate::ledger::knows_device(
        renamed.devices,
        (#[trigger] db.flows[k]).client_mac,
    ) by {
        assert(crate::ledger::knows_device(db.devices, db.flows[k].client_mac));
        let x = choose|x: int|
            0 <= x < db.devices.len() && (#[trigger] db.devices[x]).mac_address
                == db.flows[k].client_mac;
        assert(renamed.devices[x].mac_address == db.flows[k].client_mac);
    }
}

/// No two devices have the same MAC address.
pub open spec fn distinct_devices(devices: Seq<DeviceView>) -> bool {
    forall|i: int, j: int|
        0 <= i < j < devices.len() ==> (#[trigger] devices[i]).mac_address != (
        #[trigger] devices[j]).mac_address
}

/// A device is one device, whatever address it has: noting it with another address, or storing a
/// flow of it, adds no second one, keeps the name that it has unless another is given, and leaves
/// other devices alone.
pub proof fn devices_are_known_by_their_mac_address(
    devices: Seq<DeviceView>,
    mac: Seq<char>,
    name: Option<Seq<char>>,
    ip: Option<Seq<char>>,
    i: int,
)
    requires
        distinct_devices(devices),
        0 <= i < devices.len(),
    ensures
        ({
            let after = crate::ledger::device_noted(devices, mac, name, ip);
            &&& distinct_devices(after)
            &&& crate::ledger::knows_device(after, mac)
            &&& after.len() == if crate::ledger::knows_device(devices, mac) {
                devices.len()
            } else {
                devices.len() + 1
            }
            &&& after[i] == if devices[i].mac_address == mac {
                DeviceView {
                    mac_address: mac,
                    display_name: crate::ledger::coalesce(name, devices[i].display_name),
                    current_ip: ip,
                }
            } else {
                devices[i]
            }
        }),
{
    let after = crate::ledger::device_noted(devices, mac, name, ip);
    crate::ledger_laws::lemma_device_noted(devices, mac, name, ip, mac);
    assert forall|x: int, y: int| 0 <= x < y < after.len() implies (
    #[trigger] after[x]).mac_address != (#[trigger] after[y]).mac_address by {
        if y < devices.len() {
            assert(devices[x].mac_address != devices[y].mac_address);
        } else {
            assert(after[x] == devices[x]);
        }
    }
    if devices[i].mac_address == mac {
        assert(crate::ledger::knows_device(devices, mac));
    }
}

/// Storing the same snapshot twice is storing it once.
pub proof fn duplicate_snapshot_changes_nothing(db: Database, f: FlowView)
    requires
        crate::ledger_laws::books(db),
        crate::ledger_laws::continues(db, f),
        f.upload_bytes <= i64::MAX,
        f.download_bytes <= i64::MAX,
        f.packet_count <= i64::MAX,
    ensures
        crate::ledger_laws::stored(crate::ledger_laws::stored(db, f)->0, f)
            == crate::ledger_laws::stored(db, f),
{
    let id = f.flow_id;
    let st = crate::ledger_laws::state_of(db, id);
    let a = crate::storage::decided(f, st);
    let g = FlowView { domain: a, ..f };
    crate::ledger_laws::storing_keeps_the_books(db, f);
    let once = crate::ledger_laws::stored(db, f)->0;
    let cs = crate::ledger_laws::entries_of(once.ledger, id);
    let flows = once.flows;
    assert(crate::ledger::knows_flow(flows, id)) by {
        if crate::ledger::knows_flow(db.flows, id) {
            let i = choose|i: int|
                0 <= i < db.flows.len() && (#[trigger] db.flows[i]).flow_id == id;
            assert(flows[i].flow_id == id);
        } else {
            assert(flows[db.flows.len() as int].flow_id == id);
        }
    }
    let at = crate::ledger_laws::flow_index(flows, id);
    assert(0 <= at < flows.len() && flows[at].flow_id == id);
    assert(crate::ledger_laws::state_of(once, id) == Some(crate::storage::state_after(f, st)));
    let again = crate::storage::state_after(f, st);
    let before = match st {
        Some(s) => s.domain,
        None => None,
    };
    crate::storage::effective_attribution_is_stable(before, f.domain);
    assert(crate::storage::decided(f, Some(again)) == a);
    assert(crate::storage::counted(f, crate::storage::increase(f, Some(again)), a)
        =~= Seq::<StatementView>::empty());
    let seen = crate::storage::seen_device(f);
    let noted = crate::storage::stored_flow(f, a);
    let changes = crate::storage::snapshot_changes(f, Some(again), cs);
    assert(changes =~= seq![seen, noted]);
    crate::ledger::lemma_applied_one(once, seen);
    assert(seq![seen, noted].drop_last() =~= seq![seen]);
    crate::ledger_laws::lemma_device_noted(
        db.devices,
        f.client_mac,
        None,
        Some(f.client_ip),
        f.client_mac,
    );
    let devices = once.devices;
    assert(crate::ledger::device_noted(devices, f.client_mac, None, Some(f.client_ip))
        =~= devices);
    assert(crate::ledger::flow_noted(flows, g) =~= flows);
    let mid = Database {
        devices: crate::ledger::device_noted(devices, f.client_mac, None, Some(f.client_ip)),
        ..once
    };
    assert(crate::ledger::applied(once, seen) == Some(mid));
    assert(mid == once);
    assert(crate::ledger::applied(once, noted) == Some(once));
}

} // verus!
