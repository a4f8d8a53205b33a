//! Which attribution of a flow is kept: the surer one, of two that are as sure the one from the
//! better source, and of two that are level the one that was made later.
use vstd::prelude::*;

use crate::domain::{AttributionView, DomainConfidence, DomainSource, FlowView};
use crate::ledger::Database;
use crate::session::Event;
use crate::sql::ErrorView;
use crate::storage::{LoadedView, StatementView, StoredView};

verus! {

/// The first is surer than the second.
pub open spec fn is_surer(a: DomainConfidence, b: DomainConfidence) -> bool {
    (a is High && !(b is High)) || (a is Low && b is Unknown)
}

/// The first is the better source.
pub open spec fn is_better(a: DomainSource, b: DomainSource) -> bool {
    (a is Dns && !(b is Dns)) || (a is Sni && b is Unknown)
}

/// The incoming attribution takes the place of the stored one.
pub open spec fn replaces(stored: AttributionView, incoming: AttributionView) -> bool {
    ||| is_surer(incoming.confidence, stored.confidence)
    ||| incoming.confidence == stored.confidence && is_better(incoming.source, stored.source)
    ||| incoming.confidence == stored.confidence && incoming.source == stored.source
        && incoming.associated_at >= stored.associated_at
}

/// Of two attributions of the same confidence and source the later one is kept, the incoming one
/// where both were made at the same time.
pub proof fn level_attributions_go_by_time(stored: AttributionView, incoming: AttributionView)
    requires
        stored.confidence == incoming.confidence,
        stored.source == incoming.source,
    ensures
        incoming.associated_at >= stored.associated_at ==> crate::storage::effective(
            Some(stored),
            Some(incoming),
        ) == Some(incoming),
        incoming.associated_at < stored.associated_at ==> crate::storage::effective(
            Some(stored),
            Some(incoming),
        ) == Some(stored),
{
}

/// The surer of two attributions is kept, whenever they were made and wherever they come from.
pub proof fn surer_attributions_are_kept(stored: AttributionView, incoming: AttributionView)
    ensures
        is_surer(incoming.confidence, stored.confidence) ==> crate::storage::effective(
            Some(stored),
            Some(incoming),
        ) == Some(incoming),
        is_surer(stored.confidence, incoming.confidence) ==> crate::storage::effective(
            Some(stored),
            Some(incoming),
        ) == Some(stored),
{
}

/// Of two attributions that are as sure the one from the better source is kept, whenever they were
/// made.
pub proof fn better_sources_are_kept(stored: AttributionView, incoming: AttributionView)
    requires
        stored.confidence == incoming.confidence,
    ensures
        is_better(incoming.source, stored.source) ==> crate::storage::effective(
            Some(stored),
            Some(incoming),
        ) == Some(incoming),
        is_better(stored.source, incoming.source) ==> crate::storage::effective(
            Some(stored),
            Some(incoming),
        ) == Some(stored),
{
}

/// Where there is one attribution it is kept; where there is none, there is none.
pub proof fn lone_attributions_are_kept(a: AttributionView)
    ensures
        crate::storage::effective(None, Some(a)) == Some(a),
        crate::storage::effective(Some(a), None) == Some(a),
        crate::storage::effective(None, None) == None::<AttributionView>,
{
}

/// A snapshot of a stored flow leaves the flow attributed to what the snapshot says where that
/// takes the place of what is stored, and to what is stored otherwise.
pub proof fn snapshots_are_attributed_by_rank(db: Database, f: FlowView, i: int)
    requires
        crate::ledger_laws::books(db),
        crate::ledger_laws::continues(db, f),
        crate::tally_laws::storable(f),
        0 <= i < db.flows.len(),
        db.flows[i].flow_id == f.flow_id,
    ensures
        crate::ledger_laws::stored(db, f)->0.flows[i].domain == match (db.flows[i].domain, f.domain) {
            (Some(stored), Some(incoming)) => if replaces(stored, incoming) {
                Some(incoming)
            } else {
                Some(stored)
            },
            (Some(stored), None) => Some(stored),
            (None, incoming) => incoming,
        },
{
    assert(crate::ledger::knows_flow(db.flows, f.flow_id));
    let at = crate::ledger_laws::flow_index(db.flows, f.flow_id);
    assert(0 <= at < db.flows.len() && db.flows[at].flow_id == f.flow_id);
    if i < at {
        assert(db.flows[i].flow_id != db.flows[at].flow_id);
    } else if at < i {
        assert(db.flows[at].flow_id != db.flows[i].flow_id);
    }
    crate::storage_laws::later_snapshot_updates_the_flow(db, f, i);
}

/// The flow that a snapshot is stored as differs from it in nothing but the attribution, which is
/// the one of the snapshot or of what is stored, whichever takes the other's place.
pub proof fn stored_snapshots_are_as_they_came(f: FlowView, stored: Option<StoredView>)
    ensures
        ({
            let kept = crate::storage::stored_flow(f, crate::storage::decided(f, stored));
            &&& kept is UpsertFlow
            &&& kept->flow == (FlowView { domain: kept->flow.domain, ..f })
            &&& kept->flow.domain == match stored {
                None => f.domain,
                Some(s) => match (s.domain, f.domain) {
                    (Some(before), Some(incoming)) => if replaces(before, incoming) {
                        Some(incoming)
                    } else {
                        Some(before)
                    },
                    (Some(before), None) => Some(before),
                    (None, incoming) => incoming,
                },
            }
        }),
{
}

/// A binding that is applied late changes the attribution of a stored flow exactly where it takes
/// the place of what is stored.
pub proof fn bindings_are_applied_by_rank(b: crate::trace::BindingView, f: FlowView)
    ensures
        crate::backfill_laws::bound(b, f).domain == if f.client_mac == b.client_mac
            && f.destination_ip == b.target_ip && f.last_seen >= b.attribution.associated_at && (
        b.attribution.expires_at matches Some(t) ==> f.first_seen < t) && (
        b.attribution.expires_at is None ==> f.first_seen < i64::MAX) && (f.domain is None
            || replaces(f.domain->0, b.attribution)) {
            Some(b.attribution)
        } else {
            f.domain
        },
        crate::backfill_laws::bound(b, f) == (FlowView {
            domain: crate::backfill_laws::bound(b, f).domain,
            ..f
        }),
{
}

/// What is counted of a snapshot is what its counters have grown by since the stored state, and all
/// of them where none is stored: once for its device, once in the ledger of the flow, and, where
/// the flow is attributed, once for the domain; all in the minute in which the flow was last seen.
/// Nothing is counted where no byte was added.
pub proof fn snapshots_are_counted_once_each(f: FlowView, stored: Option<StoredView>)
    requires
        crate::tally_laws::storable(f),
        crate::domain::minute_of(f.last_seen as int) >= i64::MIN,
        stored matches Some(s) ==> s.counters.upload_bytes <= f.upload_bytes
            && s.counters.download_bytes <= f.download_bytes && s.counters.packet_count
            <= f.packet_count,
    ensures
        ({
            let a = crate::storage::decided(f, stored);
            let changes = crate::storage::counted(f, crate::storage::increase(f, stored), a);
            let up: int = f.upload_bytes - match stored {
                Some(s) => s.counters.upload_bytes as int,
                None => 0,
            };
            let down: int = f.download_bytes - match stored {
                Some(s) => s.counters.download_bytes as int,
                None => 0,
            };
            if up == 0 && down == 0 {
                changes.len() == 0
            } else {
                &&& changes.len() == if a is Some {
                    3nat
                } else {
                    2nat
                }
                &&& changes[0] matches StatementView::AddDeviceMinute {
                    mac_address,
                    minute_ms,
                    upload_bytes,
                    download_bytes,
                } && mac_address == f.client_mac && minute_ms <= f.last_seen < minute_ms + 60_000
                    && minute_ms as int % 60_000 == 0 && upload_bytes == up && download_bytes
                    == down
                &&& changes[1] matches StatementView::AddContribution {
                    flow_id,
                    mac_address,
                    minute_ms,
                    upload_bytes,
                    download_bytes,
                    attribution,
                } && flow_id == f.flow_id && mac_address == f.client_mac && minute_ms
                    <= f.last_seen < minute_ms + 60_000 && minute_ms as int % 60_000 == 0
                    && upload_bytes == up && download_bytes == down && attribution == a
                &&& a is Some ==> (changes[2] matches StatementView::AddDomainMinute {
                    mac_address,
                    attribution,
                    minute_ms,
                    upload_bytes,
                    download_bytes,
                } && mac_address == f.client_mac && Some(attribution) == a && minute_ms
                    <= f.last_seen < minute_ms + 60_000 && minute_ms as int % 60_000 == 0
                    && upload_bytes == up && download_bytes == down)
            }
        }),
{
    crate::domain::minute_bucket_holds_its_timestamp(f.last_seen as int);
}

/// A snapshot notes its device with the address that it had, and leaves its name alone.
pub proof fn snapshots_note_their_device(f: FlowView)
    ensures
        crate::storage::seen_device(f) matches StatementView::UpsertDevice {
            mac_address,
            display_name,
            current_ip,
        } && mac_address == f.client_mac && display_name is None && current_ip == Some(f.client_ip),
{
}

/// Counters that have gone back, in any of the three, are refused; all others are not.
pub proof fn counters_may_not_go_back(
    previous: crate::domain::FlowCounters,
    current: crate::domain::FlowCounters,
)
    ensures
        crate::domain::counters_advance(previous, current) <==> !(current.upload_bytes
            < previous.upload_bytes || current.download_bytes < previous.download_bytes
            || current.packet_count < previous.packet_count),
{
}

/// A snapshot is refused where a counter cannot be stored, where what is stored cannot be read, and
/// where a counter has gone back; with a state that can be read and contributions that can be read
/// it is stored otherwise.
pub proof fn snapshots_are_stored_unless_a_counter_forbids_it(
    f: FlowView,
    row: Seq<crate::sql::SqlView>,
    st: StoredView,
    ledger: Seq<Seq<crate::sql::SqlView>>,
)
    requires
        crate::storage::stored_state(row) == Ok::<StoredView, crate::sql::ErrorView>(st),
        crate::storage::ledger_of(ledger) is Ok,
    ensures
        crate::storage::upserted(f, Some(row), ledger) is Ok <==> (f.upload_bytes <= i64::MAX
            && f.download_bytes <= i64::MAX && f.packet_count <= i64::MAX && f.upload_bytes
            >= st.counters.upload_bytes && f.download_bytes >= st.counters.download_bytes
            && f.packet_count >= st.counters.packet_count),
        crate::storage::upserted(f, None, ledger) is Ok <==> (f.upload_bytes <= i64::MAX
            && f.download_bytes <= i64::MAX && f.packet_count <= i64::MAX),
{
}

/// What was contributed to a minute is moved to another domain by taking exactly its bytes from the
/// one and adding them to the other, in the same minute of the same device. Where the domain stays,
/// no byte moves.
pub proof fn moves_take_and_give_the_same_bytes(
    mac: Seq<char>,
    a: AttributionView,
    c: crate::storage::ContributionView,
)
    requires
        c.upload_bytes <= i64::MAX,
        c.download_bytes <= i64::MAX,
    ensures
        ({
            let moves = crate::storage::moved(mac, a, c);
            let gives = |s: StatementView|
                s matches StatementView::AddDomainMinute {
                    mac_address,
                    attribution,
                    minute_ms,
                    upload_bytes,
                    download_bytes,
                } && mac_address == mac && attribution == a && minute_ms == c.minute_ms
                    && upload_bytes == c.upload_bytes && download_bytes == c.download_bytes;
            match c.domain {
                None => moves.len() == 1 && gives(moves[0]),
                Some(before) => if before.domain == a.domain {
                    moves.len() == 1 && (moves[0] matches StatementView::MarkDomainMinute {
                        mac_address,
                        attribution,
                        minute_ms,
                    } && mac_address == mac && attribution == a && minute_ms == c.minute_ms)
                } else {
                    moves.len() == 2 && (moves[0] matches StatementView::SubtractDomainMinute {
                        mac_address,
                        domain,
                        minute_ms,
                        upload_bytes,
                        download_bytes,
                    } && mac_address == mac && domain == before.domain && minute_ms == c.minute_ms
                        && upload_bytes == c.upload_bytes && download_bytes == c.download_bytes)
                        && gives(moves[1])
                },
            }
        }),
{
}

/// Nothing older than it is kept stays: flows are kept for hours, minutes for days, of sixty
/// minutes and of twenty-four hours.
pub proof fn retention_is_in_hours_and_days(now_ms: i64, hours: u32, days: u32)
    ensures
        now_ms - crate::storage::flow_cutoff(now_ms, hours) == hours * (60 * 60 * 1_000),
        now_ms - crate::storage::aggregate_cutoff(now_ms, days) == days * (24 * 60 * 60 * 1_000),
{
}

/// A stored flow gets a late attribution exactly where it has none, or one of which the late one
/// takes the place and is not the same; the last thing that is changed is the flow itself.
pub proof fn late_attributions_go_by_rank(mac: Seq<char>, a: AttributionView, flow: LoadedView)
    ensures
        crate::storage::backfilled(mac, a, flow) matches Ok(Some(changes)) ==> {
            &&& flow.state is Some
            &&& crate::storage::stored_state(flow.state->0) matches Ok(s) && (s.domain is None || (
            replaces(s.domain->0, a) && s.domain->0 != a))
            &&& changes.len() > 0
            &&& changes.last() == (StatementView::SetFlowDomain {
                flow_id: flow.flow_id,
                attribution: a,
            })
        },
        crate::storage::backfilled(mac, a, flow) matches Ok(None) ==> flow.state is None || (
        crate::storage::stored_state(flow.state->0) matches Ok(s) && s.domain is Some && (!replaces(
            s.domain->0,
            a,
        ) || s.domain->0 == a)),
{
}

/// The flow gets the late attribution.
pub open spec fn is_changed(mac: Seq<char>, a: AttributionView, flow: LoadedView) -> bool {
    crate::storage::backfilled(mac, a, flow) matches Ok(Some(_))
}

/// The flows that a late attribution changes are counted, each of them once, and all of them are
/// changed; where one of them cannot be read, none is.
pub proof fn late_attributions_are_counted(
    mac: Seq<char>,
    a: AttributionView,
    flows: Seq<LoadedView>,
)
    ensures
        crate::storage::all_backfilled(mac, a, flows) matches Ok(done) ==> {
            &&& done.1 == flows.filter(|f: LoadedView| is_changed(mac, a, f)).len()
            &&& forall|i: int|
                0 <= i < flows.len() ==> crate::storage::backfilled(
                    mac,
                    a,
                    #[trigger] flows[i],
                ) is Ok
            &&& forall|i: int|
                0 <= i < flows.len() && is_changed(mac, a, #[trigger] flows[i])
                    ==> done.0.contains(
                    StatementView::SetFlowDomain { flow_id: flows[i].flow_id, attribution: a },
                )
        },
        crate::storage::all_backfilled(mac, a, flows) is Err ==> exists|i: int|
            0 <= i < flows.len() && crate::storage::backfilled(
                mac,
                a,
                #[trigger] flows[i],
            ) is Err,
    decreases flows.len(),
{
    reveal(Seq::filter);
    if flows.len() > 0 {
        let t = flows.drop_last();
        let n = flows.len() - 1;
        late_attributions_are_counted(mac, a, t);
        late_attributions_go_by_rank(mac, a, flows.last());
        match crate::storage::all_backfilled(mac, a, t) {
            Err(e) => {
                let i = choose|i: int|
                    0 <= i < t.len() && crate::storage::backfilled(mac, a, #[trigger] t[i]) is Err;
                assert(crate::storage::backfilled(mac, a, flows[i]) is Err);
            },
            Ok(before) => {
                match crate::storage::all_backfilled(mac, a, flows) {
                    Err(e) => {
                        assert(crate::storage::backfilled(mac, a, flows[n]) is Err);
                    },
                    Ok(done) => {
                        assert forall|i: int| 0 <= i < flows.len() implies
                            crate::storage::backfilled(mac, a, #[trigger] flows[i]) is Ok by {
                            if i < n {
                                assert(t[i] == flows[i]);
                            }
                        }
                        assert forall|i: int|
                            0 <= i < flows.len() && is_changed(
                                mac,
                                a,
                                #[trigger] flows[i],
                            ) implies done.0.contains(
                            StatementView::SetFlowDomain {
                                flow_id: flows[i].flow_id,
                                attribution: a,
                            },
                        ) by {
                            let s = StatementView::SetFlowDomain {
                                flow_id: flows[i].flow_id,
                                attribution: a,
                            };
                            if i < n {
                                assert(t[i] == flows[i]);
                                assert(before.0.contains(s));
                                let k = choose|k: int|
                                    0 <= k < before.0.len() && before.0[k] == s;
                                assert(done.0[k] == s);
                            } else {
                                let changes = crate::storage::backfilled(mac, a, flows[n])->Ok_0->0;
                                assert(done.0 == before.0 + changes);
                                assert(done.0[done.0.len() - 1] == s);
                            }
                        }
                    },
                }
            },
        }
    }
}

/// A binding that was applied is reported with the number of the flows that it changed.
pub proof fn applied_bindings_report_the_flows_they_changed(
    before: Seq<Event>,
    after: Seq<Event>,
    b: crate::trace::BindingView,
    updated: nat,
)
    requires
        crate::trace::binding_applied(
            before,
            after,
            b.client_mac,
            b.target_ip,
            b.attribution,
            updated,
        ),
    ensures
        exists|mid: Seq<Event>, flows: Seq<LoadedView>|
            {
                &&& #[trigger] crate::trace::covered_loaded(
                    before,
                    mid,
                    b.client_mac,
                    b.target_ip,
                    b.attribution,
                    flows,
                )
                &&& updated == flows.filter(
                    |f: LoadedView| is_changed(b.client_mac, b.attribution, f),
                ).len()
            },
{
    let (mid, flows, changes, n) = choose|
        mid: Seq<Event>,
        flows: Seq<LoadedView>,
        changes: Seq<StatementView>,
        n: Seq<Seq<usize>>,
    |
        {
            &&& #[trigger] crate::trace::covered_loaded(
                before,
                mid,
                b.client_mac,
                b.target_ip,
                b.attribution,
                flows,
            )
            &&& crate::storage::all_backfilled(b.client_mac, b.attribution, flows) == Ok::<
                (Seq<StatementView>, nat),
                ErrorView,
            >((changes, updated))
            &&& #[trigger] crate::trace::changes_done(mid, after, changes, n)
        };
    late_attributions_are_counted(b.client_mac, b.attribution, flows);
}

/// Bindings report together what each of them reports, and none reports nothing.
pub proof fn bindings_report_what_each_reports(
    before: Seq<Event>,
    after: Seq<Event>,
    bindings: Seq<crate::trace::BindingView>,
    b: crate::trace::BindingView,
    updated: nat,
)
    ensures
        crate::trace::bindings_applied(before, after, Seq::empty(), updated) ==> updated == 0
            && after == before,
        crate::trace::bindings_applied(before, after, bindings.push(b), updated) ==> exists|
            mid: Seq<Event>,
            first: nat,
            last: nat,
        |
            {
                &&& first + last == updated
                &&& #[trigger] crate::trace::bindings_applied(before, mid, bindings, first)
                &&& #[trigger] crate::trace::binding_applied(
                    mid,
                    after,
                    b.client_mac,
                    b.target_ip,
                    b.attribution,
                    last,
                )
            },
{
    if crate::trace::bindings_applied(before, after, bindings.push(b), updated) {
        assert(bindings.push(b).drop_last() =~= bindings);
        let (mid, n) = choose|mid: Seq<Event>, n: nat|
            n <= updated && crate::trace::bindings_applied(
                before,
                mid,
                bindings,
                (updated - n) as nat,
            ) && #[trigger] crate::trace::binding_applied(
                mid,
                after,
                b.client_mac,
                b.target_ip,
                b.attribution,
                n,
            );
        assert(crate::trace::bindings_applied(before, mid, bindings, (updated - n) as nat));
    }
}

} // verus!
