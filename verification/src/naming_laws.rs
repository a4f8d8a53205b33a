//! What naming flows comes to, from a DNS answer that a client was given to the flow that gets its
//! name: who was told what, for how long it holds, and which flows it names.
use vstd::prelude::*;

use crate::addr::Ipv4Address;
use crate::dns::{BindingKey, CacheView, IdentityView, Lifetime, ObservationView, PendingView};
use crate::domain::{AttributionView, DomainConfidence, DomainSource, FlowView};

verus! {

/// The answer is one that can name flows: its name is well formed, it holds for some time, and
/// addresses were answered.
pub open spec fn is_usable(o: ObservationView) -> bool {
    crate::dns::domain_of(o.domain) is Some && o.ttl_secs > 0 && o.target_ips.len() > 0
}

/// The time at which an answer ceases to hold.
pub open spec fn ends_at(o: ObservationView) -> int {
    o.observed_at_ms + 1_000 * o.ttl_secs
}

/// The flow behind the identity shows that the client had the address at a time: it was seen by
/// then, and was seen again then or up to five seconds earlier.
pub open spec fn had_address(id: IdentityView, ip: Ipv4Address, at: i64) -> bool {
    id.client_ip == ip && id.first_seen <= at && at - id.last_seen <= 5_000
}

/// An answer is kept exactly where it is usable. It then holds from the time at which it was given
/// for as long as it says, for the addresses that were answered and no others. It waits for its
/// client for five minutes, or for as long as it holds where that is shorter.
pub proof fn answers_hold_for_their_time_to_live(o: ObservationView)
    ensures
        crate::dns::prepared(o) is Some <==> is_usable(o) && o.observed_at_ms < i64::MAX,
        crate::dns::prepared(o) matches Some(p) ==> {
            &&& p.client_ip == o.client_ip
            &&& Some(p.domain) == crate::dns::domain_of(o.domain)
            &&& forall|ip: Ipv4Address| #[trigger]
                p.target_ips.contains(ip) <==> o.target_ips.contains(ip)
            &&& p.observed_at_ms == o.observed_at_ms
            &&& ends_at(o) <= i64::MAX ==> p.binding_expires_at == o.observed_at_ms + 1_000
                * o.ttl_secs
            &&& ends_at(o) > i64::MAX ==> p.binding_expires_at == i64::MAX
            &&& p.pending_expires_at - o.observed_at_ms <= 300_000
            &&& p.pending_expires_at <= p.binding_expires_at
            &&& p.pending_expires_at - o.observed_at_ms == 300_000 || p.pending_expires_at
                == p.binding_expires_at
        },
{
    if crate::dns::prepared(o) is Some {
        let p = crate::dns::prepared(o)->0;
        assert forall|ip: Ipv4Address| #[trigger]
            p.target_ips.contains(ip) <==> o.target_ips.contains(ip) by {
            assert(p.target_ips == o.target_ips.to_set());
        }
    }
}

/// A flow is named by a binding of its client for its target that holds at some time between its
/// first and its last packet, where there is exactly one; otherwise it is not named.
pub proof fn flows_are_named_by_the_one_binding_that_meets_them(
    b: Map<BindingKey, Lifetime>,
    f: FlowView,
    k: BindingKey,
)
    requires
        b.dom().contains(k),
        crate::dns::mac_of(f.client_mac) == Some(k.client_mac),
        crate::addr::ipv4_of(f.destination_ip) == Some(k.target_ip),
        b[k].associated_at <= f.last_seen,
        f.first_seen < b[k].expires_at,
        forall|o: BindingKey| #[trigger]
            b.dom().contains(o) && o.client_mac == k.client_mac && o.target_ip == k.target_ip && o
                != k ==> f.last_seen < b[o].associated_at || b[o].expires_at <= f.first_seen,
    ensures
        crate::dns::attribution_of(b, f) == Some(
            AttributionView {
                domain: k.domain,
                source: DomainSource::Dns,
                confidence: DomainConfidence::High,
                associated_at: b[k].associated_at,
                expires_at: Some(b[k].expires_at),
            },
        ),
        crate::dns::attributed(b, f).domain == crate::dns::attribution_of(b, f),
        crate::dns::attributed(b, f) == (FlowView {
            domain: crate::dns::attributed(b, f).domain,
            ..f
        }),
{
    assert(crate::dns::sole_cover(b, f, k));
    let x = choose|x: BindingKey| crate::dns::sole_cover(b, f, x);
    assert(crate::dns::sole_cover(b, f, x));
    assert(x == k);
}

/// A flow keeps what it has where no binding of its client for its target meets it in time.
pub proof fn flows_without_a_binding_are_not_named(b: Map<BindingKey, Lifetime>, f: FlowView)
    requires
        forall|o: BindingKey| #[trigger]
            b.dom().contains(o) && Some(o.client_mac) == crate::dns::mac_of(f.client_mac) && Some(
                o.target_ip,
            ) == crate::addr::ipv4_of(f.destination_ip) ==> f.last_seen < b[o].associated_at
                || b[o].expires_at <= f.first_seen,
    ensures
        crate::dns::attribution_of(b, f) is None,
        crate::dns::attributed(b, f) == f,
{
    assert forall|k: BindingKey| !crate::dns::sole_cover(b, f, k) by {
        if crate::dns::sole_cover(b, f, k) {
            assert(b.dom().contains(k));
        }
    }
}

/// The client that asked is known where at least one flow shows that it had the address, and all
/// the flows that show it for someone show the same client.
pub proof fn askers_are_known_by_their_flows(
    ids: Map<Seq<char>, IdentityView>,
    p: PendingView,
    k: Seq<char>,
)
    requires
        ids.dom().contains(k),
        had_address(ids[k], p.client_ip, p.observed_at_ms),
        forall|x: Seq<char>| #[trigger]
            ids.dom().contains(x) && had_address(ids[x], p.client_ip, p.observed_at_ms)
                ==> ids[x].client_mac == ids[k].client_mac,
    ensures
        crate::dns::client_of(ids, p) == Some(ids[k].client_mac),
{
    let mac = ids[k].client_mac;
    assert(crate::dns::sole_client(ids, p, mac)) by {
        assert(ids.dom().contains(k) && crate::dns::identifies(ids[k], p));
        assert forall|x: Seq<char>| #[trigger]
            ids.dom().contains(x) && crate::dns::identifies(ids[x], p) implies ids[x].client_mac
            == mac by {
            assert(had_address(ids[x], p.client_ip, p.observed_at_ms));
        }
    }
    let m = choose|m: Seq<char>| crate::dns::sole_client(ids, p, m);
    assert(crate::dns::sole_client(ids, p, m));
    assert(m == mac) by {
        assert(ids.dom().contains(k) && crate::dns::identifies(ids[k], p));
    }
}

/// Where no flow shows that anyone had the address, the client that asked is not known.
pub proof fn askers_without_flows_are_not_known(ids: Map<Seq<char>, IdentityView>, p: PendingView)
    requires
        forall|x: Seq<char>| #[trigger]
            ids.dom().contains(x) ==> !had_address(ids[x], p.client_ip, p.observed_at_ms),
    ensures
        crate::dns::client_of(ids, p) is None,
{
    assert forall|m: Seq<char>| !crate::dns::sole_client(ids, p, m) by {
        if crate::dns::sole_client(ids, p, m) {
            let k = choose|k: Seq<char>|
                #[trigger] ids.dom().contains(k) && crate::dns::identifies(ids[k], p)
                    && ids[k].client_mac == m;
            assert(had_address(ids[k], p.client_ip, p.observed_at_ms));
        }
    }
}

/// An answer makes one binding of its client for each answered address, under its name. One that
/// was made by a later answer and still held when this one was given stays as it is. Bindings to
/// the answered addresses that had ended by then are dropped; all others stay.
pub proof fn answers_bind_their_client_to_their_addresses(
    b: Map<BindingKey, Lifetime>,
    mac: Seq<char>,
    p: PendingView,
    k: BindingKey,
)
    ensures
        ({
            let after = crate::dns::bound(b, mac, p);
            let meant = k.client_mac == mac && p.target_ips.contains(k.target_ip);
            &&& meant && k.domain == p.domain ==> after.dom().contains(k) && after[k] == if b.dom().contains(k)
                && b[k].associated_at > p.observed_at_ms && b[k].expires_at > p.observed_at_ms {
                b[k]
            } else {
                Lifetime { associated_at: p.observed_at_ms, expires_at: p.binding_expires_at }
            }
            &&& meant && k.domain != p.domain ==> (after.dom().contains(k) <==> b.dom().contains(k)
                && b[k].expires_at > p.observed_at_ms)
            &&& !meant ==> (after.dom().contains(k) <==> b.dom().contains(k))
            &&& after.dom().contains(k) && !(meant && k.domain == p.domain) ==> after[k] == b[k]
        }),
{
}

proof fn lemma_no_later(
    b: Map<BindingKey, Lifetime>,
    ids: Map<Seq<char>, IdentityView>,
    pending: Seq<PendingView>,
    now: i64,
    k: BindingKey,
    at: i64,
)
    requires
        b.dom().contains(k) ==> b[k].associated_at <= at,
        forall|i: int| 0 <= i < pending.len() ==> (#[trigger] pending[i]).observed_at_ms <= at,
    ensures
        crate::dns::resolved(b, ids, pending, now).bindings.dom().contains(k)
            ==> crate::dns::resolved(b, ids, pending, now).bindings[k].associated_at <= at,
    decreases pending.len(),
{
    if pending.len() > 0 {
        let t = pending.drop_last();
        assert forall|i: int| 0 <= i < t.len() implies (#[trigger] t[i]).observed_at_ms <= at by {
            assert(t[i] == pending[i]);
        }
        lemma_no_later(b, ids, t, now, k, at);
        assert(pending[pending.len() - 1].observed_at_ms <= at);
    }
}

/// The identities that matter at a time: those with a flow seen in the five minutes before it.
pub open spec fn is_recent(id: IdentityView, now: i64) -> bool {
    now - id.last_seen <= 300_000
}

/// Exactly one client had the address at the time, as far as recent flows show.
pub open spec fn one_client_had(
    ids: Map<Seq<char>, IdentityView>,
    ip: Ipv4Address,
    at: i64,
    now: i64,
    mac: Seq<char>,
) -> bool {
    &&& exists|k: Seq<char>|
        #[trigger] ids.dom().contains(k) && is_recent(ids[k], now) && had_address(ids[k], ip, at)
            && ids[k].client_mac == mac
    &&& forall|k: Seq<char>| #[trigger]
        ids.dom().contains(k) && is_recent(ids[k], now) && had_address(ids[k], ip, at)
            ==> ids[k].client_mac == mac
}

/// Nothing that was observed later is known of the client, the address and the name.
pub open spec fn nothing_later(c: CacheView, k: BindingKey, at: i64) -> bool {
    &&& c.bindings.dom().contains(k) ==> c.bindings[k].associated_at <= at
    &&& forall|i: int| 0 <= i < c.pending.len() ==> (#[trigger] c.pending[i]).observed_at_ms <= at
}

/// A client that had the address at which an answer was given is told the name of each answered
/// address until the answer's time to live is over: the binding of the client, the address and the
/// name begins when the answer was given, and ends exactly then.
pub proof fn an_answer_binds_until_its_time_to_live_is_over(
    c: CacheView,
    o: ObservationView,
    now: i64,
    mac: Seq<char>,
    ip: Ipv4Address,
)
    requires
        is_usable(o),
        ends_at(o) <= i64::MAX,
        o.observed_at_ms + 300_000 <= i64::MAX,
        now >= i64::MIN + 300_000,
        now < ends_at(o),
        now < o.observed_at_ms + 300_000,
        o.target_ips.contains(ip),
        one_client_had(c.identities, o.client_ip, o.observed_at_ms, now, mac),
        nothing_later(
            c,
            BindingKey {
                client_mac: mac,
                target_ip: ip,
                domain: crate::dns::domain_of(o.domain)->0,
            },
            o.observed_at_ms,
        ),
    ensures
        ({
            let after = crate::dns::ingested(c, seq![o], now).bindings;
            let k = BindingKey {
                client_mac: mac,
                target_ip: ip,
                domain: crate::dns::domain_of(o.domain)->0,
            };
            &&& after.dom().contains(k)
            &&& after[k].associated_at == o.observed_at_ms
            &&& after[k].expires_at == o.observed_at_ms + 1_000 * o.ttl_secs
        }),
{
    let k = BindingKey {
        client_mac: mac,
        target_ip: ip,
        domain: crate::dns::domain_of(o.domain)->0,
    };
    answers_hold_for_their_time_to_live(o);
    let p = crate::dns::prepared(o)->0;
    let batch = seq![o];
    assert(batch.drop_last() =~= Seq::<ObservationView>::empty());
    assert(batch[0] == o);
    assert(crate::dns::any_prepared(batch));
    let q = crate::dns::purged(c, now);
    let ids = q.identities;
    assert(crate::dns::enqueued_all(q.pending, batch.drop_last()) == q.pending);
    let waiting = crate::dns::enqueued(q.pending, p);
    assert(crate::dns::enqueued_all(q.pending, batch) == waiting);
    assert(waiting.last() == p);
    let earlier = waiting.drop_last();
    assert forall|i: int| 0 <= i < earlier.len() implies (#[trigger] earlier[i]).observed_at_ms
        <= o.observed_at_ms by {
        let keep = |x: PendingView| crate::dns::still_waits(x, now);
        let j = if q.pending.len() >= 4_096 {
            q.pending.len() - 4_095 + i
        } else {
            i
        };
        assert(earlier[i] == q.pending[j]);
        let x = crate::ledger_laws::lemma_filter_origin(c.pending, keep, j);
        assert(c.pending[x].observed_at_ms <= o.observed_at_ms);
    }
    lemma_no_later(q.bindings, ids, earlier, now, k, o.observed_at_ms);
    let w = choose|w: Seq<char>|
        #[trigger] c.identities.dom().contains(w) && is_recent(c.identities[w], now)
            && had_address(c.identities[w], o.client_ip, o.observed_at_ms)
            && c.identities[w].client_mac == mac;
    assert(ids.dom().contains(w) && ids[w] == c.identities[w]);
    assert forall|x: Seq<char>| #[trigger]
        ids.dom().contains(x) && had_address(
            ids[x],
            p.client_ip,
            p.observed_at_ms,
        ) implies ids[x].client_mac == ids[w].client_mac by {
        assert(c.identities.dom().contains(x) && c.identities[x] == ids[x]);
    }
    askers_are_known_by_their_flows(ids, p, w);
    assert(crate::dns::still_waits(p, now));
    let before = crate::dns::resolved(q.bindings, ids, earlier, now).bindings;
    answers_bind_their_client_to_their_addresses(before, mac, p, k);
    assert(p.target_ips.contains(ip));
}

/// A flow of a client that was given an answer, to an address that was answered, is given the name
/// that was asked for where it was seen after the answer and began before the answer's time to live
/// was over, unless another binding meets it too.
pub proof fn flows_get_the_name_that_their_client_asked_for(
    c: CacheView,
    o: ObservationView,
    now: i64,
    ip: Ipv4Address,
    f: FlowView,
)
    requires
        is_usable(o),
        ends_at(o) <= i64::MAX,
        o.observed_at_ms + 300_000 <= i64::MAX,
        now >= i64::MIN + 300_000,
        now < ends_at(o),
        now < o.observed_at_ms + 300_000,
        o.target_ips.contains(ip),
        crate::dns::mac_of(f.client_mac) is Some,
        one_client_had(
            c.identities,
            o.client_ip,
            o.observed_at_ms,
            now,
            crate::dns::mac_of(f.client_mac)->0,
        ),
        nothing_later(
            c,
            BindingKey {
                client_mac: crate::dns::mac_of(f.client_mac)->0,
                target_ip: ip,
                domain: crate::dns::domain_of(o.domain)->0,
            },
            o.observed_at_ms,
        ),
        crate::addr::ipv4_of(f.destination_ip) == Some(ip),
        f.last_seen >= o.observed_at_ms,
        f.first_seen < o.observed_at_ms + 1_000 * o.ttl_secs,
        forall|k: BindingKey| #[trigger]
            crate::dns::ingested(c, seq![o], now).bindings.dom().contains(k) && Some(k.client_mac)
                == crate::dns::mac_of(f.client_mac) && k.target_ip == ip && Some(k.domain)
                != crate::dns::domain_of(o.domain) ==> f.last_seen < crate::dns::ingested(
                c,
                seq![o],
                now,
            ).bindings[k].associated_at || crate::dns::ingested(
                c,
                seq![o],
                now,
            ).bindings[k].expires_at <= f.first_seen,
    ensures
        crate::dns::attributed(crate::dns::ingested(c, seq![o], now).bindings, f).domain == Some(
            AttributionView {
                domain: crate::dns::domain_of(o.domain)->0,
                source: DomainSource::Dns,
                confidence: DomainConfidence::High,
                associated_at: o.observed_at_ms,
                expires_at: Some((o.observed_at_ms + 1_000 * o.ttl_secs) as i64),
            },
        ),
{
    let mac = crate::dns::mac_of(f.client_mac)->0;
    let k = BindingKey {
        client_mac: mac,
        target_ip: ip,
        domain: crate::dns::domain_of(o.domain)->0,
    };
    let b = crate::dns::ingested(c, seq![o], now).bindings;
    an_answer_binds_until_its_time_to_live_is_over(c, o, now, mac, ip);
    assert forall|x: BindingKey| #[trigger]
        b.dom().contains(x) && x.client_mac == k.client_mac && x.target_ip == k.target_ip && x
            != k implies f.last_seen < b[x].associated_at || b[x].expires_at <= f.first_seen by {
        assert(x.domain != k.domain);
    }
    flows_are_named_by_the_one_binding_that_meets_them(b, f, k);
}

/// Taking in one answer that is not usable changes nothing.
pub proof fn unusable_answers_change_nothing(c: CacheView, o: ObservationView, now: i64)
    requires
        !is_usable(o),
        ends_at(o) <= i64::MAX,
        o.observed_at_ms + 300_000 <= i64::MAX,
    ensures
        crate::dns::ingested(c, seq![o], now) == c,
        crate::dns::ingested_count(c, seq![o], now) == 0,
{
    answers_hold_for_their_time_to_live(o);
    let batch = seq![o];
    assert forall|i: int| 0 <= i < batch.len() implies crate::dns::prepared(
        #[trigger] batch[i],
    ) is None by {
        assert(batch[i] == o);
    }
}

/// A flow teaches who had its client address, from its first to its last packet, where both its
/// addresses can be read, its times are in order, and it was seen in the last five minutes. It
/// takes the place of what an earlier snapshot of it taught, and changes nothing else.
pub proof fn flows_teach_who_had_an_address(
    ids: Map<Seq<char>, IdentityView>,
    f: FlowView,
    now: i64,
    k: Seq<char>,
)
    requires
        now >= i64::MIN + 300_000,
    ensures
        ({
            let after = crate::dns::learned(ids, seq![f], now);
            let taught = crate::addr::ipv4_of(f.client_ip) is Some && crate::dns::mac_of(
                f.client_mac,
            ) is Some && f.flow_id.len() > 0 && f.first_seen <= f.last_seen && now - f.last_seen
                <= 300_000;
            &&& after.1 == if taught {
                1nat
            } else {
                0nat
            }
            &&& taught ==> after.0.dom().contains(f.flow_id) && {
                let id = after.0[f.flow_id];
                &&& Some(id.client_ip) == crate::addr::ipv4_of(f.client_ip)
                &&& Some(id.client_mac) == crate::dns::mac_of(f.client_mac)
                &&& id.first_seen == f.first_seen
                &&& id.last_seen == f.last_seen
            }
            &&& !taught || k != f.flow_id ==> after.0.dom().contains(k) == ids.dom().contains(k) && (
            ids.dom().contains(k) ==> after.0[k] == ids[k])
        }),
{
    assert(seq![f].drop_last() =~= Seq::<FlowView>::empty());
    assert(crate::dns::learned(ids, seq![f].drop_last(), now) == (ids, 0nat));
}

/// What a list of flows teaches is what they teach one after the other.
pub proof fn flows_teach_in_order(
    ids: Map<Seq<char>, IdentityView>,
    flows: Seq<FlowView>,
    f: FlowView,
    now: i64,
)
    ensures
        crate::dns::learned(ids, flows.push(f), now).0 == crate::dns::learned(
            crate::dns::learned(ids, flows, now).0,
            seq![f],
            now,
        ).0,
        crate::dns::learned(ids, flows.push(f), now).1 == crate::dns::learned(ids, flows, now).1
            + crate::dns::learned(ids, seq![f], now).1,
{
    assert(flows.push(f).drop_last() =~= flows);
    assert(seq![f].drop_last() =~= Seq::<FlowView>::empty());
    let mid = crate::dns::learned(ids, flows, now).0;
    assert(crate::dns::learned(mid, seq![f].drop_last(), now) == (mid, 0nat));
    assert(crate::dns::learned(ids, seq![f].drop_last(), now) == (ids, 0nat));
}

/// An answer whose client is not known yet waits, and binds the client as soon as a flow shows that
/// it had the address: until the answer's time to live is over, as if the client had been known at
/// once.
pub proof fn waiting_answers_bind_once_their_client_is_known(
    c: CacheView,
    p: PendingView,
    f: FlowView,
    now: i64,
    ip: Ipv4Address,
)
    requires
        now >= i64::MIN + 300_000,
        c.pending.len() > 0,
        c.pending.last() == p,
        p.pending_expires_at > now,
        p.binding_expires_at > now,
        crate::addr::ipv4_of(f.client_ip) == Some(p.client_ip),
        crate::dns::mac_of(f.client_mac) is Some,
        f.flow_id.len() > 0,
        f.first_seen <= f.last_seen,
        f.first_seen <= p.observed_at_ms,
        p.observed_at_ms - f.last_seen <= 5_000,
        now - f.last_seen <= 300_000,
        forall|k: Seq<char>| #[trigger]
            c.identities.dom().contains(k) && k != f.flow_id ==> !had_address(
                c.identities[k],
                p.client_ip,
                p.observed_at_ms,
            ),
        p.target_ips.contains(ip),
        nothing_later(
            c,
            BindingKey {
                client_mac: crate::dns::mac_of(f.client_mac)->0,
                target_ip: ip,
                domain: p.domain,
            },
            p.observed_at_ms,
        ),
    ensures
        ({
            let after = crate::dns::taught(c, seq![f], now).bindings;
            let k = BindingKey {
                client_mac: crate::dns::mac_of(f.client_mac)->0,
                target_ip: ip,
                domain: p.domain,
            };
            &&& after.dom().contains(k)
            &&& after[k].associated_at == p.observed_at_ms
            &&& after[k].expires_at == p.binding_expires_at
        }),
{
    let mac = crate::dns::mac_of(f.client_mac)->0;
    let k = BindingKey { client_mac: mac, target_ip: ip, domain: p.domain };
    let q = crate::dns::purged(c, now);
    let ids = crate::dns::learned(q.identities, seq![f], now).0;
    let keep = |x: PendingView| crate::dns::still_waits(x, now);
    assert(seq![f].drop_last() =~= Seq::<FlowView>::empty());
    assert(crate::dns::learned(q.identities, seq![f].drop_last(), now) == (q.identities, 0nat));
    assert(ids.dom().contains(f.flow_id));
    assert(had_address(ids[f.flow_id], p.client_ip, p.observed_at_ms));
    assert forall|x: Seq<char>| #[trigger]
        ids.dom().contains(x) && had_address(
            ids[x],
            p.client_ip,
            p.observed_at_ms,
        ) implies ids[x].client_mac == ids[f.flow_id].client_mac by {
        if x != f.flow_id {
            assert(c.identities.dom().contains(x) && c.identities[x] == ids[x]);
        }
    }
    askers_are_known_by_their_flows(ids, p, f.flow_id);
    assert(q.pending.last() == p && q.pending.len() > 0) by {
        reveal(Seq::filter);
        assert(keep(c.pending.last()));
        assert(c.pending.filter(keep) == c.pending.drop_last().filter(keep).push(c.pending.last()));
    }
    let earlier = q.pending.drop_last();
    assert forall|i: int| 0 <= i < earlier.len() implies (#[trigger] earlier[i]).observed_at_ms
        <= p.observed_at_ms by {
        let x = crate::ledger_laws::lemma_filter_origin(c.pending, keep, i);
        assert(c.pending[x].observed_at_ms <= p.observed_at_ms);
    }
    lemma_no_later(q.bindings, ids, earlier, now, k, p.observed_at_ms);
    let before = crate::dns::resolved(q.bindings, ids, earlier, now).bindings;
    answers_bind_their_client_to_their_addresses(before, mac, p, k);
}

/// A purge drops exactly the bindings that have ended, the identities without a flow in the last
/// five minutes, and the answers that have waited or held for long enough; what stays is as it was.
pub proof fn purges_drop_what_is_over(c: CacheView, now: i64, k: BindingKey, x: Seq<char>)
    requires
        now >= i64::MIN + 300_000,
    ensures
        ({
            let after = crate::dns::purged(c, now);
            &&& after.bindings.dom().contains(k) <==> c.bindings.dom().contains(k)
                && c.bindings[k].expires_at > now
            &&& after.bindings.dom().contains(k) ==> after.bindings[k] == c.bindings[k]
            &&& after.identities.dom().contains(x) <==> c.identities.dom().contains(x) && now
                - c.identities[x].last_seen <= 300_000
            &&& after.identities.dom().contains(x) ==> after.identities[x] == c.identities[x]
            &&& forall|p: PendingView| #[trigger]
                after.pending.contains(p) <==> c.pending.contains(p) && p.pending_expires_at > now
                    && p.binding_expires_at > now
        }),
{
    crate::deletion_laws::lemma_filter_contains(
        c.pending,
        |p: PendingView| crate::dns::still_waits(p, now),
    );
}

/// Forgetting a device drops its bindings and what was learned of its addresses, and nothing else.
pub proof fn forgotten_devices_leave_others_alone(
    c: CacheView,
    mac: Seq<char>,
    k: BindingKey,
    x: Seq<char>,
)
    ensures
        ({
            let after = crate::dns::without_device(c, mac);
            &&& after.bindings.dom().contains(k) <==> c.bindings.dom().contains(k)
                && crate::dns::mac_of(mac) != Some(k.client_mac)
            &&& after.bindings.dom().contains(k) ==> after.bindings[k] == c.bindings[k]
            &&& after.identities.dom().contains(x) <==> c.identities.dom().contains(x)
                && crate::dns::mac_of(mac) != Some(c.identities[x].client_mac)
            &&& after.identities.dom().contains(x) ==> after.identities[x] == c.identities[x]
            &&& after.pending == c.pending
        }),
{
}

/// Forgetting a domain drops its bindings, of one device or of all, and, where it is forgotten for
/// all, the answers for it that still wait; nothing else.
pub proof fn forgotten_domains_leave_others_alone(
    c: CacheView,
    mac: Option<Seq<char>>,
    domain: Seq<char>,
    k: BindingKey,
)
    ensures
        ({
            let after = crate::dns::without_domain(c, mac, domain);
            &&& after.bindings.dom().contains(k) <==> c.bindings.dom().contains(k) && !(k.domain
                == domain && (mac is None || crate::dns::mac_of(mac->0) == Some(k.client_mac)))
            &&& after.bindings.dom().contains(k) ==> after.bindings[k] == c.bindings[k]
            &&& after.identities == c.identities
            &&& mac is Some ==> after.pending == c.pending
            &&& mac is None ==> forall|p: PendingView| #[trigger]
                after.pending.contains(p) <==> c.pending.contains(p) && p.domain != domain
        }),
{
    crate::deletion_laws::lemma_filter_contains(
        c.pending,
        |p: PendingView| p.domain != domain,
    );
}

/// Forgetting a range of time drops the bindings and the waiting answers that were made in it, its
/// start included and its end not; nothing else.
pub proof fn forgotten_ranges_leave_the_rest_alone(
    c: CacheView,
    from_ms: i64,
    to_ms: i64,
    k: BindingKey,
)
    ensures
        ({
            let after = crate::dns::without_range(c, from_ms, to_ms);
            &&& after.bindings.dom().contains(k) <==> c.bindings.dom().contains(k) && (
            c.bindings[k].associated_at < from_ms || c.bindings[k].associated_at >= to_ms)
            &&& after.bindings.dom().contains(k) ==> after.bindings[k] == c.bindings[k]
            &&& after.identities == c.identities
            &&& forall|p: PendingView| #[trigger]
                after.pending.contains(p) <==> c.pending.contains(p) && (p.observed_at_ms < from_ms
                    || p.observed_at_ms >= to_ms)
        }),
{
    crate::deletion_laws::lemma_filter_contains(
        c.pending,
        |p: PendingView| !(from_ms <= p.observed_at_ms < to_ms),
    );
}

/// While there is room for it, a waiting answer takes no other's place; once four thousand and
/// ninety-six wait, each that comes takes the place of the oldest.
pub proof fn waiting_answers_make_room_only_when_they_must(pending: Seq<PendingView>, p: PendingView)
    requires
        pending.len() <= 4_096,
    ensures
        pending.len() < 4_096 ==> crate::dns::enqueued(pending, p) == pending.push(p),
        pending.len() == 4_096 ==> crate::dns::enqueued(pending, p)
            == pending.drop_first().push(p),
{
    if pending.len() == 4_096 {
        assert(crate::dns::enqueued(pending, p) =~= pending.drop_first().push(p));
    }
}

/// An answer that no later one stands against makes or renews a binding for each of its addresses.
pub proof fn answers_count_their_addresses(
    b: Map<BindingKey, Lifetime>,
    mac: Seq<char>,
    p: PendingView,
)
    requires
        forall|k: BindingKey| #[trigger]
            b.dom().contains(k) ==> b[k].associated_at <= p.observed_at_ms,
    ensures
        crate::dns::bound_count(b, mac, p) == p.target_ips.len(),
{
    let all = p.target_ips.filter(
        |ip: Ipv4Address|
            !crate::dns::newer_known(b, crate::dns::binding_key(mac, ip, p), p),
    );
    assert(all =~= p.target_ips) by {
        assert forall|ip: Ipv4Address| !crate::dns::newer_known(
            b,
            #[trigger] crate::dns::binding_key(mac, ip, p),
            p,
        ) by {
            let k = crate::dns::binding_key(mac, ip, p);
            if b.dom().contains(k) {
                assert(b[k].associated_at <= p.observed_at_ms);
            }
        }
    }
}

} // verus!
