//! What holds of the attribution cache as a whole.
use vstd::prelude::*;

use crate::dns::{BindingKey, CacheView, IdentityView, Lifetime, PendingView, Resolution};
use crate::domain::{DomainConfidence, DomainSource, FlowView};

verus! {

/// An observation of one client leaves the bindings of every other client alone.
pub proof fn bindings_are_isolated_by_client(
    b: Map<BindingKey, Lifetime>,
    mac: Seq<char>,
    p: PendingView,
    k: BindingKey,
)
    requires
        k.client_mac != mac,
    ensures
        crate::dns::bound(b, mac, p).dom().contains(k) == b.dom().contains(k),
        b.dom().contains(k) ==> crate::dns::bound(b, mac, p)[k] == b[k],
{
}

/// The attribution of a flow rests on the bindings of its own client alone.
pub proof fn attribution_rests_on_own_client(
    a: Map<BindingKey, Lifetime>,
    b: Map<BindingKey, Lifetime>,
    f: FlowView,
)
    requires
        forall|k: BindingKey|
            crate::dns::mac_of(f.client_mac) == Some(k.client_mac) ==> (#[trigger] a.dom().contains(
                k,
            ) == b.dom().contains(k)) && (a.dom().contains(k) ==> a[k] == b[k]),
    ensures
        crate::dns::attribution_of(a, f) == crate::dns::attribution_of(b, f),
{
    assert forall|k: BindingKey|
        crate::dns::sole_cover(a, f, k) == crate::dns::sole_cover(b, f, k) by {
        if crate::dns::sole_cover(a, f, k) {
            assert(a.dom().contains(k));
            assert forall|o: BindingKey| #[trigger]
                b.dom().contains(o) && crate::dns::covers(o, b[o], f) implies o == k by {
                assert(a.dom().contains(o));
            }
        }
        if crate::dns::sole_cover(b, f, k) {
            assert(b.dom().contains(k));
            assert(a.dom().contains(k));
            assert forall|o: BindingKey| #[trigger]
                a.dom().contains(o) && crate::dns::covers(o, a[o], f) implies o == k by {
                assert(b.dom().contains(o));
            }
        }
    }
    if exists|k: BindingKey| crate::dns::sole_cover(a, f, k) {
        let x = choose|k: BindingKey| crate::dns::sole_cover(a, f, k);
        let y = choose|k: BindingKey| crate::dns::sole_cover(b, f, k);
        assert(crate::dns::sole_cover(a, f, x));
        assert(crate::dns::sole_cover(b, f, x));
        assert(crate::dns::sole_cover(b, f, y));
        assert(x == y);
    }
}

/// An observation of one client never changes how the flows of another are attributed.
pub proof fn observations_do_not_leak_to_other_clients(
    b: Map<BindingKey, Lifetime>,
    mac: Seq<char>,
    p: PendingView,
    f: FlowView,
)
    requires
        crate::dns::mac_of(f.client_mac) != Some(mac),
    ensures
        crate::dns::attribution_of(crate::dns::bound(b, mac, p), f) == crate::dns::attribution_of(
            b,
            f,
        ),
{
    attribution_rests_on_own_client(crate::dns::bound(b, mac, p), b, f);
}

/// An attribution is that of a binding of the flow's client and target whose lifetime meets the
/// flow; it comes from DNS with high confidence.
pub proof fn attribution_comes_from_a_live_binding(b: Map<BindingKey, Lifetime>, f: FlowView)
    ensures
        match crate::dns::attribution_of(b, f) {
            Some(a) => {
                &&& a.source == DomainSource::Dns
                &&& a.confidence == DomainConfidence::High
                &&& a.associated_at <= f.last_seen
                &&& a.expires_at is Some
                &&& f.first_seen < a.expires_at->0
                &&& crate::dns::mac_of(f.client_mac) is Some
                &&& crate::addr::ipv4_of(f.destination_ip) is Some
                &&& b.dom().contains(
                    BindingKey {
                        client_mac: crate::dns::mac_of(f.client_mac)->0,
                        target_ip: crate::addr::ipv4_of(f.destination_ip)->0,
                        domain: a.domain,
                    },
                )
            },
            None => true,
        },
{
    if exists|k: BindingKey| crate::dns::sole_cover(b, f, k) {
        let k = choose|k: BindingKey| crate::dns::sole_cover(b, f, k);
        assert(crate::dns::sole_cover(b, f, k));
        assert(k =~= BindingKey {
            client_mac: crate::dns::mac_of(f.client_mac)->0,
            target_ip: crate::addr::ipv4_of(f.destination_ip)->0,
            domain: k.domain,
        });
    }
}

/// A flow that two bindings cover stays unattributed: the cache does not guess.
pub proof fn ambiguous_flows_stay_unattributed(
    b: Map<BindingKey, Lifetime>,
    f: FlowView,
    x: BindingKey,
    y: BindingKey,
)
    requires
        x != y,
        b.dom().contains(x) && crate::dns::covers(x, b[x], f),
        b.dom().contains(y) && crate::dns::covers(y, b[y], f),
    ensures
        crate::dns::attribution_of(b, f) is None,
        crate::dns::attributed(b, f) == f,
{
    assert forall|k: BindingKey| !crate::dns::sole_cover(b, f, k) by {}
}

/// Attributing a flow twice is attributing it once.
pub proof fn attribution_is_idempotent(b: Map<BindingKey, Lifetime>, f: FlowView)
    ensures
        crate::dns::attributed(b, crate::dns::attributed(b, f)) == crate::dns::attributed(b, f),
{
    let g = crate::dns::attributed(b, f);
    assert forall|k: BindingKey|
        crate::dns::sole_cover(b, f, k) == crate::dns::sole_cover(b, g, k) by {
        assert forall|o: BindingKey| b.dom().contains(o) implies crate::dns::covers(o, b[o], f)
            == crate::dns::covers(o, b[o], g) by {}
        if crate::dns::sole_cover(b, f, k) {
            assert forall|o: BindingKey| #[trigger]
                b.dom().contains(o) && crate::dns::covers(o, b[o], g) implies o == k by {
                assert(crate::dns::covers(o, b[o], f));
            }
        }
        if crate::dns::sole_cover(b, g, k) {
            assert forall|o: BindingKey| #[trigger]
                b.dom().contains(o) && crate::dns::covers(o, b[o], f) implies o == k by {
                assert(crate::dns::covers(o, b[o], g));
            }
        }
    }
    if exists|k: BindingKey| crate::dns::sole_cover(b, f, k) {
        let x = choose|k: BindingKey| crate::dns::sole_cover(b, f, k);
        assert(crate::dns::sole_cover(b, g, x));
        let y = choose|k: BindingKey| crate::dns::sole_cover(b, g, k);
        assert(crate::dns::sole_cover(b, g, y));
        assert(x == y);
    }
}

pub proof fn lemma_filter_twice<A>(s: Seq<A>, f: spec_fn(A) -> bool, g: spec_fn(A) -> bool)
    requires
        forall|x: A| #[trigger] g(x) ==> f(x),
    ensures
        s.filter(f).filter(g) == s.filter(g),
    decreases s.len(),
{
    reveal(Seq::filter);
    if s.len() > 0 {
        let t = s.drop_last();
        lemma_filter_twice(t, f, g);
        if f(s.last()) {
            assert(t.filter(f).push(s.last()).drop_last() =~= t.filter(f));
        }
    }
}

/// A purge removes exactly what has expired; after a later purge it is as if only that one had
/// taken place. In particular a second purge at the same time changes nothing.
pub proof fn later_purge_subsumes_earlier(c: CacheView, a: i64, b: i64)
    requires
        a <= b,
    ensures
        crate::dns::purged(crate::dns::purged(c, a), b) == crate::dns::purged(c, b),
{
    let x = crate::dns::purged(crate::dns::purged(c, a), b);
    let y = crate::dns::purged(c, b);
    assert(x.bindings =~= y.bindings);
    assert(x.identities =~= y.identities);
    lemma_filter_twice(
        c.pending,
        |p: PendingView| crate::dns::still_waits(p, a),
        |p: PendingView| crate::dns::still_waits(p, b),
    );
    assert(x.pending =~= y.pending);
}

/// A purge does not change how a flow is attributed that starts at the purge or later.
pub proof fn purge_keeps_attribution_of_later_flows(c: CacheView, now: i64, f: FlowView)
    requires
        f.first_seen >= now,
    ensures
        crate::dns::attribution_of(crate::dns::purged(c, now).bindings, f)
            == crate::dns::attribution_of(c.bindings, f),
{
    let a = crate::dns::purged(c, now).bindings;
    let b = c.bindings;
    assert forall|k: BindingKey|
        crate::dns::sole_cover(a, f, k) == crate::dns::sole_cover(b, f, k) by {
        if crate::dns::sole_cover(a, f, k) {
            assert forall|o: BindingKey| #[trigger]
                b.dom().contains(o) && crate::dns::covers(o, b[o], f) implies o == k by {
                assert(a.dom().contains(o));
            }
        }
        if crate::dns::sole_cover(b, f, k) {
            assert(a.dom().contains(k));
            assert forall|o: BindingKey| #[trigger]
                a.dom().contains(o) && crate::dns::covers(o, a[o], f) implies o == k by {
                assert(b.dom().contains(o));
            }
        }
    }
    if exists|k: BindingKey| crate::dns::sole_cover(a, f, k) {
        let x = choose|k: BindingKey| crate::dns::sole_cover(a, f, k);
        let y = choose|k: BindingKey| crate::dns::sole_cover(b, f, k);
        assert(crate::dns::sole_cover(b, f, x));
        assert(crate::dns::sole_cover(b, f, y));
        assert(x == y);
    }
}

/// Every observation that goes on waiting was in the list, still waits, and has no known client.
proof fn lemma_unresolved(
    b: Map<BindingKey, Lifetime>,
    ids: Map<Seq<char>, IdentityView>,
    pending: Seq<PendingView>,
    now: i64,
)
    ensures
        forall|i: int|
            0 <= i < crate::dns::resolved(b, ids, pending, now).unresolved.len() ==> {
                &&& crate::dns::still_waits(
                    #[trigger] crate::dns::resolved(b, ids, pending, now).unresolved[i],
                    now,
                )
                &&& crate::dns::client_of(
                    ids,
                    crate::dns::resolved(b, ids, pending, now).unresolved[i],
                ) is None
            },
    decreases pending.len(),
{
    if pending.len() > 0 {
        lemma_unresolved(b, ids, pending.drop_last(), now);
    }
}

proof fn lemma_nothing_to_resolve(
    b: Map<BindingKey, Lifetime>,
    ids: Map<Seq<char>, IdentityView>,
    pending: Seq<PendingView>,
    now: i64,
)
    requires
        forall|i: int|
            0 <= i < pending.len() ==> crate::dns::still_waits(#[trigger] pending[i], now)
                && crate::dns::client_of(ids, pending[i]) is None,
    ensures
        crate::dns::resolved(b, ids, pending, now) == (Resolution {
            bindings: b,
            unresolved: pending,
            updated: 0,
        }),
    decreases pending.len(),
{
    if pending.len() > 0 {
        let t = pending.drop_last();
        assert forall|i: int| 0 <= i < t.len() implies crate::dns::still_waits(
            #[trigger] t[i],
            now,
        ) && crate::dns::client_of(ids, t[i]) is None by {
            assert(t[i] == pending[i]);
        }
        lemma_nothing_to_resolve(b, ids, t, now);
        assert(t.push(pending.last()) =~= pending);
        assert(pending[pending.len() - 1] == pending.last());
    } else {
        assert(pending =~= Seq::<PendingView>::empty());
    }
}

/// Resolving the waiting list again at the same time, with nothing new known, changes nothing.
pub proof fn resolving_twice_changes_nothing(c: CacheView, now: i64)
    ensures
        crate::dns::settled(crate::dns::settled(c, now), now) == crate::dns::settled(c, now),
        crate::dns::settled_count(crate::dns::settled(c, now), now) == 0,
{
    let r = crate::dns::resolved(c.bindings, c.identities, c.pending, now);
    lemma_unresolved(c.bindings, c.identities, c.pending, now);
    lemma_nothing_to_resolve(r.bindings, c.identities, r.unresolved, now);
}

/// The waiting list never grows beyond its bound, and the newest observation is always in it: it
/// is the oldest that make room.
pub proof fn waiting_list_evicts_the_oldest(pending: Seq<PendingView>, p: PendingView)
    ensures
        pending.len() <= 4_096 ==> crate::dns::enqueued(pending, p).len() <= 4_096,
        crate::dns::enqueued(pending, p).last() == p,
        crate::dns::enqueued(pending, p).drop_last().len() <= pending.len(),
        forall|i: int|
            #![trigger crate::dns::enqueued(pending, p).drop_last()[i]]
            0 <= i < crate::dns::enqueued(pending, p).drop_last().len()
                ==> crate::dns::enqueued(pending, p).drop_last()[i] == pending[pending.len()
                - crate::dns::enqueued(pending, p).drop_last().len() + i],
{
}

/// An observation is attributed to a client only when every flow that could identify the asker
/// names the same one.
pub proof fn observation_needs_one_client(
    ids: Map<Seq<char>, IdentityView>,
    p: PendingView,
    x: Seq<char>,
    y: Seq<char>,
)
    requires
        ids.dom().contains(x) && crate::dns::identifies(ids[x], p),
        ids.dom().contains(y) && crate::dns::identifies(ids[y], p),
        ids[x].client_mac != ids[y].client_mac,
    ensures
        crate::dns::client_of(ids, p) is None,
{
    assert forall|m: Seq<char>| !crate::dns::sole_client(ids, p, m) by {}
}

proof fn lemma_lower_keeps_spaces(s: Seq<char>)
    ensures
        crate::text::lower_spec(s).len() == s.len(),
        forall|i: int|
            0 <= i < s.len() ==> crate::text::is_whitespace_spec(
                #[trigger] crate::text::lower_spec(s)[i],
            ) == crate::text::is_whitespace_spec(s[i]),
        crate::text::lower_spec(crate::text::lower_spec(s)) == crate::text::lower_spec(s),
{
    assert(crate::text::lower_spec(crate::text::lower_spec(s)) =~= crate::text::lower_spec(s));
}

/// A MAC address in normal form is its own normal form.
pub proof fn mac_normal_form_is_stable(value: Seq<char>)
    ensures
        match crate::dns::mac_of(value) {
            Some(mac) => crate::dns::mac_of(mac) == Some(mac),
            None => true,
        },
{
    let t = crate::text::trim_spec(value);
    let l = crate::text::lower_spec(t);
    if t.len() > 0 {
        lemma_lower_keeps_spaces(t);
        let u = crate::text::trim_start_spec(value);
        crate::text::lemma_trim_start_head(value);
        crate::text::lemma_trim_end_prefix(u);
        crate::text::lemma_trim_end_tail(u);
        assert(t[0] == u[0]);
        assert(!crate::text::is_whitespace_spec(l[0]));
        assert(!crate::text::is_whitespace_spec(l[l.len() - 1]));
        assert(crate::text::trim_start_spec(l) == l);
        assert(crate::text::trim_end_spec(l) == l);
    }
}

proof fn lemma_trim_end_char_tail(s: Seq<char>, c: char)
    ensures
        crate::text::trim_end_char_spec(s, c).len() > 0 ==> crate::text::trim_end_char_spec(
            s,
            c,
        ).last() != c,
    decreases s.len(),
{
    if s.len() > 0 && s.last() == c {
        lemma_trim_end_char_tail(s.drop_last(), c);
    }
}

/// A domain name in normal form is its own normal form, unless whitespace stood before the dots
/// that were dropped.
pub proof fn domain_normal_form_is_stable(value: Seq<char>)
    requires
        crate::dns::domain_of(value) is Some ==> crate::text::trim_spec(
            crate::dns::domain_of(value)->0,
        ) == crate::dns::domain_of(value)->0,
    ensures
        match crate::dns::domain_of(value) {
            Some(domain) => crate::dns::domain_of(domain) == Some(domain),
            None => true,
        },
{
    let t = crate::text::trim_end_char_spec(crate::text::trim_spec(value), '.');
    let d = crate::text::lower_spec(t);
    lemma_trim_end_char_tail(crate::text::trim_spec(value), '.');
    lemma_lower_keeps_spaces(t);
    if d.len() > 0 {
        assert(d.last() == crate::text::lower_char(t.last()));
        assert(d.last() != '.');
        assert(crate::text::trim_end_char_spec(d, '.') == d);
    }
}

/// A domain name in normal form has 1 to 253 bytes and labels of 1 to 63 bytes.
pub proof fn domain_normal_form_is_bounded(value: Seq<char>, i: int)
    requires
        crate::dns::domain_of(value) is Some,
        0 <= i < crate::text::split_spec(crate::dns::domain_of(value)->0, '.').len(),
    ensures
        0 < crate::dns::domain_of(value)->0.len(),
        crate::text::utf8_len(crate::dns::domain_of(value)->0) <= 253,
        crate::dns::label_ok(crate::text::split_spec(crate::dns::domain_of(value)->0, '.')[i]),
{
}

/// Once the names of a device are removed, none of its flows is given a domain.
pub proof fn removed_devices_are_forgotten(c: CacheView, mac: Seq<char>, f: FlowView)
    requires
        crate::dns::mac_of(mac) is Some,
        crate::dns::mac_of(f.client_mac) == crate::dns::mac_of(mac),
    ensures
        crate::dns::attribution_of(crate::dns::without_device(c, mac).bindings, f) is None,
{
    attribution_comes_from_a_live_binding(crate::dns::without_device(c, mac).bindings, f);
}

/// Once a domain is removed for all devices, no flow is given it.
pub proof fn removed_domains_are_forgotten(c: CacheView, domain: Seq<char>, f: FlowView)
    ensures
        match crate::dns::attribution_of(crate::dns::without_domain(c, None, domain).bindings, f) {
            Some(a) => a.domain != domain,
            None => true,
        },
        forall|i: int|
            0 <= i < crate::dns::without_domain(c, None, domain).pending.len()
                ==> #[trigger] crate::dns::without_domain(c, None, domain).pending[i].domain
                != domain,
{
    attribution_comes_from_a_live_binding(
        crate::dns::without_domain(c, None, domain).bindings,
        f,
    );
    let keep = |p: PendingView| p.domain != domain;
    broadcast use vstd::seq_lib::group_filter_ensures;
    assert forall|i: int| 0 <= i < c.pending.filter(keep).len() implies #[trigger] c.pending.filter(
        keep,
    )[i].domain != domain by {
        assert(keep(c.pending.filter(keep)[i]));
    }
}

/// Removing a domain for one device changes nothing for the flows of the others.
pub proof fn removing_a_domain_spares_other_devices(
    c: CacheView,
    mac: Seq<char>,
    domain: Seq<char>,
    f: FlowView,
)
    requires
        crate::dns::mac_of(f.client_mac) != crate::dns::mac_of(mac),
    ensures
        crate::dns::attribution_of(
            crate::dns::without_domain(c, Some(mac), domain).bindings,
            f,
        ) == crate::dns::attribution_of(c.bindings, f),
{
    attribution_rests_on_own_client(
        crate::dns::without_domain(c, Some(mac), domain).bindings,
        c.bindings,
        f,
    );
}

} // verus!
