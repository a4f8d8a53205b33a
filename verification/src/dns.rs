//! DNS observations and the attribution of flows to domains.
//!
//! A cache holds three things: bindings from a client's MAC address and a target address to a
//! domain, each with a lifetime; the address intervals in which a client was seen; and observations
//! that wait for their client to be identified.
use std::collections::VecDeque;
use vstd::prelude::*;
use vstd::string::*;

use crate::addr::Ipv4Address;
use crate::domain::{
    is_blank, DataTimeRange, DomainAttribution, DomainConfidence, DomainSource, Flow,
};
use crate::num::{saturating_add_i64, saturating_sub_i64};
use crate::table::{Key, Table};
use crate::text::{byte_len, split, str_eq, to_ascii_lowercase, trim, trim_end_char};

verus! {

/// How long after its last packet a flow still identifies its client.
pub const IDENTITY_MATCH_GRACE_MS: i64 = 5_000;

/// How long an idle identity is kept.
pub const IDENTITY_IDLE_RETENTION_MS: i64 = 300_000;

/// How long an observation may wait for its client.
pub const MAX_PENDING_AGE_MS: i64 = 300_000;

/// How many observations may wait at a time.
pub const MAX_PENDING_OBSERVATIONS: usize = 4_096;

/// The normal form of a MAC address, if it is not blank.
pub open spec fn mac_of(value: Seq<char>) -> Option<Seq<char>> {
    let mac = crate::text::trim_spec(value);
    if mac.len() == 0 {
        None
    } else {
        Some(crate::text::lower_spec(mac))
    }
}

/// Trims a MAC address and puts it in lower case; a blank one is refused.
pub fn normalize_mac(value: &str) -> (r: Option<String>)
    ensures
        crate::text::opt_view(r) == mac_of(value@),
{
    let mac = trim(value);
    if is_blank(&mac) {
        None
    } else {
        Some(to_ascii_lowercase(mac.as_str()))
    }
}

/// A label of a domain name must have 1 to 63 bytes.
pub open spec fn label_ok(label: Seq<char>) -> bool {
    label.len() > 0 && crate::text::utf8_len(label) <= 63
}

/// The normal form of a domain name, if it is well formed.
pub open spec fn domain_of(value: Seq<char>) -> Option<Seq<char>> {
    let domain = crate::text::lower_spec(
        crate::text::trim_end_char_spec(crate::text::trim_spec(value), '.'),
    );
    if domain.len() == 0 || crate::text::utf8_len(domain) > 253 || exists|i: int|
        0 <= i < crate::text::split_spec(domain, '.').len() && !label_ok(
            #[trigger] crate::text::split_spec(domain, '.')[i],
        ) {
        None
    } else {
        Some(domain)
    }
}

/// Trims a domain name, drops trailing dots and puts it in lower case; a malformed name is refused.
pub fn normalize_domain(value: &str) -> (r: Option<String>)
    ensures
        crate::text::opt_view(r) == domain_of(value@),
{
    let trimmed = trim(value);
    let undotted = trim_end_char(trimmed.as_str(), '.');
    let domain = to_ascii_lowercase(undotted.as_str());
    if is_blank(&domain) || byte_len(domain.as_str()) > 253 {
        return None;
    }
    let labels = split(domain.as_str(), '.');
    let ghost parts = crate::text::split_spec(domain@, '.');
    let mut i: usize = 0;
    while i < labels.len()
        invariant
            i <= labels@.len(),
            parts == crate::text::split_spec(domain@, '.'),
            crate::text::views(labels@) == parts,
            domain@ == crate::text::lower_spec(
                crate::text::trim_end_char_spec(crate::text::trim_spec(value@), '.'),
            ),
            forall|k: int| 0 <= k < i ==> label_ok(#[trigger] parts[k]),
        decreases labels@.len() - i,
    {
        proof {
            assert(crate::text::views(labels@)[i as int] == labels@[i as int]@);
        }
        if is_blank(&labels[i]) || byte_len(labels[i].as_str()) > 63 {
            proof {
                assert(!label_ok(parts[i as int]));
            }
            return None;
        }
        i = i + 1;
    }
    Some(domain)
}

/// A DNS answer that a client was given.
#[derive(Debug, PartialEq, Eq)]
pub struct DnsObservation {
    pub client_ip: Ipv4Address,
    pub domain: String,
    pub target_ips: Vec<Ipv4Address>,
    pub observed_at_ms: i64,
    pub ttl_secs: u32,
}

/// What an observation is, as a mathematical value.
#[verifier::ext_equal]
pub struct ObservationView {
    pub client_ip: Ipv4Address,
    pub domain: Seq<char>,
    pub target_ips: Seq<Ipv4Address>,
    pub observed_at_ms: i64,
    pub ttl_secs: u32,
}

impl View for DnsObservation {
    type V = ObservationView;

    open spec fn view(&self) -> ObservationView {
        ObservationView {
            client_ip: self.client_ip,
            domain: self.domain@,
            target_ips: self.target_ips@,
            observed_at_ms: self.observed_at_ms,
            ttl_secs: self.ttl_secs,
        }
    }
}

impl Clone for DnsObservation {
    fn clone(&self) -> (r: Self)
        ensures
            r@ == self@,
    {
        DnsObservation {
            client_ip: self.client_ip,
            domain: self.domain.clone(),
            target_ips: self.target_ips.clone(),
            observed_at_ms: self.observed_at_ms,
            ttl_secs: self.ttl_secs,
        }
    }
}

/// Where observations come from.
pub trait DnsObservationSource {
    /// The name of the source.
    fn source_name(&self) -> &'static str;

    /// Hands over the observations made since the last call.
    fn collect(&mut self) -> Result<Vec<DnsObservation>, String>;
}

/// Observations that were made and not yet collected.
#[derive(Debug)]
pub struct DnsObservationQueue {
    pub pending: Vec<DnsObservation>,
}

impl DnsObservationQueue {
    /// An empty queue.
    pub fn new() -> (r: Self)
        ensures
            r.pending@ == Seq::<DnsObservation>::empty(),
    {
        DnsObservationQueue { pending: Vec::new() }
    }

    /// Appends an observation.
    pub fn push(&mut self, observation: DnsObservation)
        ensures
            final(self).pending@ == old(self).pending@.push(observation),
    {
        self.pending.push(observation);
    }
}

impl DnsObservationSource for DnsObservationQueue {
    fn source_name(&self) -> (r: &'static str)
        ensures
            r@ == "dns-proxy"@,
    {
        "dns-proxy"
    }

    /// Drains the queue.
    fn collect(&mut self) -> (r: Result<Vec<DnsObservation>, String>)
        ensures
            r is Ok,
            r->Ok_0@ == old(self).pending@,
            final(self).pending@ == Seq::<DnsObservation>::empty(),
    {
        let mut drained: Vec<DnsObservation> = Vec::new();
        std::mem::swap(&mut drained, &mut self.pending);
        Ok(drained)
    }
}

/// What a binding is about: traffic of one client to one address, under one domain.
#[derive(Debug)]
pub struct BindingId {
    pub client_mac: String,
    pub target_ip: Ipv4Address,
    pub domain: String,
}

/// What a binding is about, as a mathematical value.
#[verifier::ext_equal]
pub struct BindingKey {
    pub client_mac: Seq<char>,
    pub target_ip: Ipv4Address,
    pub domain: Seq<char>,
}

impl View for BindingId {
    type V = BindingKey;

    open spec fn view(&self) -> BindingKey {
        BindingKey {
            client_mac: self.client_mac@,
            target_ip: self.target_ip,
            domain: self.domain@,
        }
    }
}

impl Key for BindingId {
    fn same(&self, other: &Self) -> (r: bool) {
        self.target_ip == other.target_ip && str_eq(
            self.client_mac.as_str(),
            other.client_mac.as_str(),
        ) && str_eq(self.domain.as_str(), other.domain.as_str())
    }
}

/// The time in which a binding holds: from `associated_at` up to, not including, `expires_at`.
#[derive(Debug, Clone, Copy, PartialEq, Eq, Structural)]
pub struct Lifetime {
    pub associated_at: i64,
    pub expires_at: i64,
}

/// The time in which a flow showed that an address belongs to a client.
#[derive(Debug)]
pub struct ClientIdentityInterval {
    pub client_ip: Ipv4Address,
    pub client_mac: String,
    pub first_seen: i64,
    pub last_seen: i64,
}

/// What an identity is, as a mathematical value.
#[verifier::ext_equal]
pub struct IdentityView {
    pub client_ip: Ipv4Address,
    pub client_mac: Seq<char>,
    pub first_seen: i64,
    pub last_seen: i64,
}

impl View for ClientIdentityInterval {
    type V = IdentityView;

    open spec fn view(&self) -> IdentityView {
        IdentityView {
            client_ip: self.client_ip,
            client_mac: self.client_mac@,
            first_seen: self.first_seen,
            last_seen: self.last_seen,
        }
    }
}

/// An observation that waits for its client to be identified.
#[derive(Debug)]
pub struct PendingDnsObservation {
    pub client_ip: Ipv4Address,
    pub domain: String,
    pub target_ips: Vec<Ipv4Address>,
    pub observed_at_ms: i64,
    pub binding_expires_at: i64,
    pub pending_expires_at: i64,
}

/// What a waiting observation is, as a mathematical value.
#[verifier::ext_equal]
pub struct PendingView {
    pub client_ip: Ipv4Address,
    pub domain: Seq<char>,
    pub target_ips: Set<Ipv4Address>,
    pub observed_at_ms: i64,
    pub binding_expires_at: i64,
    pub pending_expires_at: i64,
}

impl View for PendingDnsObservation {
    type V = PendingView;

    open spec fn view(&self) -> PendingView {
        PendingView {
            client_ip: self.client_ip,
            domain: self.domain@,
            target_ips: self.target_ips@.to_set(),
            observed_at_ms: self.observed_at_ms,
            binding_expires_at: self.binding_expires_at,
            pending_expires_at: self.pending_expires_at,
        }
    }
}

impl PendingDnsObservation {
    /// No target is listed twice.
    pub open spec fn wf(&self) -> bool {
        self.target_ips@.no_duplicates()
    }
}

/// What the cache keeps of an observation; nothing when the name is malformed, the time to live is
/// zero or no address was answered.
pub open spec fn prepared(o: ObservationView) -> Option<PendingView> {
    let expires = crate::num::clamp_i64(o.observed_at_ms + o.ttl_secs * 1_000);
    let deadline = crate::num::clamp_i64(o.observed_at_ms + 300_000);
    if domain_of(o.domain) is None || expires <= o.observed_at_ms || o.target_ips.len() == 0 {
        None
    } else {
        Some(
            PendingView {
                client_ip: o.client_ip,
                domain: domain_of(o.domain)->0,
                target_ips: o.target_ips.to_set(),
                observed_at_ms: o.observed_at_ms,
                binding_expires_at: expires,
                pending_expires_at: if expires < deadline {
                    expires
                } else {
                    deadline
                },
            },
        )
    }
}

/// The elements of a list, each once.
fn distinct(ips: &Vec<Ipv4Address>) -> (r: Vec<Ipv4Address>)
    ensures
        r@.no_duplicates(),
        r@.to_set() == ips@.to_set(),
{
    let mut out: Vec<Ipv4Address> = Vec::new();
    let mut i: usize = 0;
    proof {
        assert(out@.to_set() =~= ips@.take(0).to_set());
    }
    while i < ips.len()
        invariant
            i <= ips@.len(),
            out@.no_duplicates(),
            out@.to_set() == ips@.take(i as int).to_set(),
        decreases ips@.len() - i,
    {
        let ip = ips[i];
        let known = contains_ip(&out, ip);
        let ghost before = out@;
        proof {
            assert(ips@.take(i + 1) =~= ips@.take(i as int).push(ip));
            assert(ips@.take(i + 1).to_set() =~= ips@.take(i as int).to_set().insert(ip)) by {
                lemma_push_to_set(ips@.take(i as int), ip);
            }
        }
        if !known {
            out.push(ip);
            proof {
                lemma_push_to_set(before, ip);
            }
        } else {
            proof {
                assert(before.to_set().insert(ip) =~= before.to_set()) by {
                    assert(before.to_set().contains(ip));
                }
            }
        }
        i = i + 1;
    }
    proof {
        assert(ips@.take(i as int) =~= ips@);
    }
    out
}

proof fn lemma_push_to_set<A>(s: Seq<A>, x: A)
    ensures
        s.push(x).to_set() == s.to_set().insert(x),
{
    assert forall|a: A| s.push(x).to_set().contains(a) == s.to_set().insert(x).contains(a) by {
        if s.push(x).contains(a) {
            let i = choose|i: int| 0 <= i < s.push(x).len() && s.push(x)[i] == a;
            if i < s.len() {
                assert(s[i] == a);
                assert(s.contains(a));
            }
        }
        if s.contains(a) {
            let i = choose|i: int| 0 <= i < s.len() && s[i] == a;
            assert(s.push(x)[i] == a);
        }
        if a == x {
            assert(s.push(x)[s.len() as int] == a);
        }
    }
    assert(s.push(x).to_set() =~= s.to_set().insert(x));
}

/// Tells whether an address is in a list.
pub fn contains_ip(ips: &Vec<Ipv4Address>, ip: Ipv4Address) -> (r: bool)
    ensures
        r == ips@.contains(ip),
{
    let mut i: usize = 0;
    while i < ips.len()
        invariant
            i <= ips@.len(),
            forall|k: int| 0 <= k < i ==> ips@[k] != ip,
        decreases ips@.len() - i,
    {
        if ips[i] == ip {
            return true;
        }
        i = i + 1;
    }
    false
}

/// Checks an observation and fixes its deadlines.
pub fn prepare_observation(observation: DnsObservation) -> (r: Option<PendingDnsObservation>)
    ensures
        match r {
            Some(p) => prepared(observation@) == Some(p@) && p.wf(),
            None => prepared(observation@) is None,
        },
{
    let domain = match normalize_domain(observation.domain.as_str()) {
        Some(domain) => domain,
        None => {
            return None;
        },
    };
    let binding_expires_at: i64 = saturating_add_i64(
        observation.observed_at_ms,
        observation.ttl_secs as i64 * 1_000,
    );
    if binding_expires_at <= observation.observed_at_ms {
        return None;
    }
    let target_ips = distinct(&observation.target_ips);
    proof {
        assert(target_ips@.len() == 0 <==> observation.target_ips@.len() == 0) by {
            if target_ips@.len() > 0 {
                assert(target_ips@.to_set().contains(target_ips@[0]));
                assert(observation.target_ips@.contains(target_ips@[0]));
            }
            if observation.target_ips@.len() > 0 {
                assert(observation.target_ips@.to_set().contains(observation.target_ips@[0]));
                assert(target_ips@.contains(observation.target_ips@[0]));
            }
        }
    }
    if target_ips.len() == 0 {
        return None;
    }
    let deadline: i64 = saturating_add_i64(observation.observed_at_ms, MAX_PENDING_AGE_MS);
    Some(
        PendingDnsObservation {
            client_ip: observation.client_ip,
            domain,
            target_ips,
            observed_at_ms: observation.observed_at_ms,
            binding_expires_at,
            pending_expires_at: if binding_expires_at < deadline {
                binding_expires_at
            } else {
                deadline
            },
        },
    )
}

/// What the cache holds, as a mathematical value.
#[verifier::ext_equal]
pub struct CacheView {
    pub bindings: Map<BindingKey, Lifetime>,
    pub identities: Map<Seq<char>, IdentityView>,
    pub pending: Seq<PendingView>,
}

/// The observation still waits at `now`.
pub open spec fn still_waits(p: PendingView, now: i64) -> bool {
    p.pending_expires_at > now && p.binding_expires_at > now
}

/// The identities with a flow seen at or after the cutoff.
pub open spec fn fresh_identities(ids: Map<Seq<char>, IdentityView>, now: i64) -> Map<
    Seq<char>,
    IdentityView,
> {
    Map::new(
        |k: Seq<char>|
            ids.dom().contains(k) && ids[k].last_seen >= crate::num::clamp_i64(now - 300_000),
        |k: Seq<char>| ids[k],
    )
}

/// The bindings that have not expired.
pub open spec fn live_bindings(b: Map<BindingKey, Lifetime>, now: i64) -> Map<
    BindingKey,
    Lifetime,
> {
    Map::new(|k: BindingKey| b.dom().contains(k) && b[k].expires_at > now, |k: BindingKey| b[k])
}

/// The cache without what has expired at `now`.
pub open spec fn purged(c: CacheView, now: i64) -> CacheView {
    CacheView {
        bindings: live_bindings(c.bindings, now),
        identities: fresh_identities(c.identities, now),
        pending: c.pending.filter(|p: PendingView| still_waits(p, now)),
    }
}

/// The cache without what is known of a device.
pub open spec fn without_device(c: CacheView, mac: Seq<char>) -> CacheView {
    match mac_of(mac) {
        None => c,
        Some(m) => CacheView {
            bindings: Map::new(
                |k: BindingKey| c.bindings.dom().contains(k) && k.client_mac != m,
                |k: BindingKey| c.bindings[k],
            ),
            identities: Map::new(
                |k: Seq<char>| c.identities.dom().contains(k) && c.identities[k].client_mac != m,
                |k: Seq<char>| c.identities[k],
            ),
            ..c
        },
    }
}

/// The binding is one of the domain, of the given device where one is given.
pub open spec fn names(k: BindingKey, mac: Option<Seq<char>>, domain: Seq<char>) -> bool {
    k.domain == domain && match mac {
        None => true,
        Some(m) => mac_of(m) == Some(k.client_mac),
    }
}

/// The cache without a domain, for one device or for all.
pub open spec fn without_domain(
    c: CacheView,
    mac: Option<Seq<char>>,
    domain: Seq<char>,
) -> CacheView {
    CacheView {
        bindings: Map::new(
            |k: BindingKey| c.bindings.dom().contains(k) && !names(k, mac, domain),
            |k: BindingKey| c.bindings[k],
        ),
        pending: if mac is None {
            c.pending.filter(|p: PendingView| p.domain != domain)
        } else {
            c.pending
        },
        ..c
    }
}

/// The cache without what was observed in a range of time.
pub open spec fn without_range(c: CacheView, from_ms: i64, to_ms: i64) -> CacheView {
    CacheView {
        bindings: Map::new(
            |k: BindingKey|
                c.bindings.dom().contains(k) && !(from_ms <= c.bindings[k].associated_at < to_ms),
            |k: BindingKey| c.bindings[k],
        ),
        pending: c.pending.filter(|p: PendingView| !(from_ms <= p.observed_at_ms < to_ms)),
        ..c
    }
}

/// How many things the cache holds.
pub open spec fn cache_size(c: CacheView) -> nat {
    c.bindings.len() + c.identities.len() + c.pending.len()
}

/// The list of waiting observations after one more, the oldest making room.
pub open spec fn enqueued(pending: Seq<PendingView>, p: PendingView) -> Seq<PendingView> {
    if pending.len() >= 4_096 {
        pending.skip(pending.len() - 4_095).push(p)
    } else {
        pending.push(p)
    }
}

/// The list of waiting observations after a batch, without those that are not worth keeping.
pub open spec fn enqueued_all(pending: Seq<PendingView>, batch: Seq<ObservationView>) -> Seq<
    PendingView,
>
    decreases batch.len(),
{
    if batch.len() == 0 {
        pending
    } else {
        let before = enqueued_all(pending, batch.drop_last());
        match prepared(batch.last()) {
            Some(p) => enqueued(before, p),
            None => before,
        }
    }
}

/// Some observation of the batch is worth keeping.
pub open spec fn any_prepared(batch: Seq<ObservationView>) -> bool {
    exists|i: int| 0 <= i < batch.len() && prepared(#[trigger] batch[i]) is Some
}

/// The flow behind the identity shows who asked: it used the address at that time, or up to five
/// seconds before.
pub open spec fn identifies(id: IdentityView, p: PendingView) -> bool {
    &&& id.client_ip == p.client_ip
    &&& id.first_seen <= p.observed_at_ms
    &&& p.observed_at_ms <= crate::num::clamp_i64(id.last_seen + 5_000)
}

/// `mac` is the only client that could have asked.
pub open spec fn sole_client(
    ids: Map<Seq<char>, IdentityView>,
    p: PendingView,
    mac: Seq<char>,
) -> bool {
    &&& exists|k: Seq<char>|
        #[trigger] ids.dom().contains(k) && identifies(ids[k], p) && ids[k].client_mac == mac
    &&& forall|k: Seq<char>| #[trigger]
        ids.dom().contains(k) && identifies(ids[k], p) ==> ids[k].client_mac == mac
}

/// The one client that could have asked, if there is exactly one.
pub open spec fn client_of(ids: Map<Seq<char>, IdentityView>, p: PendingView) -> Option<Seq<char>> {
    if exists|mac: Seq<char>| sole_client(ids, p, mac) {
        Some(choose|mac: Seq<char>| sole_client(ids, p, mac))
    } else {
        None
    }
}

/// The key of the binding that an observation makes for one target.
pub open spec fn binding_key(mac: Seq<char>, ip: Ipv4Address, p: PendingView) -> BindingKey {
    BindingKey { client_mac: mac, target_ip: ip, domain: p.domain }
}

/// A binding made by a later observation holds already.
pub open spec fn newer_known(
    b: Map<BindingKey, Lifetime>,
    k: BindingKey,
    p: PendingView,
) -> bool {
    b.dom().contains(k) && b[k].expires_at > p.observed_at_ms && b[k].associated_at
        > p.observed_at_ms
}

/// The key is one that the observation makes a binding for.
pub open spec fn bound_by(k: BindingKey, mac: Seq<char>, p: PendingView) -> bool {
    k.client_mac == mac && p.target_ips.contains(k.target_ip) && k.domain == p.domain
}

/// The binding is for a target of the observation and had expired when it was made.
pub open spec fn stale(k: BindingKey, l: Lifetime, mac: Seq<char>, p: PendingView) -> bool {
    k.client_mac == mac && p.target_ips.contains(k.target_ip) && l.expires_at <= p.observed_at_ms
}

/// The bindings after an observation of the client `mac`.
pub open spec fn bound(
    b: Map<BindingKey, Lifetime>,
    mac: Seq<char>,
    p: PendingView,
) -> Map<BindingKey, Lifetime> {
    Map::new(
        |k: BindingKey|
            (b.dom().contains(k) && !stale(k, b[k], mac, p)) || bound_by(k, mac, p),
        |k: BindingKey|
            if bound_by(k, mac, p) && !newer_known(b, k, p) {
                Lifetime { associated_at: p.observed_at_ms, expires_at: p.binding_expires_at }
            } else {
                b[k]
            },
    )
}

/// How many bindings an observation of the client `mac` makes or renews.
pub open spec fn bound_count(
    b: Map<BindingKey, Lifetime>,
    mac: Seq<char>,
    p: PendingView,
) -> nat {
    p.target_ips.filter(|ip: Ipv4Address| !newer_known(b, binding_key(mac, ip, p), p)).len()
}

/// What resolving a list of waiting observations leads to.
#[verifier::ext_equal]
pub struct Resolution {
    pub bindings: Map<BindingKey, Lifetime>,
    pub unresolved: Seq<PendingView>,
    pub updated: nat,
}

/// Resolves waiting observations in order: an expired one is dropped, one with a known client is
/// turned into bindings, any other goes on waiting.
pub open spec fn resolved(
    b: Map<BindingKey, Lifetime>,
    ids: Map<Seq<char>, IdentityView>,
    pending: Seq<PendingView>,
    now: i64,
) -> Resolution
    decreases pending.len(),
{
    if pending.len() == 0 {
        Resolution { bindings: b, unresolved: Seq::<PendingView>::empty(), updated: 0 }
    } else {
        let r = resolved(b, ids, pending.drop_last(), now);
        let p = pending.last();
        if !still_waits(p, now) {
            r
        } else {
            match client_of(ids, p) {
                Some(mac) => Resolution {
                    bindings: bound(r.bindings, mac, p),
                    unresolved: r.unresolved,
                    updated: r.updated + bound_count(r.bindings, mac, p),
                },
                None => Resolution {
                    bindings: r.bindings,
                    unresolved: r.unresolved.push(p),
                    updated: r.updated,
                },
            }
        }
    }
}

/// The cache after its waiting observations were resolved.
pub open spec fn settled(c: CacheView, now: i64) -> CacheView {
    let r = resolved(c.bindings, c.identities, c.pending, now);
    CacheView { bindings: r.bindings, identities: c.identities, pending: r.unresolved }
}

/// How many bindings that made or renewed.
pub open spec fn settled_count(c: CacheView, now: i64) -> nat {
    resolved(c.bindings, c.identities, c.pending, now).updated
}

/// A count as a machine number; one that does not fit is the largest.
pub open spec fn as_count(n: nat) -> usize {
    if n > usize::MAX {
        usize::MAX
    } else {
        n as usize
    }
}

/// The cache after a batch of observations.
pub open spec fn ingested(c: CacheView, batch: Seq<ObservationView>, now: i64) -> CacheView {
    if any_prepared(batch) {
        let p = purged(c, now);
        settled(CacheView { pending: enqueued_all(p.pending, batch), ..p }, now)
    } else {
        c
    }
}

/// How many bindings a batch of observations makes or renews.
pub open spec fn ingested_count(c: CacheView, batch: Seq<ObservationView>, now: i64) -> nat {
    if any_prepared(batch) {
        let p = purged(c, now);
        settled_count(CacheView { pending: enqueued_all(p.pending, batch), ..p }, now)
    } else {
        0
    }
}

/// What a source answered was taken in, with `r` as the outcome: its observations, or nothing where
/// it failed.
pub open spec fn taken_in(
    before: CacheView,
    after: CacheView,
    got: Result<Vec<DnsObservation>, String>,
    now: i64,
    r: Result<usize, String>,
) -> bool {
    match got {
        Ok(batch) => {
            &&& after == ingested(before, observation_views(batch@), now)
            &&& r is Ok
            &&& r->Ok_0 == as_count(ingested_count(before, observation_views(batch@), now))
        },
        Err(error) => after == before && r == Err::<usize, String>(error),
    }
}

/// The flow tells who used its client address, and is recent enough.
pub open spec fn teaches(f: crate::domain::FlowView, now: i64) -> bool {
    &&& crate::addr::ipv4_of(f.client_ip) is Some
    &&& mac_of(f.client_mac) is Some
    &&& f.flow_id.len() > 0
    &&& f.first_seen <= f.last_seen
    &&& f.last_seen >= crate::num::clamp_i64(now - 300_000)
}

/// The identity that a flow teaches.
pub open spec fn identity_of(f: crate::domain::FlowView) -> IdentityView {
    IdentityView {
        client_ip: crate::addr::ipv4_of(f.client_ip)->0,
        client_mac: mac_of(f.client_mac)->0,
        first_seen: f.first_seen,
        last_seen: f.last_seen,
    }
}

/// The identities after a list of flows, with how many of them taught one.
pub open spec fn learned(
    ids: Map<Seq<char>, IdentityView>,
    flows: Seq<crate::domain::FlowView>,
    now: i64,
) -> (Map<Seq<char>, IdentityView>, nat)
    decreases flows.len(),
{
    if flows.len() == 0 {
        (ids, 0)
    } else {
        let r = learned(ids, flows.drop_last(), now);
        let f = flows.last();
        if teaches(f, now) {
            (r.0.insert(f.flow_id, identity_of(f)), r.1 + 1)
        } else {
            r
        }
    }
}

/// The binding covers the flow: same client, same target, and their times meet.
pub open spec fn covers(k: BindingKey, l: Lifetime, f: crate::domain::FlowView) -> bool {
    &&& mac_of(f.client_mac) == Some(k.client_mac)
    &&& crate::addr::ipv4_of(f.destination_ip) == Some(k.target_ip)
    &&& l.associated_at <= f.last_seen
    &&& f.first_seen < l.expires_at
}

/// The binding is the only one that covers the flow.
pub open spec fn sole_cover(
    b: Map<BindingKey, Lifetime>,
    f: crate::domain::FlowView,
    k: BindingKey,
) -> bool {
    &&& b.dom().contains(k) && covers(k, b[k], f)
    &&& forall|o: BindingKey| #[trigger] b.dom().contains(o) && covers(o, b[o], f) ==> o == k
}

/// The attribution of a flow: that of the one binding that covers it.
pub open spec fn attribution_of(
    b: Map<BindingKey, Lifetime>,
    f: crate::domain::FlowView,
) -> Option<crate::domain::AttributionView> {
    if exists|k: BindingKey| sole_cover(b, f, k) {
        let k = choose|k: BindingKey| sole_cover(b, f, k);
        Some(
            crate::domain::AttributionView {
                domain: k.domain,
                source: DomainSource::Dns,
                confidence: DomainConfidence::High,
                associated_at: b[k].associated_at,
                expires_at: Some(b[k].expires_at),
            },
        )
    } else {
        None
    }
}

/// The flow as the cache attributes it: only its domain changes, and only when one was found.
pub open spec fn attributed(
    b: Map<BindingKey, Lifetime>,
    f: crate::domain::FlowView,
) -> crate::domain::FlowView {
    match attribution_of(b, f) {
        Some(a) => crate::domain::FlowView { domain: Some(a), ..f },
        None => f,
    }
}

/// Bindings, identities and waiting observations.
#[derive(Debug)]
pub struct DnsAttributionCache {
    bindings: Table<BindingId, Lifetime>,
    identities: Table<String, ClientIdentityInterval>,
    pending: VecDeque<PendingDnsObservation>,
}

/// The views of the identities in a table.
pub open spec fn identity_views(m: Map<Seq<char>, ClientIdentityInterval>) -> Map<
    Seq<char>,
    IdentityView,
> {
    m.map_values(|v: ClientIdentityInterval| v@)
}

/// The views of a list of waiting observations.
pub open spec fn pending_views(s: Seq<PendingDnsObservation>) -> Seq<PendingView> {
    s.map_values(|p: PendingDnsObservation| p@)
}

/// The views of a list of observations.
pub open spec fn observation_views(s: Seq<DnsObservation>) -> Seq<ObservationView> {
    s.map_values(|o: DnsObservation| o@)
}

/// The views of a list of flows.
pub open spec fn flow_views(s: Seq<Flow>) -> Seq<crate::domain::FlowView> {
    s.map_values(|f: Flow| f@)
}

impl View for DnsAttributionCache {
    type V = CacheView;

    closed spec fn view(&self) -> CacheView {
        CacheView {
            bindings: self.bindings.map(),
            identities: identity_views(self.identities.map()),
            pending: pending_views(self.pending@),
        }
    }
}

/// Removes the stale bindings of the observed targets, then makes or renews one for each target.
fn add_domain_bindings(
    bindings: &mut Table<BindingId, Lifetime>,
    client_mac: &String,
    observation: &PendingDnsObservation,
) -> (r: usize)
    requires
        old(bindings).wf(),
        observation.wf(),
    ensures
        final(bindings).wf(),
        final(bindings).map() == bound(old(bindings).map(), client_mac@, observation@),
        r == as_count(bound_count(old(bindings).map(), client_mac@, observation@)),
{
    let ghost before = bindings.map();
    let ghost mac = client_mac@;
    let ghost p = observation@;
    let ghost fresh = |k: BindingKey, l: Lifetime| !stale(k, l, mac, p);
    let keep = |k: &BindingId, l: &Lifetime| -> (b: bool)
        ensures
            (b == fresh(k@, *l)),
    {
        !(l.expires_at <= observation.observed_at_ms && str_eq(
            k.client_mac.as_str(),
            client_mac.as_str(),
        ) && contains_ip(&observation.target_ips, k.target_ip))
    };
    bindings.retain(keep, Ghost(fresh));
    let ghost unchanged = |ip: Ipv4Address| !newer_known(before, binding_key(mac, ip, p), p);
    let mut updated: usize = 0;
    let mut i: usize = 0;
    proof {
        let done = observation.target_ips@.take(0).to_set();
        assert(done =~= Set::<Ipv4Address>::empty());
        assert(done.filter(unchanged) =~= Set::<Ipv4Address>::empty());
        assert(bindings.map() =~= bound_so_far(before, mac, p, done));
    }
    while i < observation.target_ips.len()
        invariant
            bindings.wf(),
            observation.wf(),
            i <= observation.target_ips@.len(),
            mac == client_mac@,
            p == observation@,
            unchanged == (|ip: Ipv4Address| !newer_known(before, binding_key(mac, ip, p), p)),
            bindings.map() == bound_so_far(
                before,
                mac,
                p,
                observation.target_ips@.take(i as int).to_set(),
            ),
            observation.target_ips@.take(i as int).to_set().finite(),
            updated == as_count(
                observation.target_ips@.take(i as int).to_set().filter(unchanged).len(),
            ),
        decreases observation.target_ips@.len() - i,
    {
        let ip = observation.target_ips[i];
        let ghost done = observation.target_ips@.take(i as int).to_set();
        let ghost next = observation.target_ips@.take(i + 1).to_set();
        let ghost key = binding_key(mac, ip, p);
        let ghost current = bindings.map();
        proof {
            assert(observation.target_ips@.take(i + 1) =~= observation.target_ips@.take(
                i as int,
            ).push(ip));
            lemma_push_to_set(observation.target_ips@.take(i as int), ip);
            assert(next == done.insert(ip));
            assert(!done.contains(ip)) by {
                if observation.target_ips@.take(i as int).contains(ip) {
                    let j = choose|j: int|
                        0 <= j < i && observation.target_ips@.take(i as int)[j] == ip;
                    assert(observation.target_ips@[j] == observation.target_ips@[i as int]);
                }
            }
            assert(p.target_ips.contains(ip));
            assert(current.dom().contains(key) == (before.dom().contains(key)
                && before[key].expires_at > p.observed_at_ms));
            if unchanged(ip) {
                assert(next.filter(unchanged) =~= done.filter(unchanged).insert(ip));
                assert(!done.filter(unchanged).contains(ip));
            } else {
                assert(next.filter(unchanged) =~= done.filter(unchanged));
            }
        }
        let id = BindingId {
            client_mac: client_mac.clone(),
            target_ip: ip,
            domain: observation.domain.clone(),
        };
        proof {
            assert(id@ =~= key);
        }
        let fresher = match bindings.get(&id) {
            Some(known) => observation.observed_at_ms >= known.associated_at,
            None => true,
        };
        proof {
            assert(fresher == unchanged(ip));
        }
        if fresher {
            bindings.insert(
                id,
                Lifetime {
                    associated_at: observation.observed_at_ms,
                    expires_at: observation.binding_expires_at,
                },
            );
            updated = updated.saturating_add(1);
        }
        proof {
            let want = bound_so_far(before, mac, p, next);
            assert forall|k: BindingKey| #[trigger]
                bindings.map().dom().contains(k) == want.dom().contains(k) by {
                if k == key {
                }
            }
            assert(bindings.map().dom() =~= want.dom());
            assert(bindings.map() =~= want);
        }
        i = i + 1;
    }
    proof {
        assert(observation.target_ips@.take(i as int) =~= observation.target_ips@);
        assert(bindings.map() =~= bound(before, mac, p));
    }
    updated
}

/// The bindings after the targets in `done` were handled.
spec fn bound_so_far(
    b: Map<BindingKey, Lifetime>,
    mac: Seq<char>,
    p: PendingView,
    done: Set<Ipv4Address>,
) -> Map<BindingKey, Lifetime> {
    Map::new(
        |k: BindingKey|
            (b.dom().contains(k) && !stale(k, b[k], mac, p)) || (bound_by(k, mac, p)
                && done.contains(k.target_ip)),
        |k: BindingKey|
            if bound_by(k, mac, p) && done.contains(k.target_ip) && !newer_known(b, k, p) {
                Lifetime { associated_at: p.observed_at_ms, expires_at: p.binding_expires_at }
            } else {
                b[k]
            },
    )
}

/// The one client that could have made an observation.
fn find_client(
    identities: &Table<String, ClientIdentityInterval>,
    observation: &PendingDnsObservation,
) -> (r: Option<String>)
    requires
        identities.wf(),
    ensures
        crate::text::opt_view(r) == client_of(identity_views(identities.map()), observation@),
{
    let ghost ids = identity_views(identities.map());
    let ghost p = observation@;
    let n: usize = identities.len();
    let mut candidate: Option<String> = None;
    let ghost mut witness: int = 0;
    let mut i: usize = 0;
    while i < n
        invariant
            identities.wf(),
            n == identities.entries().len(),
            i <= n,
            ids == identity_views(identities.map()),
            p == observation@,
            match candidate {
                None => forall|j: int|
                    0 <= j < i ==> !identifies((#[trigger] identities.entries()[j]).1@, p),
                Some(m) => {
                    &&& 0 <= witness < i
                    &&& identifies(identities.entries()[witness].1@, p)
                    &&& identities.entries()[witness].1.client_mac@ == m@
                    &&& forall|j: int|
                        0 <= j < i && identifies((#[trigger] identities.entries()[j]).1@, p)
                            ==> identities.entries()[j].1.client_mac@ == m@
                },
            },
        decreases n - i,
    {
        let (_, identity) = identities.at(i);
        if identity.client_ip == observation.client_ip && identity.first_seen
            <= observation.observed_at_ms && observation.observed_at_ms <= saturating_add_i64(
            identity.last_seen,
            IDENTITY_MATCH_GRACE_MS,
        ) {
            proof {
                assert(identifies(identities.entries()[i as int].1@, p));
            }
            match &candidate {
                None => {
                    candidate = Some(identity.client_mac.clone());
                    proof {
                        witness = i as int;
                    }
                },
                Some(mac) => {
                    if !str_eq(mac.as_str(), identity.client_mac.as_str()) {
                        proof {
                            identities.entry_in_map(witness);
                            identities.entry_in_map(i as int);
                            let a = identities.entries()[witness].0@;
                            let b = identities.entries()[i as int].0@;
                            assert(ids.dom().contains(a) && identifies(ids[a], p));
                            assert(ids.dom().contains(b) && identifies(ids[b], p));
                            assert forall|m: Seq<char>| !sole_client(ids, p, m) by {
                                assert(ids[a].client_mac != ids[b].client_mac);
                            }
                        }
                        return None;
                    }
                },
            }
        }
        i = i + 1;
    }
    proof {
        match &candidate {
            None => {
                assert forall|m: Seq<char>| !sole_client(ids, p, m) by {
                    if sole_client(ids, p, m) {
                        let k = choose|k: Seq<char>| #[trigger]
                            ids.dom().contains(k) && identifies(ids[k], p) && ids[k].client_mac
                                == m;
                        let j = identities.map_in_entries(k);
                        assert(!identifies(identities.entries()[j].1@, p));
                    }
                }
            },
            Some(mac) => {
                identities.entry_in_map(witness);
                let a = identities.entries()[witness].0@;
                assert(ids.dom().contains(a) && identifies(ids[a], p) && ids[a].client_mac == mac@);
                assert forall|k: Seq<char>| #[trigger]
                    ids.dom().contains(k) && identifies(ids[k], p) implies ids[k].client_mac
                    == mac@ by {
                    let j = identities.map_in_entries(k);
                    assert(identifies(identities.entries()[j].1@, p));
                }
                assert(sole_client(ids, p, mac@));
                let chosen = choose|m: Seq<char>| sole_client(ids, p, m);
                assert(sole_client(ids, p, chosen));
                assert(ids[a].client_mac == chosen);
            },
        }
    }
    candidate
}

/// Resolves waiting observations in order.
fn resolve_pending(
    bindings: &mut Table<BindingId, Lifetime>,
    identities: &Table<String, ClientIdentityInterval>,
    pending: &mut VecDeque<PendingDnsObservation>,
    now_ms: i64,
) -> (r: usize)
    requires
        old(bindings).wf(),
        identities.wf(),
        forall|i: int| 0 <= i < old(pending)@.len() ==> (#[trigger] old(pending)@[i]).wf(),
    ensures
        final(bindings).wf(),
        forall|i: int| 0 <= i < final(pending)@.len() ==> (#[trigger] final(pending)@[i]).wf(),
        final(pending)@.len() <= old(pending)@.len(),
        ({
            let want = resolved(
                old(bindings).map(),
                identity_views(identities.map()),
                pending_views(old(pending)@),
                now_ms,
            );
            &&& final(bindings).map() == want.bindings
            &&& pending_views(final(pending)@) == want.unresolved
            &&& r == as_count(want.updated)
        }),
{
    let ghost all = pending@;
    let ghost views = pending_views(all);
    let ghost ids = identity_views(identities.map());
    let ghost before = bindings.map();
    let mut waiting: VecDeque<PendingDnsObservation> = VecDeque::new();
    std::mem::swap(&mut waiting, pending);
    let mut unresolved: VecDeque<PendingDnsObservation> = VecDeque::new();
    let mut updated: usize = 0;
    let ghost mut n: int = 0;
    proof {
        assert(all.skip(0) =~= all);
        assert(views.take(0) =~= Seq::<PendingView>::empty());
        assert(pending_views(unresolved@) =~= Seq::<PendingView>::empty());
    }
    while waiting.len() > 0
        invariant
            0 <= n <= all.len(),
            waiting@ == all.skip(n),
            views == pending_views(all),
            ids == identity_views(identities.map()),
            bindings.wf(),
            identities.wf(),
            forall|i: int| 0 <= i < all.len() ==> (#[trigger] all[i]).wf(),
            forall|i: int| 0 <= i < unresolved@.len() ==> (#[trigger] unresolved@[i]).wf(),
            unresolved@.len() <= n,
            ({
                let want = resolved(before, ids, views.take(n), now_ms);
                &&& bindings.map() == want.bindings
                &&& pending_views(unresolved@) == want.unresolved
                &&& updated == as_count(want.updated)
            }),
        decreases waiting@.len(),
    {
        proof {
            assert(views.take(n + 1).drop_last() =~= views.take(n));
            assert(views.take(n + 1).last() == all[n]@);
            assert(all.skip(n).drop_first() =~= all.skip(n + 1));
            assert(all.skip(n)[0] == all[n]);
        }
        if let Some(observation) = waiting.pop_front() {
            proof {
                assert(observation == all[n]);
                assert(waiting@ =~= all.skip(n + 1));
            }
            if observation.pending_expires_at > now_ms && observation.binding_expires_at
                > now_ms {
                match find_client(identities, &observation) {
                    Some(mac) => {
                        let count: usize = add_domain_bindings(bindings, &mac, &observation);
                        updated = updated.saturating_add(count);
                    },
                    None => {
                        let ghost kept = unresolved@;
                        let ghost p = observation@;
                        unresolved.push_back(observation);
                        proof {
                            assert(pending_views(unresolved@) =~= pending_views(kept).push(p));
                        }
                    },
                }
            }
        }
        proof {
            n = n + 1;
        }
    }
    proof {
        assert(views.take(n) =~= views);
    }
    std::mem::swap(&mut unresolved, pending);
    updated
}

proof fn lemma_filter_push<A>(s: Seq<A>, x: A, f: spec_fn(A) -> bool)
    ensures
        s.push(x).filter(f) == if f(x) {
            s.filter(f).push(x)
        } else {
            s.filter(f)
        },
{
    reveal(Seq::filter);
    assert(s.push(x).drop_last() =~= s);
}

/// Keeps the waiting observations that `keep` accepts, in order.
fn retain_pending<F: Fn(&PendingDnsObservation) -> bool>(
    pending: &mut VecDeque<PendingDnsObservation>,
    keep: F,
    Ghost(waits): Ghost<spec_fn(PendingView) -> bool>,
)
    requires
        forall|p: &PendingDnsObservation| call_requires(keep, (p,)),
        forall|p: &PendingDnsObservation, b: bool| #[trigger]
            call_ensures(keep, (p,), b) ==> b == waits(p@),
        forall|i: int| 0 <= i < old(pending)@.len() ==> (#[trigger] old(pending)@[i]).wf(),
    ensures
        forall|i: int| 0 <= i < final(pending)@.len() ==> (#[trigger] final(pending)@[i]).wf(),
        final(pending)@.len() <= old(pending)@.len(),
        pending_views(final(pending)@) == pending_views(old(pending)@).filter(waits),
{
    let ghost all = pending@;
    let ghost views = pending_views(all);
    let mut rest: VecDeque<PendingDnsObservation> = VecDeque::new();
    std::mem::swap(&mut rest, pending);
    let mut kept: VecDeque<PendingDnsObservation> = VecDeque::new();
    let ghost mut n: int = 0;
    proof {
        assert(all.skip(0) =~= all);
        reveal(Seq::filter);
        assert(views.take(0).filter(waits) =~= Seq::<PendingView>::empty());
        assert(pending_views(kept@) =~= Seq::<PendingView>::empty());
    }
    while rest.len() > 0
        invariant
            0 <= n <= all.len(),
            rest@ == all.skip(n),
            views == pending_views(all),
            forall|p: &PendingDnsObservation| call_requires(keep, (p,)),
            forall|p: &PendingDnsObservation, b: bool| #[trigger]
                call_ensures(keep, (p,), b) ==> b == waits(p@),
            forall|i: int| 0 <= i < all.len() ==> (#[trigger] all[i]).wf(),
            forall|i: int| 0 <= i < kept@.len() ==> (#[trigger] kept@[i]).wf(),
            kept@.len() <= n,
            pending_views(kept@) == views.take(n).filter(waits),
        decreases rest@.len(),
    {
        proof {
            assert(views.take(n + 1) =~= views.take(n).push(all[n]@));
            lemma_filter_push(views.take(n), all[n]@, waits);
            assert(all.skip(n).drop_first() =~= all.skip(n + 1));
            assert(all.skip(n)[0] == all[n]);
        }
        if let Some(observation) = rest.pop_front() {
            proof {
                assert(observation == all[n]);
                assert(rest@ =~= all.skip(n + 1));
            }
            if keep(&observation) {
                let ghost before = kept@;
                let ghost p = observation@;
                kept.push_back(observation);
                proof {
                    assert(pending_views(kept@) =~= pending_views(before).push(p));
                }
            }
        }
        proof {
            n = n + 1;
        }
    }
    proof {
        assert(views.take(n) =~= views);
    }
    std::mem::swap(&mut kept, pending);
}

impl DnsAttributionCache {
    /// The keys are distinct, no target is listed twice and the waiting list is bounded.
    pub closed spec fn wf(&self) -> bool {
        &&& self.bindings.wf()
        &&& self.identities.wf()
        &&& forall|i: int| 0 <= i < self.pending@.len() ==> (#[trigger] self.pending@[i]).wf()
        &&& self.pending@.len() <= 4_096
    }

    /// What a well-formed cache keeps to: finitely many bindings and identities, and at most 4096
    /// waiting observations.
    pub proof fn cache_is_bounded(&self)
        requires
            self.wf(),
        ensures
            self@.bindings.dom().finite(),
            self@.identities.dom().finite(),
            self@.pending.len() <= 4_096,
    {
        self.bindings.map_size();
        self.identities.map_size();
        assert(self@.identities.dom() =~= self.identities.map().dom());
    }

    /// An empty cache.
    pub fn new() -> (r: Self)
        ensures
            r.wf(),
            r@ == (CacheView {
                bindings: Map::empty(),
                identities: Map::empty(),
                pending: Seq::empty(),
            }),
    {
        let r = DnsAttributionCache {
            bindings: Table::new(),
            identities: Table::new(),
            pending: VecDeque::new(),
        };
        proof {
            assert(r@.identities =~= Map::<Seq<char>, IdentityView>::empty());
            assert(r@.pending =~= Seq::<PendingView>::empty());
        }
        r
    }

    /// The number of bindings.
    pub fn binding_count(&self) -> (r: usize)
        requires
            self.wf(),
        ensures
            r == self@.bindings.len(),
    {
        self.bindings.len()
    }

    /// The number of identities.
    pub fn identity_count(&self) -> (r: usize)
        requires
            self.wf(),
        ensures
            r == self@.identities.len(),
    {
        proof {
            assert(self@.identities.dom() =~= self.identities.map().dom());
        }
        self.identities.len()
    }

    /// The number of waiting observations.
    pub fn pending_count(&self) -> (r: usize)
        ensures
            r == self@.pending.len(),
    {
        self.pending.len()
    }

    /// The domain of a waiting observation, the oldest first.
    pub fn pending_domain(&self, i: usize) -> (r: String)
        requires
            i < self@.pending.len(),
        ensures
            r@ == self@.pending[i as int].domain,
    {
        self.pending[i].domain.clone()
    }

    /// Removes what has expired and tells how many things that were.
    pub fn purge_expired(&mut self, now_ms: i64) -> (r: usize)
        requires
            old(self).wf(),
        ensures
            final(self).wf(),
            final(self)@ == purged(old(self)@, now_ms),
            cache_size(final(self)@) <= cache_size(old(self)@),
            r == as_count((cache_size(old(self)@) - cache_size(final(self)@)) as nat),
    {
        let ghost before = self@;
        let bindings_before: usize = self.binding_count();
        let identities_before: usize = self.identity_count();
        let pending_before: usize = self.pending.len();
        let ghost live = |k: BindingKey, l: Lifetime| l.expires_at > now_ms;
        let keep_binding = |k: &BindingId, l: &Lifetime| -> (b: bool)
            ensures
                (b == live(k@, *l)),
        {
            l.expires_at > now_ms
        };
        self.bindings.retain(keep_binding, Ghost(live));
        let cutoff: i64 = saturating_sub_i64(now_ms, IDENTITY_IDLE_RETENTION_MS);
        let ghost fresh = |k: Seq<char>, v: ClientIdentityInterval| v.last_seen >= cutoff;
        let keep_identity = |k: &String, v: &ClientIdentityInterval| -> (b: bool)
            ensures
                (b == fresh(k@, *v)),
        {
            v.last_seen >= cutoff
        };
        self.identities.retain(keep_identity, Ghost(fresh));
        let ghost waits = |p: PendingView| still_waits(p, now_ms);
        let keep_pending = |p: &PendingDnsObservation| -> (b: bool)
            ensures
                (b == waits(p@)),
        {
            p.pending_expires_at > now_ms && p.binding_expires_at > now_ms
        };
        retain_pending(&mut self.pending, keep_pending, Ghost(waits));
        proof {
            assert(self@.bindings =~= live_bindings(before.bindings, now_ms));
            assert(self@.identities =~= fresh_identities(before.identities, now_ms));
            old(self).cache_is_bounded();
            vstd::set_lib::lemma_len_subset(self@.bindings.dom(), before.bindings.dom());
            vstd::set_lib::lemma_len_subset(self@.identities.dom(), before.identities.dom());
        }
        let bindings_removed: usize = bindings_before - self.binding_count();
        let identities_removed: usize = identities_before - self.identity_count();
        let pending_removed: usize = pending_before - self.pending.len();
        bindings_removed.saturating_add(identities_removed).saturating_add(pending_removed)
    }

    /// Forgets what is known of a device: its bindings and its addresses.
    pub fn purge_device_data(&mut self, mac_address: &str)
        requires
            old(self).wf(),
        ensures
            final(self).wf(),
            final(self)@ == without_device(old(self)@, mac_address@),
    {
        let ghost before = self@;
        let mac = match normalize_mac(mac_address) {
            Some(mac) => mac,
            None => {
                proof {
                    assert(self@ =~= without_device(before, mac_address@));
                }
                return;
            },
        };
        let ghost other = |k: BindingKey, l: Lifetime| k.client_mac != mac@;
        let keep_binding = |k: &BindingId, l: &Lifetime| -> (b: bool)
            ensures
                (b == other(k@, *l)),
        {
            !str_eq(k.client_mac.as_str(), mac.as_str())
        };
        self.bindings.retain(keep_binding, Ghost(other));
        let ghost others = |k: Seq<char>, v: ClientIdentityInterval| v.client_mac@ != mac@;
        let keep_identity = |k: &String, v: &ClientIdentityInterval| -> (b: bool)
            ensures
                (b == others(k@, *v)),
        {
            !str_eq(v.client_mac.as_str(), mac.as_str())
        };
        self.identities.retain(keep_identity, Ghost(others));
        proof {
            let want = without_device(before, mac_address@);
            assert(self@.bindings =~= want.bindings);
            assert(self@.identities =~= want.identities);
        }
    }

    /// Forgets a domain, for one device or for all. Observations that still wait are not of any
    /// device yet: they are only dropped where the domain is forgotten for all.
    pub fn purge_domain_data(&mut self, mac_address: Option<&str>, domain: &str)
        requires
            old(self).wf(),
        ensures
            final(self).wf(),
            final(self)@ == without_domain(
                old(self)@,
                crate::storage::opt_str_view(mac_address),
                domain@,
            ),
    {
        let ghost before = self@;
        let ghost mac = crate::storage::opt_str_view(mac_address);
        let client: Option<String> = match mac_address {
            Some(text) => normalize_mac(text),
            None => None,
        };
        let all = mac_address.is_none();
        let ghost kept = |k: BindingKey, l: Lifetime| !names(k, mac, domain@);
        let keep_binding = |k: &BindingId, l: &Lifetime| -> (b: bool)
            ensures
                (b == kept(k@, *l)),
        {
            let meant = all || match &client {
                Some(client) => str_eq(k.client_mac.as_str(), client.as_str()),
                None => false,
            };
            !(meant && str_eq(k.domain.as_str(), domain))
        };
        self.bindings.retain(keep_binding, Ghost(kept));
        if all {
            let ghost waits = |p: PendingView| p.domain != domain@;
            let keep_pending = |p: &PendingDnsObservation| -> (b: bool)
                ensures
                    (b == waits(p@)),
            {
                !str_eq(p.domain.as_str(), domain)
            };
            retain_pending(&mut self.pending, keep_pending, Ghost(waits));
        }
        proof {
            let want = without_domain(before, mac, domain@);
            assert(self@.bindings =~= want.bindings);
        }
    }

    /// Forgets what was observed in a range of time.
    pub fn purge_data_range(&mut self, range: DataTimeRange)
        requires
            old(self).wf(),
        ensures
            final(self).wf(),
            final(self)@ == without_range(old(self)@, range.from_ms, range.to_ms),
    {
        let ghost before = self@;
        let ghost outside = |k: BindingKey, l: Lifetime|
            !(range.from_ms <= l.associated_at < range.to_ms);
        let keep_binding = |k: &BindingId, l: &Lifetime| -> (b: bool)
            ensures
                (b == outside(k@, *l)),
        {
            !(range.from_ms <= l.associated_at && l.associated_at < range.to_ms)
        };
        self.bindings.retain(keep_binding, Ghost(outside));
        let ghost waits = |p: PendingView| !(range.from_ms <= p.observed_at_ms < range.to_ms);
        let keep_pending = |p: &PendingDnsObservation| -> (b: bool)
            ensures
                (b == waits(p@)),
        {
            !(range.from_ms <= p.observed_at_ms && p.observed_at_ms < range.to_ms)
        };
        retain_pending(&mut self.pending, keep_pending, Ghost(waits));
        proof {
            let want = without_range(before, range.from_ms, range.to_ms);
            assert(self@.bindings =~= want.bindings);
        }
    }

    /// Appends an observation to the waiting list, dropping the oldest where the list is full.
    fn enqueue_pending(&mut self, observation: PendingDnsObservation)
        requires
            old(self).wf(),
            observation.wf(),
        ensures
            final(self).wf(),
            final(self)@ == (CacheView {
                pending: enqueued(old(self)@.pending, observation@),
                ..old(self)@
            }),
    {
        let ghost all = self.pending@;
        let ghost mut n: int = 0;
        proof {
            assert(all.skip(0) =~= all);
        }
        while self.pending.len() >= MAX_PENDING_OBSERVATIONS
            invariant
                0 <= n <= all.len(),
                all.len() <= 4_096,
                n > 0 ==> n == all.len() - 4_095,
                self.pending@ == all.skip(n),
                self.bindings == old(self).bindings,
                self.identities == old(self).identities,
                forall|i: int| 0 <= i < all.len() ==> (#[trigger] all[i]).wf(),
            decreases self.pending@.len(),
        {
            proof {
                assert(all.skip(n).drop_first() =~= all.skip(n + 1));
            }
            self.pending.pop_front();
            proof {
                assert(self.pending@ =~= all.skip(n + 1));
                n = n + 1;
            }
        }
        let ghost kept = self.pending@;
        let ghost p = observation@;
        self.pending.push_back(observation);
        proof {
            assert(self@.pending =~= enqueued(old(self)@.pending, p));
        }
    }

    /// Resolves the waiting observations.
    fn settle(&mut self, now_ms: i64) -> (r: usize)
        requires
            old(self).wf(),
        ensures
            final(self).wf(),
            final(self)@ == settled(old(self)@, now_ms),
            r == as_count(settled_count(old(self)@, now_ms)),
    {
        resolve_pending(&mut self.bindings, &self.identities, &mut self.pending, now_ms)
    }

    /// Takes in a batch of observations: what has expired is removed first, then the batch joins
    /// the waiting list, which is resolved. Returns how many bindings were made or renewed.
    pub fn ingest_observations(
        &mut self,
        observations: Vec<DnsObservation>,
        now_ms: i64,
    ) -> (r: usize)
        requires
            old(self).wf(),
        ensures
            final(self).wf(),
            final(self)@ == ingested(old(self)@, observation_views(observations@), now_ms),
            r == as_count(
                ingested_count(old(self)@, observation_views(observations@), now_ms),
            ),
    {
        let ghost batch = observation_views(observations@);
        let ghost start = self@;
        let ghost base = purged(start, now_ms);
        let mut prepared_any = false;
        let mut i: usize = 0;
        while i < observations.len()
            invariant
                batch == observation_views(observations@),
                base == purged(start, now_ms),
                i <= observations@.len(),
                self.wf(),
                prepared_any == any_prepared(batch.take(i as int)),
                !prepared_any ==> self@ == start,
                prepared_any ==> self@ == (CacheView {
                    pending: enqueued_all(base.pending, batch.take(i as int)),
                    ..base
                }),
                !prepared_any ==> enqueued_all(base.pending, batch.take(i as int)) == base.pending,
            decreases observations@.len() - i,
        {
            proof {
                assert(batch.take(i + 1).drop_last() =~= batch.take(i as int));
                assert(batch.take(i + 1).last() == observations@[i as int]@);
                lemma_any_prepared(batch, i as int);
            }
            if let Some(observation) = prepare_observation(observations[i].clone()) {
                if !prepared_any {
                    self.purge_expired(now_ms);
                    prepared_any = true;
                }
                self.enqueue_pending(observation);
            }
            i = i + 1;
        }
        proof {
            assert(batch.take(i as int) =~= batch);
        }
        if !prepared_any {
            return 0;
        }
        self.settle(now_ms)
    }

    /// Takes in what a source has observed. An error of the source leaves the cache as it was.
    pub fn collect_from<S: DnsObservationSource>(
        &mut self,
        source: &mut S,
        now_ms: i64,
    ) -> (r: Result<usize, String>)
        requires
            old(self).wf(),
        ensures
            final(self).wf(),
            exists|asked: &mut S, got: Result<Vec<DnsObservation>, String>| #[trigger]
                call_ensures(S::collect, (asked,), got) && *asked == *old(source) && *final(asked)
                    == *final(source) && taken_in(old(self)@, final(self)@, got, now_ms, r),
    {
        match source.collect() {
            Ok(observations) => Ok(self.ingest_observations(observations, now_ms)),
            Err(error) => Err(error),
        }
    }

    /// Takes in one observation at the time at which it was made.
    pub fn observe(&mut self, observation: DnsObservation) -> (r: usize)
        requires
            old(self).wf(),
        ensures
            final(self).wf(),
            final(self)@ == ingested(
                old(self)@,
                seq![observation@],
                observation.observed_at_ms,
            ),
            r == as_count(
                ingested_count(old(self)@, seq![observation@], observation.observed_at_ms),
            ),
    {
        let now_ms: i64 = observation.observed_at_ms;
        let ghost o = observation@;
        let mut batch: Vec<DnsObservation> = Vec::new();
        batch.push(observation);
        proof {
            assert(observation_views(batch@) =~= seq![o]);
        }
        self.ingest_observations(batch, now_ms)
    }
}

/// Whether a longer batch holds something worth keeping.
proof fn lemma_any_prepared(batch: Seq<ObservationView>, i: int)
    requires
        0 <= i < batch.len(),
    ensures
        any_prepared(batch.take(i + 1)) == (any_prepared(batch.take(i)) || prepared(
            batch[i],
        ) is Some),
{
    let a = batch.take(i);
    let b = batch.take(i + 1);
    if any_prepared(a) {
        let j = choose|j: int| 0 <= j < a.len() && prepared(#[trigger] a[j]) is Some;
        assert(b[j] == a[j]);
    }
    if prepared(batch[i]) is Some {
        assert(b[i] == batch[i]);
    }
    if any_prepared(b) {
        let j = choose|j: int| 0 <= j < b.len() && prepared(#[trigger] b[j]) is Some;
        if j < i {
            assert(a[j] == b[j]);
        }
    }
}

/// The cache after the identities of a list of flows were learned.
pub open spec fn taught(
    c: CacheView,
    flows: Seq<crate::domain::FlowView>,
    now: i64,
) -> CacheView {
    let p = purged(c, now);
    settled(CacheView { identities: learned(p.identities, flows, now).0, ..p }, now)
}

impl DnsAttributionCache {
    /// Learns which client used which address from observed flows, and resolves the waiting
    /// observations again. Returns how many flows taught an identity.
    pub fn learn_flow_identities(&mut self, flows: &[Flow], now_ms: i64) -> (r: usize)
        requires
            old(self).wf(),
        ensures
            final(self).wf(),
            final(self)@ == taught(old(self)@, flow_views(flows@), now_ms),
            r == learned(
                purged(old(self)@, now_ms).identities,
                flow_views(flows@),
                now_ms,
            ).1,
    {
        let ghost views = flow_views(flows@);
        self.purge_expired(now_ms);
        let ghost base = self@;
        let cutoff: i64 = saturating_sub_i64(now_ms, IDENTITY_IDLE_RETENTION_MS);
        let mut count: usize = 0;
        let mut i: usize = 0;
        while i < flows.len()
            invariant
                self.wf(),
                views == flow_views(flows@),
                i <= flows@.len(),
                count <= i,
                cutoff == crate::num::clamp_i64(now_ms - 300_000),
                self@ == (CacheView {
                    identities: learned(base.identities, views.take(i as int), now_ms).0,
                    ..base
                }),
                count == learned(base.identities, views.take(i as int), now_ms).1,
            decreases flows@.len() - i,
        {
            let flow = &flows[i];
            proof {
                assert(views.take(i + 1).drop_last() =~= views.take(i as int));
                assert(views.take(i + 1).last() == flow@);
            }
            if let Some(client_ip) = Ipv4Address::parse(flow.client_ip.as_str()) {
                if let Some(client_mac) = normalize_mac(flow.client_mac.as_str()) {
                    if !is_blank(&flow.flow_id) && flow.first_seen <= flow.last_seen
                        && flow.last_seen >= cutoff {
                        let ghost before = self.identities.map();
                        let identity = ClientIdentityInterval {
                            client_ip,
                            client_mac,
                            first_seen: flow.first_seen,
                            last_seen: flow.last_seen,
                        };
                        let ghost id = identity;
                        proof {
                            assert(id@ =~= identity_of(flow@));
                        }
                        self.identities.insert(flow.flow_id.clone(), identity);
                        count = count + 1;
                        proof {
                            assert(identity_views(self.identities.map()) =~= identity_views(
                                before,
                            ).insert(flow.flow_id@, id@));
                        }
                    }
                }
            }
            i = i + 1;
        }
        proof {
            assert(views.take(i as int) =~= views);
        }
        self.settle(now_ms);
        count
    }

    /// Attributes a flow to the domain of the one binding that covers it. A flow that none or
    /// several cover stays as it is.
    pub fn attribute_flow(&self, flow: &mut Flow) -> (r: bool)
        requires
            self.wf(),
        ensures
            final(flow)@ == attributed(self@.bindings, old(flow)@),
            *final(flow) == (Flow { domain: final(flow).domain, ..*old(flow) }),
            r == attribution_of(self@.bindings, old(flow)@) is Some,
    {
        let ghost b = self.bindings.map();
        let ghost f = flow@;
        let client_mac = match normalize_mac(flow.client_mac.as_str()) {
            Some(mac) => mac,
            None => {
                return false;
            },
        };
        let destination_ip = match Ipv4Address::parse(flow.destination_ip.as_str()) {
            Some(ip) => ip,
            None => {
                return false;
            },
        };
        let n: usize = self.bindings.len();
        let mut found: Option<usize> = None;
        let mut i: usize = 0;
        while i < n
            invariant
                self.wf(),
                n == self.bindings.entries().len(),
                i <= n,
                b == self.bindings.map(),
                f == old(flow)@,
                *flow == *old(flow),
                mac_of(f.client_mac) == Some(client_mac@),
                crate::addr::ipv4_of(f.destination_ip) == Some(destination_ip),
                match found {
                    None => forall|j: int|
                        0 <= j < i ==> !covers(
                            (#[trigger] self.bindings.entries()[j]).0@,
                            self.bindings.entries()[j].1,
                            f,
                        ),
                    Some(w) => {
                        &&& w < i
                        &&& covers(
                            self.bindings.entries()[w as int].0@,
                            self.bindings.entries()[w as int].1,
                            f,
                        )
                        &&& forall|j: int|
                            0 <= j < i && j != w ==> !covers(
                                (#[trigger] self.bindings.entries()[j]).0@,
                                self.bindings.entries()[j].1,
                                f,
                            )
                    },
                },
            decreases n - i,
        {
            let (id, life) = self.bindings.at(i);
            if id.target_ip == destination_ip && life.associated_at <= flow.last_seen
                && flow.first_seen < life.expires_at && str_eq(
                id.client_mac.as_str(),
                client_mac.as_str(),
            ) {
                match found {
                    None => {
                        found = Some(i);
                    },
                    Some(w) => {
                        proof {
                            self.bindings.entry_in_map(w as int);
                            self.bindings.entry_in_map(i as int);
                            let x = self.bindings.entries()[w as int].0@;
                            let y = self.bindings.entries()[i as int].0@;
                            self.bindings.entries_differ(w as int, i as int);
                            assert(b.dom().contains(x) && covers(x, b[x], f));
                            assert(b.dom().contains(y) && covers(y, b[y], f));
                            assert forall|k: BindingKey| !sole_cover(b, f, k) by {}
                        }
                        return false;
                    },
                }
            }
            i = i + 1;
        }
        match found {
            None => {
                proof {
                    assert forall|k: BindingKey| !sole_cover(b, f, k) by {
                        if sole_cover(b, f, k) {
                            let j = self.bindings.map_in_entries(k);
                        }
                    }
                }
                false
            },
            Some(w) => {
                let (id, life) = self.bindings.at(w);
                flow.domain = Some(
                    DomainAttribution {
                        domain: id.domain.clone(),
                        source: DomainSource::Dns,
                        confidence: DomainConfidence::High,
                        associated_at: life.associated_at,
                        expires_at: Some(life.expires_at),
                    },
                );
                proof {
                    self.bindings.entry_in_map(w as int);
                    let x = id@;
                    assert(b.dom().contains(x) && covers(x, b[x], f));
                    assert forall|o: BindingKey| #[trigger]
                        b.dom().contains(o) && covers(o, b[o], f) implies o == x by {
                        let j = self.bindings.map_in_entries(o);
                    }
                    assert(sole_cover(b, f, x));
                    let chosen = choose|k: BindingKey| sole_cover(b, f, k);
                    assert(sole_cover(b, f, chosen));
                    assert(chosen == x);
                }
                true
            },
        }
    }

    /// Attributes each flow of a list. Returns how many were attributed.
    pub fn attribute_flows(&self, flows: &mut Vec<Flow>) -> (r: usize)
        requires
            self.wf(),
        ensures
            final(flows)@.len() == old(flows)@.len(),
            forall|i: int|
                #![trigger final(flows)@[i]]
                0 <= i < old(flows)@.len() ==> final(flows)@[i]@ == attributed(
                    self@.bindings,
                    old(flows)@[i]@,
                ) && final(flows)@[i] == (Flow {
                    domain: final(flows)@[i].domain,
                    ..old(flows)@[i]
                }),
            r == flow_views(old(flows)@).filter(
                |f: crate::domain::FlowView| attribution_of(self@.bindings, f) is Some,
            ).len(),
    {
        let ghost all = flows@;
        let ghost views = flow_views(all);
        let ghost hit = |f: crate::domain::FlowView| attribution_of(self@.bindings, f) is Some;
        let mut count: usize = 0;
        let mut i: usize = 0;
        proof {
            reveal(Seq::filter);
            assert(views.take(0).filter(hit).len() == 0);
        }
        while i < flows.len()
            invariant
                self.wf(),
                all.len() == flows@.len(),
                i <= all.len(),
                views == flow_views(all),
                hit == (|f: crate::domain::FlowView| attribution_of(self@.bindings, f) is Some),
                count <= i,
                count == views.take(i as int).filter(hit).len(),
                forall|j: int|
                    #![trigger flows@[j]]
                    0 <= j < i ==> flows@[j]@ == attributed(self@.bindings, all[j]@) && flows@[j]
                        == (Flow { domain: flows@[j].domain, ..all[j] }),
                forall|j: int| i <= j < all.len() ==> flows@[j] == all[j],
            decreases all.len() - i,
        {
            proof {
                assert(views.take(i + 1) =~= views.take(i as int).push(all[i as int]@));
                lemma_filter_push(views.take(i as int), all[i as int]@, hit);
            }
            let attributed = self.attribute_flow(&mut flows[i]);
            if attributed {
                count = count + 1;
            }
            i = i + 1;
        }
        proof {
            assert(views.take(i as int) =~= views);
        }
        count
    }
}

} // verus!
