//! The NAT table: which destination a redirected source port was meant for.
use crate::ipv4::Ipv4Addr;
use dashmap::DashMap;
use vstd::prelude::*;

verus! {

/// The two protocols that are redirected.
#[derive(Debug, Clone, Copy, PartialEq, Eq, Hash, Structural)]
pub enum Protocol {
    Tcp,
    Udp,
}

/// What an entry is found by.
#[derive(Debug, Clone, Copy, PartialEq, Eq, Hash, Structural)]
pub struct NatKey {
    pub protocol: Protocol,
    pub src_port: u16,
}

impl NatKey {
    /// The key of a TCP port.
    pub fn tcp(port: u16) -> (r: NatKey)
        ensures
            r == (NatKey { protocol: Protocol::Tcp, src_port: port }),
    {
        NatKey { protocol: Protocol::Tcp, src_port: port }
    }

    /// The key of a UDP port.
    pub fn udp(port: u16) -> (r: NatKey)
        ensures
            r == (NatKey { protocol: Protocol::Udp, src_port: port }),
    {
        NatKey { protocol: Protocol::Udp, src_port: port }
    }
}

/// Where a redirected flow was going, and from which address.
#[derive(Debug, Clone, Copy, PartialEq, Eq)]
pub struct OriginalDest {
    pub ip: Ipv4Addr,
    pub port: u16,
    pub src_ip: Ipv4Addr,
    /// The resolver that was asked, where the query goes to another one.
    pub dns_restore_ip: Option<Ipv4Addr>,
    /// When the flow was last seen, in nanoseconds of a monotonic clock.
    pub last_seen: u64,
}

impl OriginalDest {
    /// A destination seen at `now`, with no resolver to restore.
    pub fn new(ip: Ipv4Addr, port: u16, src_ip: Ipv4Addr, now: u64) -> (r: OriginalDest)
        ensures
            r == (OriginalDest { ip, port, src_ip, dns_restore_ip: None, last_seen: now }),
    {
        OriginalDest { ip, port, src_ip, dns_restore_ip: None, last_seen: now }
    }
}

/// The time from `since` to `now`, none if `since` is the later.
pub open spec fn elapsed(now: u64, since: u64) -> int {
    if now >= since {
        now - since
    } else {
        0
    }
}

/// Whether an entry has outlived `max_age`: only UDP entries do, those of TCP end with their
/// connection.
pub open spec fn is_stale(key: NatKey, dest: OriginalDest, now: u64, max_age: u64) -> bool {
    key.protocol == Protocol::Udp && elapsed(now, dest.last_seen) > max_age
}

/// `dashmap::DashMap`, a hash map.
#[verifier::external_type_specification]
#[verifier::external_body]
#[verifier::reject_recursive_types(K)]
#[verifier::reject_recursive_types(V)]
#[verifier::reject_recursive_types(S)]
pub struct ExDashMap<K, V, S>(DashMap<K, V, S>);

/// Names what a map holds. A key is whether the protocol is UDP, and the port.
pub uninterp spec fn entries_of(map: DashMap<(bool, u16), OriginalDest>) -> Map<
    (bool, u16),
    OriginalDest,
>;

/// `DashMap::new`: a map that holds nothing.
#[verifier::external_body]
fn map_new() -> (map: DashMap<(bool, u16), OriginalDest>)
    ensures
        entries_of(map).is_empty(),
{
    DashMap::new()
}

/// `DashMap::insert`: puts the value under the key, and gives what stood there.
#[verifier::external_body]
fn map_insert(
    map: &mut DashMap<(bool, u16), OriginalDest>,
    key: (bool, u16),
    dest: OriginalDest,
) -> (r: Option<OriginalDest>)
    ensures
        entries_of(*final(map)) == entries_of(*old(map)).insert(key, dest),
        r == entries_of(*old(map)).get(key),
{
    map.insert(key, dest)
}

/// `DashMap::get`: a guard on the value under the key, which is copied out.
#[verifier::external_body]
fn map_get(map: &DashMap<(bool, u16), OriginalDest>, key: (bool, u16)) -> (r: Option<OriginalDest>)
    ensures
        r == entries_of(*map).get(key),
{
    match map.get(&key) {
        Some(entry) => Some(*entry.value()),
        None => None,
    }
}

/// `DashMap::get_mut`: a guard on the value under the key, through which the value is replaced;
/// without such a key, nothing happens.
#[verifier::external_body]
fn map_replace(
    map: &mut DashMap<(bool, u16), OriginalDest>,
    key: (bool, u16),
    dest: OriginalDest,
) -> (found: bool)
    ensures
        found == entries_of(*old(map)).contains_key(key),
        entries_of(*final(map)) == (if found {
            entries_of(*old(map)).insert(key, dest)
        } else {
            entries_of(*old(map))
        }),
{
    match map.get_mut(&key) {
        Some(mut entry) => {
            *entry.value_mut() = dest;
            true
        },
        None => false,
    }
}

/// `DashMap::remove`: takes the key out, and gives what stood under it.
#[verifier::external_body]
fn map_remove(map: &mut DashMap<(bool, u16), OriginalDest>, key: (bool, u16)) -> (r: Option<
    OriginalDest,
>)
    ensures
        entries_of(*final(map)) == entries_of(*old(map)).remove(key),
        r == entries_of(*old(map)).get(key),
{
    match map.remove(&key) {
        Some((_, dest)) => Some(dest),
        None => None,
    }
}

/// `DashMap::retain`: keeps the entries for which the closure says so, with their values.
#[verifier::external_body]
fn map_retain_fresh(map: &mut DashMap<(bool, u16), OriginalDest>, now: u64, max_age: u64)
    ensures
        entries_of(*final(map)) == fresh_entries(entries_of(*old(map)), now, max_age),
{
    map.retain(|code, dest| is_fresh(*code, *dest, now, max_age));
}

/// `DashMap::clear`: takes every entry out.
#[verifier::external_body]
fn map_clear(map: &mut DashMap<(bool, u16), OriginalDest>)
    ensures
        entries_of(*final(map)).is_empty(),
{
    map.clear()
}

/// `DashMap::len`: the number of entries, which are finitely many.
#[verifier::external_body]
fn map_len(map: &DashMap<(bool, u16), OriginalDest>) -> (n: usize)
    ensures
        is_count(entries_of(*map), n as nat),
{
    map.len()
}

/// Whether there are `n` entries, and no more.
pub open spec fn is_count(entries: Map<(bool, u16), OriginalDest>, n: nat) -> bool {
    entries.dom().finite() && entries.len() == n
}

/// The form in which a key stands in the map.
pub open spec fn code_of(key: NatKey) -> (bool, u16) {
    (key.protocol == Protocol::Udp, key.src_port)
}

/// The key that a code stands for.
pub open spec fn key_of(code: (bool, u16)) -> NatKey {
    NatKey {
        protocol: if code.0 {
            Protocol::Udp
        } else {
            Protocol::Tcp
        },
        src_port: code.1,
    }
}

/// The entries that are not stale.
pub open spec fn fresh_entries(
    entries: Map<(bool, u16), OriginalDest>,
    now: u64,
    max_age: u64,
) -> Map<(bool, u16), OriginalDest> {
    entries.restrict(
        Set::new(|code: (bool, u16)| !is_stale(key_of(code), entries[code], now, max_age)),
    )
}

fn code(key: &NatKey) -> (r: (bool, u16))
    ensures
        r == code_of(*key),
{
    (key.protocol == Protocol::Udp, key.src_port)
}

/// Whether an entry stays when stale ones are reaped.
fn is_fresh(code: (bool, u16), dest: OriginalDest, now: u64, max_age: u64) -> (r: bool)
    ensures
        r == !is_stale(key_of(code), dest, now, max_age),
{
    !(code.0 && now.saturating_sub(dest.last_seen) > max_age)
}

/// The table of redirected flows.
pub struct NatTable {
    inner: DashMap<(bool, u16), OriginalDest>,
}

impl View for NatTable {
    type V = Map<NatKey, OriginalDest>;

    closed spec fn view(&self) -> Map<NatKey, OriginalDest> {
        Map::new(
            |key: NatKey| entries_of(self.inner).contains_key(code_of(key)),
            |key: NatKey| entries_of(self.inner)[code_of(key)],
        )
    }
}

impl NatTable {
    /// The empty table.
    pub fn new() -> (r: NatTable)
        ensures
            r@ == Map::<NatKey, OriginalDest>::empty(),
    {
        NatTable { inner: map_new() }
    }

    /// Enters a flow, in place of what stood under its key.
    pub fn insert(&mut self, key: NatKey, dest: OriginalDest)
        ensures
            final(self)@ == old(self)@.insert(key, dest),
    {
        map_insert(&mut self.inner, code(&key), dest);
        proof {
            lemma_codes_distinct();
        }
    }

    /// The destination of a flow.
    pub fn lookup(&self, key: &NatKey) -> (r: Option<OriginalDest>)
        ensures
            r == self@.get(*key),
    {
        map_get(&self.inner, code(key))
    }

    /// Takes a flow out.
    pub fn remove(&mut self, key: &NatKey) -> (r: Option<OriginalDest>)
        ensures
            final(self)@ == old(self)@.remove(*key),
            r == old(self)@.get(*key),
    {
        let r = map_remove(&mut self.inner, code(key));
        proof {
            lemma_codes_distinct();
        }
        r
    }

    /// Marks a flow as seen at `now`; does nothing where there is none.
    pub fn touch(&mut self, key: &NatKey, now: u64)
        ensures
            final(self)@ == touched(old(self)@, *key, now),
    {
        if let Some(dest) = self.lookup(key) {
            map_replace(&mut self.inner, code(key), OriginalDest { last_seen: now, ..dest });
        }
        proof {
            lemma_codes_distinct();
        }
    }

    /// Takes out the UDP flows that were last seen more than `max_age` ago.
    pub fn reap_stale(&mut self, max_age: u64, now: u64)
        ensures
            final(self)@ == without_stale(old(self)@, now, max_age),
    {
        map_retain_fresh(&mut self.inner, now, max_age);
        proof {
            lemma_codes_distinct();
        }
    }

    /// Takes every flow out.
    pub fn clear(&mut self)
        ensures
            final(self)@ == Map::<NatKey, OriginalDest>::empty(),
    {
        map_clear(&mut self.inner);
    }

    /// The number of flows.
    pub fn len(&self) -> (n: usize)
        ensures
            self@.dom().finite(),
            n == self@.len(),
    {
        let n = map_len(&self.inner);
        proof {
            lemma_codes_distinct();
            let codes = entries_of(self.inner).dom();
            let keys = codes.map(|code: (bool, u16)| key_of(code));
            codes.lemma_map_finite(|code: (bool, u16)| key_of(code));
            vstd::set_lib::lemma_map_size(codes, keys, |code: (bool, u16)| key_of(code));
            assert forall|key: NatKey| #[trigger] self@.dom().contains(key) implies keys.contains(
                key,
            ) by {
                assert(codes.contains(code_of(key)));
            }
            assert(self@.dom() =~= keys);
        }
        n
    }
}

/// The flows with `key` marked as seen at `now`.
pub open spec fn touched(
    flows: Map<NatKey, OriginalDest>,
    key: NatKey,
    now: u64,
) -> Map<NatKey, OriginalDest> {
    if flows.contains_key(key) {
        flows.insert(key, OriginalDest { last_seen: now, ..flows[key] })
    } else {
        flows
    }
}

/// The flows that are not stale.
pub open spec fn without_stale(
    flows: Map<NatKey, OriginalDest>,
    now: u64,
    max_age: u64,
) -> Map<NatKey, OriginalDest> {
    flows.restrict(Set::new(|key: NatKey| !is_stale(key, flows[key], now, max_age)))
}

/// Reaping takes out no TCP flow and no flow that was seen lately, adds nothing, and changes nothing
/// in what it leaves.
pub proof fn reaping_spares_live_flows(
    flows: Map<NatKey, OriginalDest>,
    key: NatKey,
    now: u64,
    max_age: u64,
)
    ensures
        ({
            let left = without_stale(flows, now, max_age);
            &&& left.contains_key(key) <==> flows.contains_key(key) && (key.protocol
                == Protocol::Tcp || elapsed(now, flows[key].last_seen) <= max_age)
            &&& left.contains_key(key) ==> left[key] == flows[key]
        }),
{
}

/// A flow that is seen again is not reaped until it is `max_age` old again, and keeps its
/// destination.
pub proof fn seen_flow_stays(
    flows: Map<NatKey, OriginalDest>,
    key: NatKey,
    now: u64,
    later: u64,
    max_age: u64,
)
    requires
        flows.contains_key(key),
        elapsed(later, now) <= max_age,
    ensures
        without_stale(touched(flows, key, now), later, max_age).get(key) == Some(
            OriginalDest { last_seen: now, ..flows[key] },
        ),
{
}

/// Keys and codes stand for each other one to one.
proof fn lemma_codes_distinct()
    ensures
        forall|key: NatKey| key_of(#[trigger] code_of(key)) == key,
        forall|code: (bool, u16)| code_of(#[trigger] key_of(code)) == code,
{
}

} // verus!
