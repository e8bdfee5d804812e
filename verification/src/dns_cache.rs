//! Reverse DNS cache: IP address → canonical domain name, LRU-bounded.

use vstd::prelude::*;
use lru::LruCache;
use std::collections::hash_map::RandomState;
use std::num::NonZeroUsize;
use crate::lru_model::{lru_wf, lru_put, lru_touch, lru_lookup, law_lookup_after_put, law_touch_keeps_values};
use crate::net::{IpAddr, spec_ip_key, ip_key};

verus! {

pub const CACHE_CAPACITY: usize = 4096;

/// The LRU map that backs the cache, keyed by `spec_ip_key`.
pub type DnsLru = LruCache<(u8, u128), String, RandomState>;

/// The entries of a cache map, most recently used first, with the names' text.
pub uninterp spec fn dns_lru_entries(c: DnsLru) -> Seq<((u8, u128), Seq<char>)>;

/// The capacity a cache map was made with.
pub uninterp spec fn dns_lru_cap(c: DnsLru) -> nat;

/// `LruCache::with_hasher` with a std `RandomState`: an empty cache that holds
/// at most `cap` entries.
#[verifier::external_body]
fn dns_lru_new(cap: usize) -> (c: DnsLru)
    requires
        cap > 0,
    ensures
        dns_lru_entries(c) == Seq::<((u8, u128), Seq<char>)>::empty(),
        dns_lru_cap(c) == cap,
{
    LruCache::with_hasher(NonZeroUsize::new(cap).unwrap(), RandomState::new())
}

/// `LruCache::put`: the pair becomes the most recently used entry; a new key
/// evicts the least recently used entry when the cache is full. Returns the
/// value the key had.
#[verifier::external_body]
fn dns_lru_put(c: &mut DnsLru, k: (u8, u128), v: String) -> (r: Option<String>)
    ensures
        dns_lru_entries(*final(c)) == lru_put(dns_lru_entries(*old(c)), k, v@, dns_lru_cap(*old(c))),
        dns_lru_cap(*final(c)) == dns_lru_cap(*old(c)),
        lru_wf(dns_lru_entries(*final(c)), dns_lru_cap(*final(c))),
        match lru_lookup(dns_lru_entries(*old(c)), k) {
            Some(old_v) => r matches Some(s) && s@ == old_v,
            None => r is None,
        },
{
    c.put(k, v)
}

/// `LruCache::get`: the value under `k`, which is promoted to most recently
/// used.
#[verifier::external_body]
fn dns_lru_get<'a>(c: &'a mut DnsLru, k: &(u8, u128)) -> (r: Option<&'a String>)
    ensures
        dns_lru_entries(*final(c)) == lru_touch(dns_lru_entries(*old(c)), *k),
        dns_lru_cap(*final(c)) == dns_lru_cap(*old(c)),
        lru_wf(dns_lru_entries(*final(c)), dns_lru_cap(*final(c))),
        match lru_lookup(dns_lru_entries(*old(c)), *k) {
            Some(v) => r matches Some(s) && s@ == v,
            None => r is None,
        },
{
    c.get(k)
}

/// Reverse DNS cache: IP address → canonical domain name.
/// Populated by the DNS module from observed A/AAAA responses.
pub struct DnsCache {
    map: DnsLru,
}

impl DnsCache {
    /// Entries, most recently used first.
    pub closed spec fn entries(&self) -> Seq<((u8, u128), Seq<char>)> {
        dns_lru_entries(self.map)
    }

    pub closed spec fn capacity(&self) -> nat {
        dns_lru_cap(self.map)
    }

    pub open spec fn wf(&self) -> bool {
        lru_wf(self.entries(), self.capacity())
    }

    /// The name cached for `ip`.
    pub open spec fn cached(&self, ip: IpAddr) -> Option<Seq<char>> {
        lru_lookup(self.entries(), spec_ip_key(ip))
    }

    pub fn new() -> (c: Self)
        ensures
            c.entries() == Seq::<((u8, u128), Seq<char>)>::empty(),
            c.capacity() == CACHE_CAPACITY,
            c.wf(),
    {
        DnsCache { map: dns_lru_new(CACHE_CAPACITY) }
    }

    pub fn insert(&mut self, ip: IpAddr, domain: String)
        ensures
            final(self).entries() == lru_put(old(self).entries(), spec_ip_key(ip), domain@, old(self).capacity()),
            final(self).capacity() == old(self).capacity(),
            final(self).wf(),
    {
        let k = ip_key(&ip);
        let _ = dns_lru_put(&mut self.map, k, domain);
    }

    /// Returns the domain for `ip` and promotes it to MRU position.
    pub fn lookup(&mut self, ip: &IpAddr) -> (r: Option<&str>)
        ensures
            final(self).entries() == lru_touch(old(self).entries(), spec_ip_key(*ip)),
            final(self).capacity() == old(self).capacity(),
            final(self).wf(),
            match old(self).cached(*ip) {
                Some(d) => r matches Some(s) && s@ == d,
                None => r is None,
            },
    {
        let k = ip_key(ip);
        match dns_lru_get(&mut self.map, &k) {
            Some(s) => Some(s.as_str()),
            None => None,
        }
    }
}

/// Law: after `insert(ip, domain)` the cache answers `domain` for `ip`, and a
/// lookup changes no answer the cache gives, only which entry is evicted
/// next.
pub proof fn law_cache_answers(before: DnsCache, after_insert: DnsCache, after_lookup: DnsCache, ip: IpAddr, domain: Seq<char>, looked_up: IpAddr, other: IpAddr)
    requires
        before.wf(),
        after_insert.entries() == lru_put(before.entries(), spec_ip_key(ip), domain, before.capacity()),
        after_lookup.entries() == lru_touch(before.entries(), spec_ip_key(looked_up)),
    ensures
        after_insert.cached(ip) == Some(domain),
        after_lookup.cached(other) == before.cached(other),
{
    law_lookup_after_put(before.entries(), spec_ip_key(ip), domain, before.capacity());
    law_touch_keeps_values(before.entries(), spec_ip_key(looked_up), spec_ip_key(other), before.capacity());
}

} // verus!
