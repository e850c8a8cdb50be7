//! DNS resolution results with a time-limited cache.
//!
//! The lookup itself is made by the caller; the resolver decides when a
//! lookup is needed, turns its result into the answer and keeps answers for
//! their time to live. Times are nanoseconds on a monotonic clock.

use vstd::prelude::*;
use vstd::string::StringExecFns;
use crate::error::NicAutoSwitchError;
use crate::net::IpAddress;
use crate::strmap::{StrMap, seq_get, seq_has_key, seq_index, keys_unique};

verus! {

/// Nanoseconds in a second.
pub const NANOS_PER_SECOND: u128 = 1_000_000_000;

/// A cached answer: the addresses, when it was stored and how long it lives
/// (seconds).
#[derive(Debug)]
pub struct CacheEntry {
    /// Resolved IP addresses
    pub addresses: Vec<IpAddress>,
    /// When this entry was created (nanoseconds)
    pub created_at: u128,
    /// Time-to-live in seconds
    pub ttl: u64,
}

/// An entry has expired when more than its time to live has passed since it
/// was stored (no time has passed when the clock reads earlier).
pub open spec fn entry_expired(created_at: u128, ttl: u64, now: u128) -> bool {
    now - created_at > ttl * NANOS_PER_SECOND
}

impl CacheEntry {
    /// Whether this entry has expired at `now`.
    pub fn is_expired(&self, now: u128) -> (r: bool)
        ensures
            r == entry_expired(self.created_at, self.ttl, now),
    {
        if now <= self.created_at {
            return false;
        }
        let elapsed = now - self.created_at;
        let limit = (self.ttl as u128) * NANOS_PER_SECOND;
        elapsed > limit
    }
}

/// Detail of the error when a lookup found nothing.
pub open spec fn no_addresses_message(domain: Seq<char>) -> Seq<char> {
    "No addresses found for "@ + domain
}

/// Detail of the error when a lookup found no address of the wanted family.
pub open spec fn no_family_message(domain: Seq<char>, v4: bool) -> Seq<char> {
    (if v4 { "No IPv4 addresses found for "@ } else { "No IPv6 addresses found for "@ }) + domain
}

/// The addresses of one family, in order.
pub open spec fn of_family(s: Seq<IpAddress>, v4: bool) -> Seq<IpAddress> {
    s.filter(|a: IpAddress| (a is V4) == v4)
}

/// What a cache entry holds: addresses, creation time, time to live.
pub type CacheView = (Seq<IpAddress>, u128, u64);

/// The cache contents by domain.
pub open spec fn cache_view(s: Seq<(Seq<char>, CacheEntry)>) -> Map<Seq<char>, CacheView> {
    Map::new(
        |k: Seq<char>| seq_has_key(s, k),
        |k: Seq<char>| {
            let e = seq_get(s, k)->0;
            (e.addresses@, e.created_at, e.ttl)
        },
    )
}

/// Number of entries expired at `now`.
pub open spec fn expired_count(s: Seq<(Seq<char>, CacheEntry)>, now: u128) -> nat
    decreases s.len(),
{
    if s.len() == 0 {
        0
    } else {
        expired_count(s.drop_last(), now) + if entry_expired(s.last().1.created_at, s.last().1.ttl, now) { 1nat } else { 0nat }
    }
}

/// Cache contents after storing entry `v` under `k`.
pub proof fn lemma_cache_insert(s: Seq<(Seq<char>, CacheEntry)>, t: Seq<(Seq<char>, CacheEntry)>, k: Seq<char>, v: CacheEntry)
    requires
        forall|q: Seq<char>| #[trigger] seq_get(t, q) == if q == k { Some(v) } else { seq_get(s, q) },
    ensures
        cache_view(t) == cache_view(s).insert(k, (v.addresses@, v.created_at, v.ttl)),
{
    let w = (v.addresses@, v.created_at, v.ttl);
    assert forall|q: Seq<char>| #![auto] cache_view(t).dom().contains(q) == cache_view(s).insert(k, w).dom().contains(q) by {
        assert(seq_get(t, q) == if q == k { Some(v) } else { seq_get(s, q) });
    }
    assert forall|q: Seq<char>| #![auto] cache_view(t).dom().contains(q) implies cache_view(t)[q] == cache_view(s).insert(k, w)[q] by {
        assert(seq_get(t, q) == if q == k { Some(v) } else { seq_get(s, q) });
    }
    assert(cache_view(t) =~= cache_view(s).insert(k, w));
}

/// The entries not expired at `now`.
pub open spec fn unexpired(m: Map<Seq<char>, CacheView>, now: u128) -> Map<Seq<char>, CacheView> {
    Map::new(|k: Seq<char>| m.dom().contains(k) && !entry_expired(m[k].1, m[k].2, now), |k: Seq<char>| m[k])
}

/// `r` is the answer of one family built from `addresses`.
pub open spec fn family_answer(addresses: Seq<IpAddress>, domain: Seq<char>, v4: bool, r: crate::error::Result<Vec<IpAddress>>) -> bool {
    if of_family(addresses, v4).len() > 0 {
        r matches Ok(a) && a@ == of_family(addresses, v4)
    } else {
        r matches Err(NicAutoSwitchError::Dns(m)) && m@ == no_family_message(domain, v4)
    }
}

/// Outcome of resolving one family (see `DnsResolver::resolve`).
pub open spec fn family_outcome(
    before: DnsResolver,
    after: DnsResolver,
    domain: Seq<char>,
    now: u128,
    lookup: crate::error::Result<Vec<IpAddress>>,
    v4: bool,
    r: crate::error::Result<Vec<IpAddress>>,
) -> bool {
    &&& after.spec_default_ttl() == before.spec_default_ttl()
    &&& !before.spec_needs_lookup(domain, now) ==> {
        &&& family_answer((seq_get(before.spec_entries(), domain)->0).addresses@, domain, v4, r)
        &&& after.spec_entries() == before.spec_entries()
    }
    &&& before.spec_needs_lookup(domain, now) ==> match lookup {
        Err(e) => r == Err::<Vec<IpAddress>, NicAutoSwitchError>(e) && after.spec_entries() == before.spec_entries(),
        Ok(found) => if found@.len() == 0 {
            (r matches Err(NicAutoSwitchError::Dns(m)) && m@ == no_addresses_message(domain))
                && after.spec_entries() == before.spec_entries()
        } else {
            family_answer(found@, domain, v4, r)
                && after.spec_cache() == before.spec_cache().insert(domain, (found@, now, before.spec_default_ttl()))
        },
    }
}

impl Clone for CacheEntry {
    fn clone(&self) -> (r: Self)
        ensures
            r.addresses@ == self.addresses@,
            r.created_at == self.created_at,
            r.ttl == self.ttl,
    {
        let addresses = self.addresses.clone();
        assert(addresses@ =~= self.addresses@);
        CacheEntry { addresses, created_at: self.created_at, ttl: self.ttl }
    }
}

/// DNS answers with a cache.
#[derive(Debug)]
pub struct DnsResolver {
    cache: StrMap<CacheEntry>,
    default_ttl: u64,
}

impl DnsResolver {
    /// Time to live of new entries (seconds).
    pub closed spec fn spec_default_ttl(self) -> u64 {
        self.default_ttl
    }

    /// The cache contents by domain.
    pub closed spec fn spec_cache(self) -> Map<Seq<char>, CacheView> {
        cache_view(self.cache@)
    }

    /// The cache entries in the order they were first stored.
    pub closed spec fn spec_entries(self) -> Seq<(Seq<char>, CacheEntry)> {
        self.cache@
    }

    /// The cache map is the view of the entry sequence: a domain is cached
    /// exactly when it has an entry, with that entry's addresses, creation
    /// time and lifetime.
    pub proof fn lemma_cache_is_entries(self)
        ensures
            self.spec_cache() == cache_view(self.spec_entries()),
    {
    }

    /// A resolver whose entries live 60 seconds.
    pub fn new() -> (r: crate::error::Result<Self>)
        ensures
            r matches Ok(d) && d.spec_default_ttl() == 60 && d.spec_entries().len() == 0,
    {
        Self::with_config(60)
    }

    /// A resolver whose entries live `default_ttl` seconds.
    pub fn with_config(default_ttl: u64) -> (r: crate::error::Result<Self>)
        ensures
            r matches Ok(d) && d.spec_default_ttl() == default_ttl && d.spec_entries().len() == 0,
    {
        Ok(DnsResolver { cache: StrMap::new(), default_ttl })
    }

    /// Time to live of new entries (seconds).
    pub fn default_ttl(&self) -> (r: u64)
        ensures
            r == self.spec_default_ttl(),
    {
        self.default_ttl
    }

    /// Whether the answer for `domain` needs a lookup at `now`: it has no
    /// entry, or its entry has expired.
    pub open spec fn spec_needs_lookup(self, domain: Seq<char>, now: u128) -> bool {
        match seq_get(self.spec_entries(), domain) {
            Some(e) => entry_expired(e.created_at, e.ttl, now),
            None => true,
        }
    }

    /// Whether the answer for `domain` needs a lookup at `now`.
    pub fn needs_lookup(&self, domain: &str, now: u128) -> (r: bool)
        ensures
            r == self.spec_needs_lookup(domain@, now),
    {
        match self.cache.get(domain) {
            Some(e) => e.is_expired(now),
            None => true,
        }
    }

    /// Stores an entry (also used to seed the cache).
    pub fn store(&mut self, domain: &str, addresses: Vec<IpAddress>, now: u128, ttl: u64)
        ensures
            final(self).spec_default_ttl() == old(self).spec_default_ttl(),
            final(self).spec_cache() == old(self).spec_cache().insert(domain@, (addresses@, now, ttl)),
    {
        let ghost before = self.cache@;
        let ghost addr = addresses@;
        let entry = CacheEntry { addresses, created_at: now, ttl };
        let ghost e = entry;
        self.cache.insert(String::from_str(domain), entry);
        proof {
            assert forall|q: Seq<char>| #![auto] cache_view(self.cache@).dom().contains(q)
                == cache_view(before).insert(domain@, (addr, now, ttl)).dom().contains(q) by {
                assert(seq_get(self.cache@, q) == if q == domain@ { Some(e) } else { seq_get(before, q) });
            }
            assert forall|q: Seq<char>| #![auto] cache_view(self.cache@).dom().contains(q)
                implies cache_view(self.cache@)[q] == cache_view(before).insert(domain@, (addr, now, ttl))[q] by {
                assert(seq_get(self.cache@, q) == if q == domain@ { Some(e) } else { seq_get(before, q) });
            }
            assert(cache_view(self.cache@) =~= cache_view(before).insert(domain@, (addr, now, ttl)));
        }
    }

    /// The answer for `domain` at `now`: the cached addresses while their
    /// entry lives; otherwise the outcome of `lookup` (the lookup the caller
    /// made, see `needs_lookup`): its error, an error when it found no
    /// address, or its addresses, which are then cached for the default time
    /// to live.
    pub fn resolve(&mut self, domain: &str, now: u128, lookup: crate::error::Result<Vec<IpAddress>>) -> (r: crate::error::Result<Vec<IpAddress>>)
        ensures
            final(self).spec_default_ttl() == old(self).spec_default_ttl(),
            !old(self).spec_needs_lookup(domain@, now) ==> (r matches Ok(a)
                && a@ == (seq_get(old(self).spec_entries(), domain@)->0).addresses@
                && final(self).spec_entries() == old(self).spec_entries()),
            old(self).spec_needs_lookup(domain@, now) ==> match lookup {
                Err(e) => r == Err::<Vec<IpAddress>, NicAutoSwitchError>(e) && final(self).spec_entries() == old(self).spec_entries(),
                Ok(found) => if found@.len() == 0 {
                    (r matches Err(NicAutoSwitchError::Dns(m)) && m@ == no_addresses_message(domain@))
                        && final(self).spec_entries() == old(self).spec_entries()
                } else {
                    (r matches Ok(a) && a@ == found@)
                        && final(self).spec_cache() == old(self).spec_cache().insert(domain@, (found@, now, old(self).spec_default_ttl()))
                },
            },
    {
        match self.cache.get(domain) {
            Some(e) => {
                if !e.is_expired(now) {
                    let a = e.addresses.clone();
                    assert(a@ =~= e.addresses@);
                    return Ok(a);
                }
            },
            None => {},
        }
        let found = match lookup {
            Err(e) => return Err(e),
            Ok(a) => a,
        };
        if found.len() == 0 {
            let mut m = String::from_str("No addresses found for ");
            m.append(domain);
            return Err(NicAutoSwitchError::Dns(m));
        }
        let kept = found.clone();
        assert(kept@ =~= found@);
        let ttl = self.default_ttl;
        self.store(domain, kept, now, ttl);
        Ok(found)
    }

    /// The addresses of one family among `addresses`; an error when there
    /// are none.
    pub fn only_family(domain: &str, addresses: Vec<IpAddress>, v4: bool) -> (r: crate::error::Result<Vec<IpAddress>>)
        ensures
            of_family(addresses@, v4).len() > 0 ==> (r matches Ok(a) && a@ == of_family(addresses@, v4)),
            of_family(addresses@, v4).len() == 0 ==> (r matches Err(NicAutoSwitchError::Dns(m)) && m@ == no_family_message(domain@, v4)),
    {
        let mut out: Vec<IpAddress> = Vec::new();
        let n = addresses.len();
        let mut i: usize = 0;
        while i < n
            invariant
                n == addresses@.len(),
                i <= n,
                out@ == of_family(addresses@.take(i as int), v4),
            decreases n - i,
        {
            proof {
                assert(addresses@.take(i + 1).drop_last() =~= addresses@.take(i as int));
                reveal_with_fuel(Seq::filter, 1);
            }
            let a = addresses[i];
            if a.is_ipv4() == v4 {
                out.push(a);
            }
            i = i + 1;
        }
        assert(addresses@.take(n as int) =~= addresses@);
        if out.len() == 0 {
            let mut m = if v4 { String::from_str("No IPv4 addresses found for ") } else { String::from_str("No IPv6 addresses found for ") };
            m.append(domain);
            return Err(NicAutoSwitchError::Dns(m));
        }
        Ok(out)
    }

    /// The IPv4 addresses of the answer for `domain` (see `resolve` and
    /// `only_family`).
    pub fn resolve_ipv4(&mut self, domain: &str, now: u128, lookup: crate::error::Result<Vec<IpAddress>>) -> (r: crate::error::Result<Vec<IpAddress>>)
        ensures
            family_outcome(*old(self), *final(self), domain@, now, lookup, true, r),
    {
        let all = self.resolve(domain, now, lookup)?;
        Self::only_family(domain, all, true)
    }

    /// The IPv6 addresses of the answer for `domain` (see `resolve` and
    /// `only_family`).
    pub fn resolve_ipv6(&mut self, domain: &str, now: u128, lookup: crate::error::Result<Vec<IpAddress>>) -> (r: crate::error::Result<Vec<IpAddress>>)
        ensures
            family_outcome(*old(self), *final(self), domain@, now, lookup, false, r),
    {
        let all = self.resolve(domain, now, lookup)?;
        Self::only_family(domain, all, false)
    }

    /// Removes the entries expired at `now`.
    pub fn prune_cache(&mut self, now: u128)
        ensures
            final(self).spec_default_ttl() == old(self).spec_default_ttl(),
            final(self).spec_cache() == unexpired(old(self).spec_cache(), now),
            final(self).spec_entries().len() == old(self).spec_entries().len() - expired_count(old(self).spec_entries(), now),
            expired_count(final(self).spec_entries(), now) == 0,
    {
        self.cache.keys_distinct();
        let ghost s = self.cache@;
        let n = self.cache.len();
        let mut kept: StrMap<CacheEntry> = StrMap::new();
        let mut i: usize = 0;
        assert(cache_view(s.take(0)) =~= Map::<Seq<char>, CacheView>::empty());
        assert(cache_view(kept@) =~= unexpired(cache_view(s.take(0)), now));
        while i < n
            invariant
                n == s.len(),
                s == self.cache@,
                keys_unique(s),
                i <= n,
                cache_view(kept@) == unexpired(cache_view(s.take(i as int)), now),
                kept@.len() + expired_count(s.take(i as int), now) == i,
                expired_count(kept@, now) == 0,
            decreases n - i,
        {
            let key = self.cache.key_at(i);
            let value = self.cache.value_at(i);
            let ghost before = kept@;
            proof {
                assert(s.take(i + 1) =~= s.take(i as int).push(s[i as int]));
                assert(!seq_has_key(s.take(i as int), s[i as int].0)) by {
                    if seq_has_key(s.take(i as int), s[i as int].0) {
                        let j = choose|j: int| 0 <= j < s.take(i as int).len() && s.take(i as int)[j].0 == s[i as int].0;
                        assert(s[j].0 == s[i as int].0);
                    }
                }
                crate::strmap::lemma_push_fresh(s.take(i as int), s[i as int].0, s[i as int].1);
                lemma_cache_insert(s.take(i as int), s.take(i + 1), s[i as int].0, s[i as int].1);
                assert(s.take(i + 1).drop_last() =~= s.take(i as int));
                assert(!cache_view(before).dom().contains(s[i as int].0));
                assert(!seq_has_key(before, s[i as int].0));
            }
            if !value.is_expired(now) {
                let copy = value.clone();
                let ghost c = copy;
                kept.insert(key.clone(), copy);
                proof {
                    assert(kept@.drop_last() =~= before);
                    lemma_cache_insert(before, kept@, s[i as int].0, c);
                    assert(cache_view(kept@) =~= unexpired(cache_view(s.take(i + 1)), now));
                }
            } else {
                proof {
                    assert(cache_view(kept@) =~= unexpired(cache_view(s.take(i + 1)), now));
                }
            }
            i = i + 1;
        }
        assert(s.take(n as int) =~= s);
        self.cache = kept;
    }

    /// Removes every entry.
    pub fn clear_cache(&mut self)
        ensures
            final(self).spec_default_ttl() == old(self).spec_default_ttl(),
            final(self).spec_entries().len() == 0,
            final(self).spec_cache() == Map::<Seq<char>, CacheView>::empty(),
    {
        self.cache.clear();
        assert(cache_view(self.cache@) =~= Map::<Seq<char>, CacheView>::empty());
    }

    /// Number of entries, and how many of them have expired at `now`.
    pub fn cache_stats(&self, now: u128) -> (r: (usize, usize))
        ensures
            r.0 == self.spec_entries().len(),
            r.1 == expired_count(self.spec_entries(), now),
    {
        let n = self.cache.len();
        let mut expired: usize = 0;
        let mut i: usize = 0;
        while i < n
            invariant
                n == self.cache@.len(),
                i <= n,
                expired == expired_count(self.cache@.take(i as int), now),
                expired <= i,
            decreases n - i,
        {
            assert(self.cache@.take(i + 1).drop_last() =~= self.cache@.take(i as int));
            if self.cache.value_at(i).is_expired(now) {
                expired = expired + 1;
            }
            i = i + 1;
        }
        assert(self.cache@.take(n as int) =~= self.cache@);
        (n, expired)
    }
}

/// An answer stored at `now` is served from the cache, without a lookup,
/// until its time to live has passed; the cached addresses are the ones
/// stored, so a later `resolve` gives the same answer.
pub proof fn law_answer_cached_until_expiry(before: DnsResolver, after: DnsResolver, domain: Seq<char>, addrs: Seq<IpAddress>, now: u128, later: u128)
    requires
        after.spec_cache() == before.spec_cache().insert(domain, (addrs, now, before.spec_default_ttl())),
        later - now <= before.spec_default_ttl() * NANOS_PER_SECOND,
    ensures
        !after.spec_needs_lookup(domain, later),
        (seq_get(after.spec_entries(), domain)->0).addresses@ == addrs,
{
    after.lemma_cache_is_entries();
    assert(after.spec_cache().dom().contains(domain));
    assert(seq_has_key(after.spec_entries(), domain));
    let e = seq_get(after.spec_entries(), domain)->0;
    assert(after.spec_cache()[domain] == (e.addresses@, e.created_at, e.ttl));
}

} // verus!
