//! Route rule matching: which rules apply to a destination, and which one
//! wins.
//!
//! Domain names are compared as given; when a matcher is configured with a
//! resolver, the caller resolves the domain and hands the addresses in.

use vstd::prelude::*;
use vstd::utf8::encode_utf8;
use vstd::string::StrSliceExecFns;
use crate::config::{MatchOn, RouteRule};
use crate::error::NicAutoSwitchError;
use crate::net::{IpAddress, cidr_contains};
use crate::text::str_eq;

verus! {

/// Destination of traffic: an address or a domain name.
#[derive(Debug, Clone, PartialEq, Eq)]
pub enum Destination {
    /// IP address
    Ip(IpAddress),
    /// Domain name
    Domain(String),
}

impl Destination {
    /// A destination for an IP address.
    pub fn ip(addr: IpAddress) -> (r: Self)
        ensures
            r == Destination::Ip(addr),
    {
        Destination::Ip(addr)
    }

    /// A destination for a domain name.
    pub fn domain(name: &str) -> (r: Self)
        ensures
            r matches Destination::Domain(d) && d@ == name@,
    {
        Destination::Domain(String::from_str(name))
    }

    /// The address, for an address destination.
    pub fn as_ip(&self) -> (r: Option<&IpAddress>)
        ensures
            r is Some <==> *self is Ip,
            r matches Some(a) ==> *self == Destination::Ip(*a),
    {
        match self {
            Destination::Ip(ip) => Some(ip),
            Destination::Domain(_) => None,
        }
    }

    /// The domain name, for a domain destination.
    pub fn as_domain(&self) -> (r: Option<&str>)
        ensures
            r is Some <==> *self is Domain,
            r matches Some(d) ==> (*self matches Destination::Domain(s) && s@ == d@),
    {
        match self {
            Destination::Ip(_) => None,
            Destination::Domain(d) => Some(d.as_str()),
        }
    }
}

/// The byte `*`.
pub open spec fn star_byte() -> u8 {
    42u8
}

/// Wildcard matching on the UTF-8 bytes of a pattern and a domain. A
/// pattern starting with `*` matches everything when bare, otherwise the
/// domains that end with the rest of the pattern and are strictly longer
/// than it. A pattern ending with `*` (and not starting with it) matches the
/// domains that start with the rest of the pattern and are strictly longer
/// than it. Other patterns match nothing.
pub open spec fn wildcard_matches(pattern: Seq<u8>, domain: Seq<u8>) -> bool {
    &&& pattern.len() > 0
    &&& if pattern[0] == star_byte() {
        let suffix = pattern.drop_first();
        ||| suffix.len() == 0
        ||| (domain.len() > suffix.len() && domain.subrange(domain.len() - suffix.len(), domain.len() as int) == suffix)
    } else {
        let prefix = pattern.drop_last();
        &&& pattern.last() == star_byte()
        &&& domain.len() > prefix.len()
        &&& domain.subrange(0, prefix.len() as int) == prefix
    }
}

/// A UTF-8 continuation byte (never the first byte of a character).
pub open spec fn is_continuation_byte(b: u8) -> bool {
    0x80 <= b && b < 0xC0
}

/// Inputs on which cutting the domain at the length of the pattern's suffix
/// would split a character: the one case where wildcard matching panics.
pub open spec fn wildcard_panics(pattern: Seq<u8>, domain: Seq<u8>) -> bool {
    &&& pattern.len() > 1
    &&& pattern[0] == star_byte()
    &&& domain.len() > pattern.len() - 1
    &&& is_continuation_byte(domain[domain.len() - (pattern.len() - 1)])
}

/// Whether a rule's condition holds for a destination.
pub open spec fn rule_matches_spec(rule: RouteRule, dest: Destination) -> bool {
    match rule.match_on {
        MatchOn::Cidr { cidr } => match dest {
            Destination::Ip(ip) => cidr_contains(cidr, ip),
            Destination::Domain(_) => false,
        },
        MatchOn::Ip { ip } => match dest {
            Destination::Ip(d) => ip == d,
            Destination::Domain(_) => false,
        },
        MatchOn::Domain { domain } => match dest {
            Destination::Ip(_) => false,
            Destination::Domain(d) => domain@ == d@,
        },
        MatchOn::DomainPattern { domain_pattern } => match dest {
            Destination::Ip(_) => false,
            Destination::Domain(d) => wildcard_matches(encode_utf8(domain_pattern@), encode_utf8(d@)),
        },
    }
}

/// Matching a rule against a destination does not panic.
pub open spec fn rule_safe(rule: RouteRule, dest: Destination) -> bool {
    match rule.match_on {
        MatchOn::DomainPattern { domain_pattern } => match dest {
            Destination::Ip(_) => true,
            Destination::Domain(d) => !wildcard_panics(encode_utf8(domain_pattern@), encode_utf8(d@)),
        },
        _ => true,
    }
}

/// Matching any rule of the list against a destination does not panic.
pub open spec fn rules_safe(rules: Seq<RouteRule>, dest: Destination) -> bool {
    forall|i: int| 0 <= i < rules.len() ==> #[trigger] rule_safe(rules[i], dest)
}

/// `i` is the winning rule: it matches, no matching rule has a lower
/// priority, and no earlier matching rule has the same priority.
pub open spec fn is_best_match(rules: Seq<RouteRule>, dest: Destination, i: int) -> bool {
    &&& 0 <= i < rules.len()
    &&& rule_matches_spec(rules[i], dest)
    &&& forall|j: int| 0 <= j < rules.len() && #[trigger] rule_matches_spec(rules[j], dest)
        ==> rules[i].priority <= rules[j].priority
    &&& forall|j: int| 0 <= j < i && #[trigger] rule_matches_spec(rules[j], dest)
        ==> rules[i].priority < rules[j].priority
}

/// The position of the winning rule, if any rule wins.
pub open spec fn best_match(rules: Seq<RouteRule>, dest: Destination) -> Option<int> {
    if exists|i: int| is_best_match(rules, dest, i) {
        Some(choose|i: int| is_best_match(rules, dest, i))
    } else {
        None
    }
}

/// At most one rule wins.
pub proof fn lemma_best_match_unique(rules: Seq<RouteRule>, dest: Destination, i: int, k: int)
    requires
        is_best_match(rules, dest, i),
        is_best_match(rules, dest, k),
    ensures
        i == k,
{
    if i < k {
        assert(rule_matches_spec(rules[i], dest));
    } else if k < i {
        assert(rule_matches_spec(rules[k], dest));
    }
}

/// The winner for the first resolved address that has one.
pub open spec fn first_resolved_match(rules: Seq<RouteRule>, addrs: Seq<IpAddress>) -> Option<int>
    decreases addrs.len(),
{
    if addrs.len() == 0 {
        None
    } else {
        match best_match(rules, Destination::Ip(addrs[0])) {
            Some(i) => Some(i),
            None => first_resolved_match(rules, addrs.drop_first()),
        }
    }
}

/// Rule matcher for route selection.
#[derive(Debug)]
pub struct RuleMatcher {
    dns_resolver: bool,
}

impl RuleMatcher {
    /// Whether domains are resolved to addresses when no rule matches them
    /// directly.
    pub closed spec fn spec_has_resolver(self) -> bool {
        self.dns_resolver
    }

    /// A matcher without a resolver.
    pub fn new() -> (r: Self)
        ensures
            !r.spec_has_resolver(),
    {
        RuleMatcher { dns_resolver: false }
    }

    /// A matcher whose domains are resolved by the caller's resolver.
    pub fn with_dns_resolver() -> (r: Self)
        ensures
            r.spec_has_resolver(),
    {
        RuleMatcher { dns_resolver: true }
    }

    /// Whether the matcher has a resolver.
    pub fn has_dns_resolver(&self) -> (r: bool)
        ensures
            r == self.spec_has_resolver(),
    {
        self.dns_resolver
    }

    /// Whether a wildcard pattern matches a domain.
    pub fn matches_wildcard(&self, pattern: &str, domain: &str) -> (r: bool)
        requires
            !wildcard_panics(encode_utf8(pattern@), encode_utf8(domain@)),
        ensures
            r == wildcard_matches(encode_utf8(pattern@), encode_utf8(domain@)),
    {
        let p = pattern.as_bytes();
        let d = domain.as_bytes();
        let ghost ps = encode_utf8(pattern@);
        let ghost ds = encode_utf8(domain@);
        if p.len() == 0 {
            return false;
        }
        if p[0] != 42u8 {
            return Self::matches_prefix(p, d);
        }
        let slen = p.len() - 1;
        let ghost suffix = ps.drop_first();
        if slen == 0 {
            return true;
        }
        if d.len() < slen {
            return false;
        }
        let dlen = d.len();
        let cut = dlen - slen;
        let mut i: usize = 0;
        while i < slen
            invariant
                p@ == ps,
                d@ == ds,
                dlen == ds.len(),
                ps == encode_utf8(pattern@),
                ds == encode_utf8(domain@),
                ps.len() > 0 && ps[0] == star_byte(),
                slen == p@.len() - 1,
                suffix == ps.drop_first(),
                suffix.len() == slen,
                dlen >= slen,
                cut == dlen - slen,
                i <= slen,
                forall|j: int| 0 <= j < i ==> ds[cut + j] == suffix[j],
            decreases slen - i,
        {
            if d[cut + i] != p[1 + i] {
                proof {
                    let sub = ds.subrange(ds.len() - suffix.len(), ds.len() as int);
                    assert(sub[i as int] == ds[cut + i]);
                    assert(suffix[i as int] == ps[1 + i]);
                    assert(sub != suffix);
                }
                return false;
            }
            i = i + 1;
        }
        assert(ds.subrange(ds.len() - suffix.len(), ds.len() as int) =~= suffix);
        d.len() > slen
    }

    /// Prefix wildcard matching on bytes (see `wildcard_matches`).
    fn matches_prefix(p: &[u8], d: &[u8]) -> (r: bool)
        requires
            p@.len() > 0,
            p@[0] != star_byte(),
        ensures
            r == wildcard_matches(p@, d@),
    {
        let ghost ps = p@;
        let ghost ds = d@;
        let plen = p.len() - 1;
        if p[plen] != 42u8 {
            return false;
        }
        let ghost prefix = ps.drop_last();
        if d.len() <= plen {
            return false;
        }
        let mut i: usize = 0;
        while i < plen
            invariant
                p@ == ps,
                d@ == ds,
                plen == ps.len() - 1,
                ps.len() > 0,
                ps[0] != star_byte(),
                ps.last() == star_byte(),
                prefix == ps.drop_last(),
                prefix.len() == plen,
                ds.len() > plen,
                i <= plen,
                forall|j: int| 0 <= j < i ==> ds[j] == prefix[j],
            decreases plen - i,
        {
            if d[i] != p[i] {
                proof {
                    let sub = ds.subrange(0, prefix.len() as int);
                    assert(sub[i as int] == ds[i as int]);
                    assert(sub != prefix);
                }
                return false;
            }
            i = i + 1;
        }
        assert(ds.subrange(0, prefix.len() as int) =~= prefix);
        true
    }

    /// Whether wildcard matching of `pattern` against `domain` would panic.
    pub fn wildcard_would_panic(pattern: &str, domain: &str) -> (r: bool)
        ensures
            r == wildcard_panics(encode_utf8(pattern@), encode_utf8(domain@)),
    {
        let p = pattern.as_bytes();
        let d = domain.as_bytes();
        if p.len() > 1 && p[0] == 42u8 && d.len() > p.len() - 1 {
            let b = d[d.len() - (p.len() - 1)];
            0x80u8 <= b && b < 0xC0u8
        } else {
            false
        }
    }

    /// Whether matching `rules` against `destination` is free of panics.
    pub fn matching_is_safe(&self, destination: &Destination, rules: &[RouteRule]) -> (r: bool)
        ensures
            r == rules_safe(rules@, *destination),
    {
        let n = rules.len();
        let mut i: usize = 0;
        while i < n
            invariant
                n == rules@.len(),
                i <= n,
                forall|j: int| 0 <= j < i ==> #[trigger] rule_safe(rules@[j], *destination),
            decreases n - i,
        {
            match (&rules[i].match_on, destination) {
                (MatchOn::DomainPattern { domain_pattern }, Destination::Domain(d)) => {
                    if Self::wildcard_would_panic(domain_pattern.as_str(), d.as_str()) {
                        assert(!rule_safe(rules@[i as int], *destination));
                        return false;
                    }
                },
                _ => {},
            }
            i = i + 1;
        }
        true
    }

    /// Whether a rule's condition holds for a destination.
    pub fn rule_matches(&self, rule: &RouteRule, destination: &Destination) -> (r: bool)
        requires
            rule_safe(*rule, *destination),
        ensures
            r == rule_matches_spec(*rule, *destination),
    {
        match (&rule.match_on, destination) {
            (MatchOn::Cidr { cidr }, Destination::Ip(ip)) => cidr.contains(*ip),
            (MatchOn::Ip { ip: rule_ip }, Destination::Ip(dest_ip)) => *rule_ip == *dest_ip,
            (MatchOn::Domain { domain }, Destination::Domain(dest)) => str_eq(domain.as_str(), dest.as_str()),
            (MatchOn::DomainPattern { domain_pattern }, Destination::Domain(dest)) => {
                self.matches_wildcard(domain_pattern.as_str(), dest.as_str())
            },
            _ => false,
        }
    }

    /// Position of the winning rule for a destination (no resolution).
    fn best_index(&self, destination: &Destination, rules: &[RouteRule]) -> (r: Option<usize>)
        requires
            rules_safe(rules@, *destination),
        ensures
            r is None <==> best_match(rules@, *destination) is None,
            r matches Some(i) ==> best_match(rules@, *destination) == Some(i as int) && i < rules@.len(),
    {
        let n = rules.len();
        let mut best: Option<usize> = None;
        let mut i: usize = 0;
        while i < n
            invariant
                n == rules@.len(),
                i <= n,
                rules_safe(rules@, *destination),
                best is None ==> forall|j: int| 0 <= j < i ==> !#[trigger] rule_matches_spec(rules@[j], *destination),
                best matches Some(b) ==> {
                    &&& b < i
                    &&& rule_matches_spec(rules@[b as int], *destination)
                    &&& forall|j: int| 0 <= j < i && #[trigger] rule_matches_spec(rules@[j], *destination)
                        ==> rules@[b as int].priority <= rules@[j].priority
                    &&& forall|j: int| 0 <= j < b && #[trigger] rule_matches_spec(rules@[j], *destination)
                        ==> rules@[b as int].priority < rules@[j].priority
                },
            decreases n - i,
        {
            assert(rule_safe(rules@[i as int], *destination));
            if self.rule_matches(&rules[i], destination) {
                let better = match best {
                    None => true,
                    Some(b) => rules[i].priority < rules[b].priority,
                };
                if better {
                    best = Some(i);
                }
            }
            i = i + 1;
        }
        match best {
            Some(b) => {
                assert(is_best_match(rules@, *destination, b as int));
                proof {
                    let c = choose|k: int| is_best_match(rules@, *destination, k);
                    lemma_best_match_unique(rules@, *destination, b as int, c);
                }
                Some(b)
            },
            None => {
                assert forall|k: int| !is_best_match(rules@, *destination, k) by {
                    if is_best_match(rules@, *destination, k) {
                        assert(rule_matches_spec(rules@[k], *destination));
                    }
                }
                None
            },
        }
    }

    /// The winning rule for a destination, without resolution.
    pub fn find_direct_match<'a>(&self, destination: &Destination, rules: &'a [RouteRule]) -> (r: Option<&'a RouteRule>)
        requires
            rules_safe(rules@, *destination),
        ensures
            r is None <==> best_match(rules@, *destination) is None,
            r matches Some(x) ==> *x == rules@[best_match(rules@, *destination)->0],
    {
        match self.best_index(destination, rules) {
            Some(i) => Some(&rules[i]),
            None => None,
        }
    }

    /// Whether finding the rule for `destination` goes through resolution:
    /// no rule matches the destination itself, it is a domain, and the
    /// matcher has a resolver.
    pub open spec fn spec_needs_resolution(self, destination: Destination, rules: Seq<RouteRule>) -> bool {
        &&& best_match(rules, destination) is None
        &&& destination is Domain
        &&& self.spec_has_resolver()
    }

    /// Whether the caller has to resolve the destination before
    /// `find_matching_rule`.
    pub fn needs_resolution(&self, destination: &Destination, rules: &[RouteRule]) -> (r: bool)
        requires
            rules_safe(rules@, *destination),
        ensures
            r == self.spec_needs_resolution(*destination, rules@),
    {
        self.dns_resolver && destination.as_domain().is_some() && self.best_index(destination, rules).is_none()
    }

    /// The best matching rule for a destination. A direct match wins; for a
    /// domain with no direct match and a configured resolver, the addresses
    /// the domain resolved to (`resolved`) are tried in order, and a failed
    /// resolution is returned as the error. `resolved` is not looked at in the
    /// other cases.
    pub fn find_matching_rule<'a>(
        &self,
        destination: &Destination,
        rules: &'a [RouteRule],
        resolved: crate::error::Result<Vec<IpAddress>>,
    ) -> (r: crate::error::Result<Option<&'a RouteRule>>)
        requires
            rules_safe(rules@, *destination),
        ensures
            !self.spec_needs_resolution(*destination, rules@) ==> (match best_match(rules@, *destination) {
                Some(i) => r matches Ok(Some(x)) && *x == rules@[i],
                None => r matches Ok(None),
            }),
            self.spec_needs_resolution(*destination, rules@) ==> (match resolved {
                Err(e) => r == Err::<Option<&RouteRule>, NicAutoSwitchError>(e),
                Ok(addrs) => match first_resolved_match(rules@, addrs@) {
                    Some(i) => r matches Ok(Some(x)) && *x == rules@[i],
                    None => r matches Ok(None),
                },
            }),
    {
        if let Some(i) = self.best_index(destination, rules) {
            return Ok(Some(&rules[i]));
        }
        if !(self.dns_resolver && destination.as_domain().is_some()) {
            return Ok(None);
        }
        let addrs = match resolved {
            Err(e) => return Err(e),
            Ok(a) => a,
        };
        let n = addrs.len();
        let mut k: usize = 0;
        assert(addrs@.skip(0) =~= addrs@);
        while k < n
            invariant
                n == addrs@.len(),
                self.spec_needs_resolution(*destination, rules@),
                rules_safe(rules@, *destination),
                resolved matches Ok(a) && a@ == addrs@,
                k <= n,
                first_resolved_match(rules@, addrs@) == first_resolved_match(rules@, addrs@.skip(k as int)),
            decreases n - k,
        {
            let ip_dest = Destination::ip(addrs[k]);
            proof {
                assert(addrs@.skip(k as int)[0] == addrs@[k as int]);
                assert(addrs@.skip(k as int).drop_first() =~= addrs@.skip(k + 1));
            }
            match self.best_index(&ip_dest, rules) {
                Some(i) => return Ok(Some(&rules[i])),
                None => {},
            }
            k = k + 1;
        }
        assert(addrs@.skip(n as int) =~= Seq::<IpAddress>::empty());
        Ok(None)
    }

    /// Positions of the rules that match `destination` directly, in order.
    fn direct_positions(&self, destination: &Destination, rules: &[RouteRule]) -> (r: Vec<usize>)
        requires
            rules_safe(rules@, *destination),
        ensures
            r@ == direct_hits(rules@, *destination, rules@.len() as int),
            positions_in(rules@, r@),
    {
        let n = rules.len();
        let mut acc: Vec<usize> = Vec::new();
        let mut i: usize = 0;
        while i < n
            invariant
                n == rules@.len(),
                i <= n,
                rules_safe(rules@, *destination),
                acc@ == direct_hits(rules@, *destination, i as int),
                positions_in(rules@, acc@),
            decreases n - i,
        {
            assert(rule_safe(rules@[i as int], *destination));
            if self.rule_matches(&rules[i], destination) {
                acc.push(i);
            }
            i = i + 1;
        }
        acc
    }

    /// `acc` extended by the rules that match `ip` and equal no rule listed.
    fn add_resolved_positions(&self, ip: IpAddress, rules: &[RouteRule], acc: Vec<usize>) -> (r: Vec<usize>)
        requires
            positions_in(rules@, acc@),
        ensures
            r@ == resolved_hits(rules@, ip, acc@, rules@.len() as int),
            positions_in(rules@, r@),
    {
        let n = rules.len();
        let mut cur = acc;
        let ghost start = cur@;
        let dest = Destination::ip(ip);
        let mut i: usize = 0;
        while i < n
            invariant
                n == rules@.len(),
                i <= n,
                dest == Destination::Ip(ip),
                cur@ == resolved_hits(rules@, ip, start, i as int),
                positions_in(rules@, cur@),
            decreases n - i,
        {
            if self.rule_matches(&rules[i], &dest) && !contains_same_rule(rules, &cur, &rules[i]) {
                cur.push(i);
            }
            i = i + 1;
        }
        cur
    }

    /// All rules matching a destination, sorted by priority (stable). For a
    /// domain, when the matcher has a resolver, the rules matching the
    /// addresses it resolved to (`resolved`) are added after the direct
    /// matches, skipping rules equal to one already listed; a failed
    /// resolution is returned as the error. `resolved` is not looked at in
    /// the other cases.
    pub fn find_all_matching_rules<'a>(
        &self,
        destination: &Destination,
        rules: &'a [RouteRule],
        resolved: crate::error::Result<Vec<IpAddress>>,
    ) -> (r: crate::error::Result<Vec<&'a RouteRule>>)
        requires
            rules_safe(rules@, *destination),
        ensures
            !(*destination is Domain && self.spec_has_resolver()) ==> (r matches Ok(v)
                && rules_in_priority_order(rules@, collected_hits(*self, *destination, rules@, Seq::empty()), v@)),
            (*destination is Domain && self.spec_has_resolver()) ==> (match resolved {
                Err(e) => r == Err::<Vec<&RouteRule>, NicAutoSwitchError>(e),
                Ok(addrs) => r matches Ok(v)
                    && rules_in_priority_order(rules@, collected_hits(*self, *destination, rules@, addrs@), v@),
            }),
    {
        let direct = self.direct_positions(destination, rules);
        let ghost expected = direct_hits(rules@, *destination, rules@.len() as int);
        let collected = if self.dns_resolver && destination.as_domain().is_some() {
            let addrs = match resolved {
                Err(e) => return Err(e),
                Ok(a) => a,
            };
            let n = addrs.len();
            let mut acc = direct;
            let mut k: usize = 0;
            assert(addrs@.skip(0) =~= addrs@);
            while k < n
                invariant
                    n == addrs@.len(),
                    k <= n,
                    positions_in(rules@, acc@),
                    all_resolved_hits(rules@, addrs@, expected)
                        == all_resolved_hits(rules@, addrs@.skip(k as int), acc@),
                decreases n - k,
            {
                proof {
                    assert(addrs@.skip(k as int)[0] == addrs@[k as int]);
                    assert(addrs@.skip(k as int).drop_first() =~= addrs@.skip(k + 1));
                }
                acc = self.add_resolved_positions(addrs[k], rules, acc);
                k = k + 1;
            }
            assert(addrs@.skip(n as int) =~= Seq::<IpAddress>::empty());
            acc
        } else {
            direct
        };
        let sorted = sort_by_priority(rules, &collected);
        let m = sorted.len();
        let mut out: Vec<&'a RouteRule> = Vec::new();
        let mut j: usize = 0;
        while j < m
            invariant
                m == sorted@.len(),
                j <= m,
                positions_in(rules@, sorted@),
                out@.len() == j,
                forall|q: int| 0 <= q < j ==> *(#[trigger] out@[q]) == rules@[sorted@[q] as int],
            decreases m - j,
        {
            assert(sorted@[j as int] < rules@.len());
            out.push(&rules[sorted[j]]);
            j = j + 1;
        }
        assert(rules_in_priority_order(rules@, collected@, out@));
        Ok(out)
    }
}

/// Two matching conditions are equal.
pub open spec fn same_match_on(a: MatchOn, b: MatchOn) -> bool {
    match a {
        MatchOn::Cidr { cidr: x } => b matches MatchOn::Cidr { cidr: y } && x == y,
        MatchOn::Ip { ip: x } => b matches MatchOn::Ip { ip: y } && x == y,
        MatchOn::Domain { domain: x } => b matches MatchOn::Domain { domain: y } && x@ == y@,
        MatchOn::DomainPattern { domain_pattern: x } => b matches MatchOn::DomainPattern { domain_pattern: y } && x@ == y@,
    }
}

/// Two rules are equal field by field.
pub open spec fn same_rule(a: RouteRule, b: RouteRule) -> bool {
    &&& a.name@ == b.name@
    &&& same_match_on(a.match_on, b.match_on)
    &&& a.route_via.interface@ == b.route_via.interface@
    &&& a.priority == b.priority
}

/// Positions below `n` of the rules that match `dest`, in order.
pub open spec fn direct_hits(rules: Seq<RouteRule>, dest: Destination, n: int) -> Seq<usize>
    decreases n,
{
    if n <= 0 {
        Seq::empty()
    } else {
        let s = direct_hits(rules, dest, n - 1);
        if rule_matches_spec(rules[n - 1], dest) {
            s.push((n - 1) as usize)
        } else {
            s
        }
    }
}

/// Some position in `s` holds a rule equal to `r`.
pub open spec fn has_same_rule(rules: Seq<RouteRule>, s: Seq<usize>, r: RouteRule) -> bool {
    exists|k: int| 0 <= k < s.len() && same_rule(#[trigger] rules[s[k] as int], r)
}

/// `s` extended by the positions below `n` of the rules that match `ip` and
/// are not equal to a rule already listed.
pub open spec fn resolved_hits(rules: Seq<RouteRule>, ip: IpAddress, s: Seq<usize>, n: int) -> Seq<usize>
    decreases n,
{
    if n <= 0 {
        s
    } else {
        let t = resolved_hits(rules, ip, s, n - 1);
        if rule_matches_spec(rules[n - 1], Destination::Ip(ip)) && !has_same_rule(rules, t, rules[n - 1]) {
            t.push((n - 1) as usize)
        } else {
            t
        }
    }
}

/// `s` extended by the hits of every address in turn.
pub open spec fn all_resolved_hits(rules: Seq<RouteRule>, addrs: Seq<IpAddress>, s: Seq<usize>) -> Seq<usize>
    decreases addrs.len(),
{
    if addrs.len() == 0 {
        s
    } else {
        all_resolved_hits(rules, addrs.drop_first(), resolved_hits(rules, addrs[0], s, rules.len() as int))
    }
}

/// `sorted` is `order` sorted by rule priority, rules of equal priority
/// keeping their order; `perm` maps each position of `sorted` to the
/// position in `order` it came from.
pub open spec fn stable_sort_witness(rules: Seq<RouteRule>, order: Seq<usize>, sorted: Seq<usize>, perm: Seq<int>) -> bool {
    &&& sorted.len() == order.len()
    &&& perm.len() == order.len()
    &&& forall|a: int| 0 <= a < perm.len() ==> 0 <= #[trigger] perm[a] < order.len()
    &&& forall|a: int, b: int| 0 <= a < b < perm.len() ==> #[trigger] perm[a] != #[trigger] perm[b]
    &&& forall|a: int| 0 <= a < sorted.len() ==> #[trigger] sorted[a] == order[perm[a]]
    &&& forall|a: int, b: int| #![trigger sorted[a], sorted[b]]
        0 <= a < b < sorted.len() ==> rules[sorted[a] as int].priority <= rules[sorted[b] as int].priority
    &&& forall|a: int, b: int| #![trigger sorted[a], sorted[b]]
        0 <= a < b < sorted.len() && rules[sorted[a] as int].priority == rules[sorted[b] as int].priority
            ==> perm[a] < perm[b]
}

/// `sorted` is the stable sort of `order` by rule priority.
pub open spec fn is_priority_sort(rules: Seq<RouteRule>, order: Seq<usize>, sorted: Seq<usize>) -> bool {
    exists|perm: Seq<int>| stable_sort_witness(rules, order, sorted, perm)
}

/// All positions of `s` are positions of `rules`.
pub open spec fn positions_in(rules: Seq<RouteRule>, s: Seq<usize>) -> bool {
    forall|k: int| 0 <= k < s.len() ==> #[trigger] s[k] < rules.len()
}

/// The positions `find_all_matching_rules` collects before sorting.
pub open spec fn collected_hits(m: RuleMatcher, dest: Destination, rules: Seq<RouteRule>, addrs: Seq<IpAddress>) -> Seq<usize> {
    let direct = direct_hits(rules, dest, rules.len() as int);
    if dest is Domain && m.spec_has_resolver() {
        all_resolved_hits(rules, addrs, direct)
    } else {
        direct
    }
}

/// `v` lists the rules at the positions of `order`, stably sorted by
/// priority.
pub open spec fn rules_in_priority_order(rules: Seq<RouteRule>, order: Seq<usize>, v: Seq<&RouteRule>) -> bool {
    exists|sorted: Seq<usize>| {
        &&& is_priority_sort(rules, order, sorted)
        &&& v.len() == sorted.len()
        &&& forall|k: int| 0 <= k < v.len() ==> *(#[trigger] v[k]) == rules[sorted[k] as int]
    }
}

fn same_rule_exec(a: &RouteRule, b: &RouteRule) -> (r: bool)
    ensures
        r == same_rule(*a, *b),
{
    let same_match = match (&a.match_on, &b.match_on) {
        (MatchOn::Cidr { cidr: x }, MatchOn::Cidr { cidr: y }) => *x == *y,
        (MatchOn::Ip { ip: x }, MatchOn::Ip { ip: y }) => *x == *y,
        (MatchOn::Domain { domain: x }, MatchOn::Domain { domain: y }) => str_eq(x.as_str(), y.as_str()),
        (MatchOn::DomainPattern { domain_pattern: x }, MatchOn::DomainPattern { domain_pattern: y }) => str_eq(x.as_str(), y.as_str()),
        _ => false,
    };
    str_eq(a.name.as_str(), b.name.as_str()) && same_match
        && str_eq(a.route_via.interface.as_str(), b.route_via.interface.as_str()) && a.priority == b.priority
}

fn contains_same_rule(rules: &[RouteRule], s: &Vec<usize>, r: &RouteRule) -> (res: bool)
    requires
        positions_in(rules@, s@),
    ensures
        res == has_same_rule(rules@, s@, *r),
{
    let n = s.len();
    let mut k: usize = 0;
    while k < n
        invariant
            n == s@.len(),
            k <= n,
            positions_in(rules@, s@),
            forall|j: int| 0 <= j < k ==> !same_rule(#[trigger] rules@[s@[j] as int], *r),
        decreases n - k,
    {
        assert(s@[k as int] < rules@.len());
        if same_rule_exec(&rules[s[k]], r) {
            return true;
        }
        k = k + 1;
    }
    false
}

/// The first `k` positions of `order`, stably sorted into `sorted`.
pub open spec fn sort_progress(rules: Seq<RouteRule>, order: Seq<usize>, sorted: Seq<usize>, perm: Seq<int>, k: int) -> bool {
    &&& sorted.len() == k
    &&& perm.len() == k
    &&& forall|a: int| 0 <= a < k ==> 0 <= #[trigger] perm[a] < k
    &&& forall|a: int, b: int| 0 <= a < b < k ==> #[trigger] perm[a] != #[trigger] perm[b]
    &&& forall|a: int| 0 <= a < k ==> #[trigger] sorted[a] == order[perm[a]]
    &&& positions_in(rules, sorted)
    &&& forall|a: int, b: int| #![trigger sorted[a], sorted[b]]
        0 <= a < b < k ==> rules[sorted[a] as int].priority <= rules[sorted[b] as int].priority
    &&& forall|a: int, b: int| #![trigger sorted[a], sorted[b]]
        0 <= a < b < k && rules[sorted[a] as int].priority == rules[sorted[b] as int].priority
            ==> perm[a] < perm[b]
}

/// Inserting the next position after every entry of no greater priority
/// keeps the sort stable.
proof fn lemma_insert_sorted(rules: Seq<RouteRule>, order: Seq<usize>, sorted: Seq<usize>, perm: Seq<int>, k: int, p: int)
    requires
        0 <= k < order.len(),
        positions_in(rules, order),
        sort_progress(rules, order, sorted, perm, k),
        0 <= p <= k,
        forall|a: int| 0 <= a < p ==> rules[#[trigger] sorted[a] as int].priority <= rules[order[k] as int].priority,
        p < k ==> rules[sorted[p] as int].priority > rules[order[k] as int].priority,
    ensures
        sort_progress(rules, order, sorted.insert(p, order[k]), perm.insert(p, k), k + 1),
{
    let x = order[k];
    let px = rules[x as int].priority;
    let ns = sorted.insert(p, x);
    let np = perm.insert(p, k);
    sorted.insert_ensures(p, x);
    perm.insert_ensures(p, k);
    assert forall|a: int| p <= a < sorted.len() implies rules[#[trigger] sorted[a] as int].priority > px by {
        if p < a {
            assert(rules[sorted[p] as int].priority <= rules[sorted[a] as int].priority);
        }
    }
    assert forall|a: int| 0 <= a < k + 1 implies 0 <= #[trigger] np[a] < k + 1 by {
        if a > p {
            assert(np[a] == perm[a - 1]);
        }
    }
    assert forall|a: int, b: int| 0 <= a < b < k + 1 implies #[trigger] np[a] != #[trigger] np[b] by {
        if b > p {
            assert(np[b] == perm[b - 1]);
        }
        if a > p {
            assert(np[a] == perm[a - 1]);
        }
    }
    assert forall|a: int| 0 <= a < k + 1 implies #[trigger] ns[a] == order[np[a]] by {
        if a > p {
            assert(ns[a] == sorted[a - 1]);
            assert(np[a] == perm[a - 1]);
        }
    }
    assert forall|a: int| 0 <= a < ns.len() implies #[trigger] ns[a] < rules.len() by {
        if a > p {
            assert(ns[a] == sorted[a - 1]);
        } else if a < p {
            assert(ns[a] == sorted[a]);
        }
    }
    assert forall|a: int, b: int| #![trigger ns[a], ns[b]]
        0 <= a < b < k + 1 implies rules[ns[a] as int].priority <= rules[ns[b] as int].priority
            && (rules[ns[a] as int].priority == rules[ns[b] as int].priority ==> np[a] < np[b]) by {
        if b < p {
            assert(ns[a] == sorted[a] && ns[b] == sorted[b]);
            assert(rules[sorted[a] as int].priority <= rules[sorted[b] as int].priority);
        } else if b == p {
            assert(ns[a] == sorted[a]);
            assert(rules[sorted[a] as int].priority <= px);
        } else if a < p {
            assert(ns[a] == sorted[a] && ns[b] == sorted[b - 1]);
            assert(np[b] == perm[b - 1]);
            assert(rules[sorted[a] as int].priority <= rules[sorted[b - 1] as int].priority);
        } else if a == p {
            assert(ns[b] == sorted[b - 1]);
            assert(rules[sorted[b - 1] as int].priority > px);
        } else {
            assert(ns[a] == sorted[a - 1] && ns[b] == sorted[b - 1]);
            assert(np[a] == perm[a - 1]);
            assert(np[b] == perm[b - 1]);
            assert(rules[sorted[a - 1] as int].priority <= rules[sorted[b - 1] as int].priority);
        }
    }
}

/// Stable insertion sort of rule positions by rule priority.
fn sort_by_priority(rules: &[RouteRule], order: &Vec<usize>) -> (sorted: Vec<usize>)
    requires
        positions_in(rules@, order@),
    ensures
        is_priority_sort(rules@, order@, sorted@),
        positions_in(rules@, sorted@),
{
    let n = order.len();
    let mut sorted: Vec<usize> = Vec::new();
    let ghost mut perm: Seq<int> = Seq::empty();
    let mut k: usize = 0;
    while k < n
        invariant
            n == order@.len(),
            k <= n,
            positions_in(rules@, order@),
            sort_progress(rules@, order@, sorted@, perm, k as int),
        decreases n - k,
    {
        let x = order[k];
        assert(x < rules@.len());
        let px = rules[x].priority;
        let mut p: usize = 0;
        while p < sorted.len() && rules[sorted[p]].priority <= px
            invariant
                p <= sorted@.len(),
                positions_in(rules@, sorted@),
                forall|a: int| 0 <= a < p ==> rules@[#[trigger] sorted@[a] as int].priority <= px,
            decreases sorted@.len() - p,
        {
            p = p + 1;
        }
        proof {
            lemma_insert_sorted(rules@, order@, sorted@, perm, k as int, p as int);
            perm = perm.insert(p as int, k as int);
        }
        sorted.insert(p, x);
        k = k + 1;
    }
    assert(stable_sort_witness(rules@, order@, sorted@, perm));
    sorted
}

impl Default for RuleMatcher {
    fn default() -> (r: Self)
        ensures
            !r.spec_has_resolver(),
    {
        Self::new()
    }
}

} // verus!
