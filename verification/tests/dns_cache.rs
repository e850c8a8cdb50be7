use nic_autoswitch::dns::{CacheEntry, DnsResolver};
use nic_autoswitch::error::NicAutoSwitchError;
use nic_autoswitch::net::IpAddress;

const SEC: u128 = 1_000_000_000;

fn ip(s: &str) -> IpAddress {
    match s.parse::<core::net::IpAddr>().unwrap() {
        core::net::IpAddr::V4(a) => IpAddress::V4(u32::from(a)),
        core::net::IpAddr::V6(a) => IpAddress::V6(u128::from(a)),
    }
}

#[test]
fn test_dns_resolver_creation_succeeds() {
    let result = DnsResolver::new();
    assert!(result.is_ok());
}

#[test]
fn test_dns_resolver_default() {
    let resolver = DnsResolver::new().unwrap();
    assert!(resolver.default_ttl() == 60);
}

#[test]
fn test_with_custom_ttl() {
    let resolver = DnsResolver::with_config(120).unwrap();
    assert_eq!(resolver.default_ttl(), 120);
}

#[test]
fn test_cache_entry_not_expired_initially() {
    let now = 1_000 * SEC;
    let entry = CacheEntry { addresses: vec![ip("127.0.0.1")], created_at: now, ttl: 60 };
    assert!(!entry.is_expired(now));
}

#[test]
fn test_cache_entry_expires_after_ttl() {
    let now = 1_000 * SEC;
    let entry = CacheEntry { addresses: vec![ip("127.0.0.1")], created_at: now - 61 * SEC, ttl: 60 };
    assert!(entry.is_expired(now));
}

#[test]
fn test_cache_entry_not_expired_at_boundary() {
    let now = 1_000 * SEC;
    let entry = CacheEntry { addresses: vec![ip("127.0.0.1")], created_at: now - 60 * SEC, ttl: 60 };
    assert!(!entry.is_expired(now));
    assert!(entry.is_expired(now + 1));
}

#[test]
fn test_clear_cache_removes_all_entries() {
    let mut resolver = DnsResolver::new().unwrap();
    resolver.store("test.example.com", vec![ip("127.0.0.1")], 0, 60);
    let (total, _) = resolver.cache_stats(0);
    assert_eq!(total, 1);
    resolver.clear_cache();
    let (total, _) = resolver.cache_stats(0);
    assert_eq!(total, 0);
}

#[test]
fn test_prune_cache_removes_expired_entries() {
    let now = 1_000 * SEC;
    let mut resolver = DnsResolver::new().unwrap();
    resolver.store("fresh.example.com", vec![ip("127.0.0.1")], now, 60);
    resolver.store("stale.example.com", vec![ip("127.0.0.2")], now - 120 * SEC, 60);
    let (total, expired) = resolver.cache_stats(now);
    assert_eq!(total, 2);
    assert_eq!(expired, 1);
    resolver.prune_cache(now);
    let (total, expired) = resolver.cache_stats(now);
    assert_eq!(total, 1);
    assert_eq!(expired, 0);
}

#[test]
fn test_cache_stats_empty() {
    let resolver = DnsResolver::new().unwrap();
    let (total, expired) = resolver.cache_stats(0);
    assert_eq!(total, 0);
    assert_eq!(expired, 0);
}

#[test]
fn test_prune_cache_no_expired_entries() {
    let mut resolver = DnsResolver::new().unwrap();
    resolver.store("a.example.com", vec![ip("127.0.0.1")], 10 * SEC, 60);
    resolver.prune_cache(20 * SEC);
    let (total, expired) = resolver.cache_stats(20 * SEC);
    assert_eq!(total, 1);
    assert_eq!(expired, 0);
}

#[test]
fn test_resolve_invalid_domain_returns_error() {
    let mut resolver = DnsResolver::new().unwrap();
    assert!(resolver.needs_lookup("invalid.invalid", 0));
    let result = resolver.resolve("invalid.invalid", 0, Err(NicAutoSwitchError::Dns("Failed to resolve invalid.invalid".to_string())));
    assert!(result.is_err());
}

#[test]
fn empty_lookup_is_an_error_and_not_cached() {
    let mut resolver = DnsResolver::new().unwrap();
    let err = resolver.resolve("empty.example.com", 0, Ok(vec![])).unwrap_err();
    assert_eq!(err.to_text(), "DNS resolution failed: No addresses found for empty.example.com");
    assert_eq!(resolver.cache_stats(0).0, 0);
}

#[test]
fn test_resolve_localhost_cache_hit() {
    let mut resolver = DnsResolver::new().unwrap();
    let first = resolver.resolve("localhost", 0, Ok(vec![ip("127.0.0.1")])).unwrap();
    assert!(!resolver.needs_lookup("localhost", 30 * SEC));
    let second = resolver.resolve("localhost", 30 * SEC, Ok(vec![ip("10.9.9.9")])).unwrap();
    assert_eq!(first, second);
}

#[test]
fn test_resolve_with_cache_hit_avoids_dns_lookup() {
    let mut resolver = DnsResolver::new().unwrap();
    let first = resolver.resolve("localhost", 0, Ok(vec![ip("127.0.0.1")])).unwrap();
    let second = resolver.resolve("localhost", SEC, Err(NicAutoSwitchError::Timeout)).unwrap();
    assert_eq!(first, second);
    let (total, expired) = resolver.cache_stats(SEC);
    assert_eq!(total, 1);
    assert_eq!(expired, 0);
}

#[test]
fn expired_answer_is_looked_up_again() {
    let mut resolver = DnsResolver::new().unwrap();
    resolver.resolve("localhost", 0, Ok(vec![ip("127.0.0.1")])).unwrap();
    assert!(resolver.needs_lookup("localhost", 61 * SEC));
    let again = resolver.resolve("localhost", 61 * SEC, Ok(vec![ip("127.0.0.2")])).unwrap();
    assert_eq!(again, vec![ip("127.0.0.2")]);
}

#[test]
fn test_resolve_ipv4_localhost() {
    let mut resolver = DnsResolver::new().unwrap();
    let result = resolver.resolve_ipv4("localhost", 0, Ok(vec![ip("::1"), ip("127.0.0.1")]));
    let addresses = result.unwrap();
    assert!(addresses.iter().all(|ip| ip.is_ipv4()));
    assert_eq!(addresses, vec![ip("127.0.0.1")]);
}

#[test]
fn test_resolve_ipv6_success_returns_only_ipv6() {
    let mut resolver = DnsResolver::new().unwrap();
    let addresses = resolver.resolve_ipv6("localhost", 0, Ok(vec![ip("::1"), ip("127.0.0.1")])).unwrap();
    assert!(!addresses.is_empty());
    assert!(addresses.iter().all(|ip| ip.is_ipv6()));
}

#[test]
fn test_resolve_ipv6_without_ipv6_returns_error() {
    let mut resolver = DnsResolver::new().unwrap();
    let err = resolver.resolve_ipv6("v4only.example.com", 0, Ok(vec![ip("127.0.0.1")])).unwrap_err();
    assert_eq!(err.to_text(), "DNS resolution failed: No IPv6 addresses found for v4only.example.com");
}

#[test]
fn test_resolve_ipv4_invalid_domain_returns_error() {
    let mut resolver = DnsResolver::new().unwrap();
    assert!(resolver.resolve_ipv4("invalid.invalid", 0, Err(NicAutoSwitchError::Dns("x".to_string()))).is_err());
}

#[test]
fn test_resolve_ipv6_invalid_domain_returns_error() {
    let mut resolver = DnsResolver::new().unwrap();
    assert!(resolver.resolve_ipv6("invalid.invalid", 0, Err(NicAutoSwitchError::Dns("x".to_string()))).is_err());
}

#[test]
fn test_clear_cache_after_resolve() {
    let mut resolver = DnsResolver::new().unwrap();
    resolver.resolve("localhost", 0, Ok(vec![ip("127.0.0.1")])).unwrap();
    assert_eq!(resolver.cache_stats(0).0, 1);
    resolver.clear_cache();
    assert_eq!(resolver.cache_stats(0).0, 0);
}
