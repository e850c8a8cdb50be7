use nic_autoswitch::config::{
    Config, GlobalConfig, InterfaceConfig, InterfaceType as ConfigInterfaceType, MatchBy, MatchOn, RouteRule, RouteVia,
    RoutingConfig,
};
use nic_autoswitch::engine::dispatcher::EventDispatcher;
use nic_autoswitch::daemon::SystemdNotify;
use nic_autoswitch::dns::DnsResolver;
use nic_autoswitch::engine::executor::RuleExecutor;
use nic_autoswitch::engine::matcher::{Destination, RuleMatcher};
use nic_autoswitch::error::NicAutoSwitchError;
use nic_autoswitch::monitor::{
    link_snapshot, InterfaceChange, InterfaceInfo, InterfaceType, LinkTracker, NetworkEvent, NetworkState,
};
use nic_autoswitch::net::{Cidr, IpAddress};
use nic_autoswitch::router::{RouteManager, RouteOp};
use nic_autoswitch::strmap::StrMap;
use nic_autoswitch::text::{decimal_string, ends_with_char, eq_ascii_lowercase, starts_with_char, str_eq, surround};

const SEC: u128 = 1_000_000_000;

fn ip(s: &str) -> IpAddress {
    match s.parse::<core::net::IpAddr>().unwrap() {
        core::net::IpAddr::V4(a) => IpAddress::V4(u32::from(a)),
        core::net::IpAddr::V6(a) => IpAddress::V6(u128::from(a)),
    }
}

fn cidr(s: &str) -> Cidr {
    let (a, p) = s.split_once('/').unwrap();
    Cidr::new(ip(a), p.parse().unwrap()).unwrap()
}

fn rule(name: &str, match_on: MatchOn, via: &str, priority: u32) -> RouteRule {
    RouteRule { name: name.to_string(), match_on, route_via: RouteVia { interface: via.to_string() }, priority }
}

// ---------------------------------------------------------------------------
// Matching
// ---------------------------------------------------------------------------

#[test]
fn best_match_is_the_lowest_priority_number() {
    let rules = vec![
        rule("wide", MatchOn::Cidr { cidr: cidr("10.0.0.0/8") }, "eth0", 200),
        rule("narrow", MatchOn::Cidr { cidr: cidr("10.1.0.0/16") }, "wlan0", 50),
        rule("other", MatchOn::Cidr { cidr: cidr("192.168.0.0/16") }, "eth0", 10),
    ];
    let matcher = RuleMatcher::new();
    let dest = Destination::ip(ip("10.1.2.3"));
    let found = matcher.find_matching_rule(&dest, &rules, Ok(vec![])).unwrap().unwrap();
    assert_eq!(found.name, "narrow");
}

#[test]
fn all_matching_rules_come_sorted_by_priority() {
    let rules = vec![
        rule("wide", MatchOn::Cidr { cidr: cidr("10.0.0.0/8") }, "eth0", 200),
        rule("exact", MatchOn::Ip { ip: ip("10.1.2.3") }, "eth1", 5),
        rule("narrow", MatchOn::Cidr { cidr: cidr("10.1.0.0/16") }, "wlan0", 50),
    ];
    let matcher = RuleMatcher::new();
    let dest = Destination::ip(ip("10.1.2.3"));
    let found = matcher.find_all_matching_rules(&dest, &rules, Ok(vec![])).unwrap();
    let names: Vec<&str> = found.iter().map(|r| r.name.as_str()).collect();
    assert_eq!(names, vec!["exact", "narrow", "wide"]);
}

#[test]
fn bare_star_matches_every_domain() {
    let matcher = RuleMatcher::new();
    assert!(matcher.matches_wildcard("*", "example.com"));
    assert!(matcher.matches_wildcard("*", ""));
}

#[test]
fn suffix_pattern_needs_a_longer_name() {
    let matcher = RuleMatcher::new();
    assert!(!matcher.matches_wildcard("*.example.com", ".example.com"));
    assert!(matcher.matches_wildcard("*.example.com", "a.example.com"));
    assert!(matcher.matches_wildcard("*.example.com", "deep.sub.example.com"));
}

// ---------------------------------------------------------------------------
// Applying and removing routes
// ---------------------------------------------------------------------------

#[test]
fn dry_run_apply_always_succeeds() {
    let mut executor = RuleExecutor::new(RouteManager::new(100).unwrap());
    let r = rule("office", MatchOn::Cidr { cidr: cidr("10.0.0.0/8") }, "eth0", 100);
    let failing: nic_autoswitch::error::Result<()> = Err(NicAutoSwitchError::Timeout);
    assert!(executor.apply_rule(&r, 0, 100, &failing).is_ok());
    assert!(executor.is_route_active("office"));
}

#[test]
fn without_connection_apply_always_fails() {
    let unconnected = RouteManager::new(100).unwrap().with_dry_run(false);
    assert!(!unconnected.is_connected());
    assert!(!unconnected.is_dry_run());
    let op = unconnected.add_route(cidr("10.0.0.0/8"), None, "eth0", 100, 1);
    assert!(matches!(op, RouteOp::Fail(NicAutoSwitchError::Route(_))));
    let mut executor = RuleExecutor::new(unconnected);
    let r = rule("office", MatchOn::Cidr { cidr: cidr("10.0.0.0/8") }, "eth0", 100);
    assert!(matches!(executor.apply_rule(&r, 0, 100, &Ok(())), Err(NicAutoSwitchError::Route(_))));
    assert!(!executor.is_route_active("office"));
}

#[test]
fn remove_undoes_apply() {
    let mut executor = RuleExecutor::new(RouteManager::new(100).unwrap());
    let r = rule("office", MatchOn::Cidr { cidr: cidr("10.0.0.0/8") }, "eth0", 100);
    executor.apply_rule(&r, 0, 100, &Ok(())).unwrap();
    assert_eq!(executor.active_route_count(), 1);
    executor.remove_rule(&r, 100, &Ok(())).unwrap();
    assert_eq!(executor.active_route_count(), 0);
    assert!(!executor.is_route_active("office"));
}

// ---------------------------------------------------------------------------
// Network state
// ---------------------------------------------------------------------------

#[test]
fn address_events_leave_added_present_and_removed_absent() {
    let mut state = NetworkState::new();
    let mut info = InterfaceInfo::new("eth0".to_string(), InterfaceType::Lan);
    info.addresses.push(cidr("192.168.1.10/24"));
    state.update_interface(info);

    let event = NetworkEvent::AddressChanged {
        interface: "eth0".to_string(),
        added: vec![cidr("10.0.0.5/8")],
        removed: vec![cidr("192.168.1.10/24")],
    };
    state.apply_event(&event).unwrap();
    let iface = state.get_interface("eth0").unwrap();
    assert!(iface.addresses.contains(&cidr("10.0.0.5/8")));
    assert!(!iface.addresses.contains(&cidr("192.168.1.10/24")));
}

#[test]
fn events_never_add_an_interface() {
    let mut state = NetworkState::new();
    let event = NetworkEvent::WifiConnected { interface: "wlan0".to_string(), ssid: "Home".to_string() };
    state.apply_event(&event).unwrap();
    assert!(!state.has_interface("wlan0"));
}

// ---------------------------------------------------------------------------
// DNS cache
// ---------------------------------------------------------------------------

#[test]
fn answer_is_cached_until_it_expires() {
    let mut resolver = DnsResolver::with_config(30).unwrap();
    let first = resolver.resolve("example.com", 0, Ok(vec![ip("93.184.216.34")])).unwrap();
    assert_eq!(first, vec![ip("93.184.216.34")]);

    // Within the lifetime the cached answer wins over any new lookup.
    let cached = resolver.resolve("example.com", 30 * SEC, Err(NicAutoSwitchError::Timeout)).unwrap();
    assert_eq!(cached, vec![ip("93.184.216.34")]);

    // Once expired, the lookup decides again.
    let expired = resolver.resolve("example.com", 30 * SEC + 1, Err(NicAutoSwitchError::Timeout));
    assert!(matches!(expired, Err(NicAutoSwitchError::Timeout)));
}

// ---------------------------------------------------------------------------
// Ordered string map and text helpers
// ---------------------------------------------------------------------------

#[test]
fn strmap_keeps_insertion_order_and_unique_keys() {
    let mut m: StrMap<u32> = StrMap::new();
    assert!(m.is_empty());
    assert_eq!(m.insert("b".to_string(), 1), None);
    assert_eq!(m.insert("a".to_string(), 2), None);
    assert_eq!(m.insert("b".to_string(), 3), Some(1));
    assert_eq!(m.len(), 2);
    assert_eq!(m.key_at(0), "b");
    assert_eq!(*m.value_at(0), 3);
    assert_eq!(m.key_at(1), "a");
    assert_eq!(m.index_of("a"), Some(1));
    assert_eq!(m.get("zzz"), None);
    assert!(m.contains_key("a"));
    assert_eq!(m.remove("b"), Some(3));
    assert_eq!(m.key_at(0), "a");
    m.clear();
    assert_eq!(m.len(), 0);
}

#[test]
fn text_helpers_give_exact_values() {
    assert!(str_eq("eth0", "eth0"));
    assert!(!str_eq("eth0", "eth1"));
    assert!(starts_with_char("*.example.com", '*'));
    assert!(!starts_with_char("", '*'));
    assert!(ends_with_char("heals-*", '*'));
    assert!(!ends_with_char("heals", '*'));
    assert!(eq_ascii_lowercase("DeBuG", "debug"));
    assert!(!eq_ascii_lowercase("debugs", "debug"));
    assert_eq!(decimal_string(0), "0");
    assert_eq!(decimal_string(18446744073709551615), "18446744073709551615");
    assert_eq!(surround("[", "x", "]"), "[x]");
}

#[test]
fn direct_match_ignores_domain_rules() {
    let rules = vec![
        rule("site", MatchOn::Domain { domain: "example.com".to_string() }, "eth0", 1),
        rule("net", MatchOn::Cidr { cidr: cidr("10.0.0.0/8") }, "eth1", 20),
        rule("host", MatchOn::Ip { ip: ip("10.0.0.1") }, "eth2", 5),
    ];
    let matcher = RuleMatcher::new();
    let found = matcher.find_direct_match(&Destination::ip(ip("10.0.0.1")), &rules).unwrap();
    assert_eq!(found.name, "host");
    assert!(matcher.find_direct_match(&Destination::ip(ip("172.16.0.1")), &rules).is_none());
}

#[test]
fn dry_run_override_only_turns_it_on() {
    let mut global = nic_autoswitch::config::GlobalConfig::default();
    global.override_dry_run(false);
    assert!(!global.dry_run);
    global.override_dry_run(true);
    assert!(global.dry_run);
    global.override_dry_run(false);
    assert!(global.dry_run);
    assert_eq!(global.monitor_interval, 5);
    assert_eq!(global.table_id_start, 100);
}

#[test]
fn prune_leaves_only_live_entries() {
    let mut resolver = DnsResolver::with_config(10).unwrap();
    resolver.store("old.example", vec![ip("10.0.0.1")], 0, 10);
    resolver.store("new.example", vec![ip("10.0.0.2")], 20 * SEC, 10);
    let (total, expired) = resolver.cache_stats(25 * SEC);
    assert_eq!((total, expired), (2, 1));
    resolver.prune_cache(25 * SEC);
    assert_eq!(resolver.cache_stats(25 * SEC), (total - expired, 0));
    assert!(!resolver.needs_lookup("new.example", 25 * SEC));
    assert!(resolver.needs_lookup("old.example", 25 * SEC));
}

#[test]
fn second_resolve_gives_the_same_answer() {
    let mut resolver = DnsResolver::new().unwrap();
    let first = resolver.resolve("example.com", 0, Ok(vec![ip("1.2.3.4"), ip("5.6.7.8")])).unwrap();
    let second = resolver.resolve("example.com", SEC, Ok(vec![ip("9.9.9.9")])).unwrap();
    assert_eq!(first, second);
    assert_eq!(resolver.cache_stats(SEC), (1, 0));
}

#[test]
fn unchanged_links_give_no_events() {
    let links = || {
        vec![
            link_snapshot(1, Some("lo".to_string()), true, true),
            link_snapshot(2, Some("eth0".to_string()), true, false),
            link_snapshot(3, Some("wlan0".to_string()), false, false),
        ]
    };
    let mut tracker = LinkTracker::new(links());
    assert!(tracker.poll_changes(links()).is_empty());
    assert!(tracker.next_event().is_none());
}

#[test]
fn active_default_rule_keeps_its_route() {

    let mut interfaces = StrMap::new();
    for name in ["eth0", "eth1"] {
        interfaces.insert(
            name.to_string(),
            InterfaceConfig {
                interface_type: ConfigInterfaceType::Lan,
                match_by: MatchBy::Name { name: name.to_string() },
                priority: 10,
            },
        );
    }
    let routing =
        RoutingConfig { default_rules: vec![rule("lan", MatchOn::Cidr { cidr: cidr("10.0.0.0/8") }, "eth0", 100)] };
    let config = Config { global: GlobalConfig::default(), interfaces, wifi_profiles: StrMap::new(), routing };
    let mut dispatcher = EventDispatcher::new(config, RouteManager::new(100).unwrap());
    dispatcher.start();

    let mut state = NetworkState::new();
    for name in ["eth0", "eth1"] {
        state.update_interface(InterfaceInfo::new(name.to_string(), InterfaceType::Lan));
    }
    dispatcher.replace_network_state(state);

    dispatcher
        .handle_event(&NetworkEvent::InterfaceChanged { interface: "eth0".to_string(), change: InterfaceChange::Up })
        .unwrap();
    let before = dispatcher.active_routes();
    assert_eq!(before.len(), 1);
    let table = before[0].table_id;

    dispatcher
        .handle_event(&NetworkEvent::InterfaceChanged { interface: "eth1".to_string(), change: InterfaceChange::Up })
        .unwrap();
    let after = dispatcher.active_routes();
    assert_eq!(after.len(), 1);
    assert_eq!(after[0].rule_name, "lan");
    assert_eq!(after[0].table_id, table);
}

#[test]
fn link_listings_must_not_repeat_an_index() {
    let distinct = vec![
        link_snapshot(1, Some("lo".to_string()), true, true),
        link_snapshot(2, Some("eth0".to_string()), true, true),
    ];
    assert!(nic_autoswitch::monitor::links_distinct(&distinct));
    let repeated = vec![
        link_snapshot(2, Some("eth0".to_string()), true, true),
        link_snapshot(2, Some("eth0".to_string()), false, false),
    ];
    assert!(!nic_autoswitch::monitor::links_distinct(&repeated));
}

#[test]
fn watchdog_values_are_parsed_like_std() {
    assert_eq!(SystemdNotify::get_watchdog_interval(Some("2000000")), 1500);
    assert_eq!(SystemdNotify::get_watchdog_interval(Some("+2000000")), 1500);
    assert_eq!(SystemdNotify::get_watchdog_interval(Some("18446744073709551615")), 13835058055282163);
    assert_eq!(SystemdNotify::get_watchdog_interval(Some("18446744073709551616")), 0);
    assert_eq!(SystemdNotify::get_watchdog_interval(Some("")), 0);
    assert_eq!(SystemdNotify::get_watchdog_interval(Some("+")), 0);
    assert_eq!(SystemdNotify::get_watchdog_interval(Some("12a")), 0);
    assert_eq!(SystemdNotify::get_watchdog_interval(Some("-5")), 0);
    assert_eq!(SystemdNotify::get_watchdog_interval(None), 0);
}
