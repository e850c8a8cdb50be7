use nic_autoswitch::config::{MatchOn, RouteRule, RouteVia, WifiProfile};
use nic_autoswitch::engine::executor::RuleExecutor;
use nic_autoswitch::error::NicAutoSwitchError;
use nic_autoswitch::net::{Cidr, IpAddress};
use nic_autoswitch::router::{RouteManager, RouteOp};

fn ip(s: &str) -> IpAddress {
    match s.parse::<core::net::IpAddr>().unwrap() {
        core::net::IpAddr::V4(a) => IpAddress::V4(u32::from(a)),
        core::net::IpAddr::V6(a) => IpAddress::V6(u128::from(a)),
    }
}

fn cidr(s: &str) -> Cidr {
    let (a, p) = s.split_once('/').unwrap();
    Cidr::new(ip(a), p.parse().unwrap()).unwrap()
}

fn create_test_rule(name: &str) -> RouteRule {
    RouteRule {
        name: name.to_string(),
        match_on: MatchOn::Cidr { cidr: cidr("10.0.0.0/8") },
        route_via: RouteVia { interface: "eth0".to_string() },
        priority: 100,
    }
}

fn create_test_wifi_profile() -> WifiProfile {
    WifiProfile { interface: "wlan0".to_string(), rules: vec![create_test_rule("rule1"), create_test_rule("rule2")] }
}

const OK: nic_autoswitch::error::Result<()> = Ok(());

#[test]
fn test_rule_executor_new() {
    let executor = RuleExecutor::new(RouteManager::default());
    assert_eq!(executor.active_route_count(), 0);
}

#[test]
fn test_active_routes_returns_copy() {
    let executor = RuleExecutor::new(RouteManager::default());
    let routes1 = executor.active_routes();
    let routes2 = executor.active_routes();
    assert_eq!(routes1.len(), routes2.len());
}

#[test]
fn test_apply_rule_increases_active_count() {
    let mut executor = RuleExecutor::new(RouteManager::default());
    let rule = create_test_rule("test-rule");
    let result = executor.apply_rule(&rule, 0, 100, &OK);
    assert!(result.is_ok());
    assert_eq!(executor.active_route_count(), 1);
    assert!(executor.is_route_active("test-rule"));
}

#[test]
fn test_remove_rule_decreases_active_count() {
    let mut executor = RuleExecutor::new(RouteManager::default());
    let rule = create_test_rule("test-rule");
    executor.apply_rule(&rule, 0, 100, &OK).unwrap();
    let result = executor.remove_rule(&rule, 100, &OK);
    assert!(result.is_ok());
    assert_eq!(executor.active_route_count(), 0);
    assert!(!executor.is_route_active("test-rule"));
}

#[test]
fn test_apply_wifi_profile_applies_all_rules() {
    let mut executor = RuleExecutor::new(RouteManager::default());
    let profile = create_test_wifi_profile();
    let result = executor.apply_wifi_profile(&profile, 0, 100, &vec![Ok(()), Ok(())]);
    assert!(result.is_ok());
    assert_eq!(result.unwrap(), 2);
    assert_eq!(executor.active_route_count(), 2);
}

#[test]
fn test_flush_interface_removes_routes() {
    let mut executor = RuleExecutor::new(RouteManager::default());
    let rule = create_test_rule("test-rule");
    executor.apply_rule(&rule, 0, 100, &OK).unwrap();
    let result = executor.flush_interface("eth0", 100, Ok(0));
    assert!(result.is_ok());
    assert_eq!(executor.active_route_count(), 0);
}

#[test]
fn flush_interface_keeps_routes_through_other_interfaces() {
    let mut executor = RuleExecutor::new(RouteManager::default());
    executor.track_active_route("a", "eth0", 100);
    executor.track_active_route("b", "wlan0", 101);
    executor.track_active_route("c", "eth0", 100);
    assert_eq!(executor.flush_interface("eth0", 100, Ok(5)).unwrap(), 0);
    assert_eq!(executor.active_route_count(), 1);
    assert!(executor.is_route_active("b"));
}

#[test]
fn test_clear_active_routes_removes_all() {
    let mut executor = RuleExecutor::new(RouteManager::default());
    executor.track_active_route("rule1", "eth0", 100);
    executor.track_active_route("rule2", "eth0", 100);
    assert_eq!(executor.active_route_count(), 2);
    executor.clear_active_routes();
    assert_eq!(executor.active_route_count(), 0);
}

#[test]
fn test_is_route_active_returns_correct_status() {
    let mut executor = RuleExecutor::new(RouteManager::default());
    assert!(!executor.is_route_active("nonexistent"));
    executor.track_active_route("test-rule", "eth0", 100);
    assert!(executor.is_route_active("test-rule"));
    assert!(!executor.is_route_active("other-rule"));
}

#[test]
fn test_table_id_v4_delegates_to_route_manager() {
    let executor = RuleExecutor::new(RouteManager::default());
    assert_eq!(executor.table_id_v4(5), 105);
}

#[test]
fn test_table_id_v6_delegates_to_route_manager() {
    let executor = RuleExecutor::new(RouteManager::default());
    assert_eq!(executor.table_id_v6(5), 205);
}

#[test]
fn test_apply_wifi_profile_with_failing_rule_continues() {
    let mut executor = RuleExecutor::new(RouteManager::default());
    let valid_rule = create_test_rule("valid-rule");
    let invalid_rule = RouteRule {
        name: "invalid-rule".to_string(),
        match_on: MatchOn::Domain { domain: "example.com".to_string() },
        route_via: RouteVia { interface: "eth0".to_string() },
        priority: 100,
    };
    let profile = WifiProfile { interface: "wlan0".to_string(), rules: vec![valid_rule, invalid_rule] };
    let result = executor.apply_wifi_profile(&profile, 0, 100, &vec![Ok(()), Ok(())]);
    assert!(result.is_ok());
    assert_eq!(result.unwrap(), 1);
    assert_eq!(executor.active_route_count(), 1);
}

#[test]
fn tracked_route_records_interface_and_table() {
    let mut executor = RuleExecutor::new(RouteManager::default());
    executor.apply_rule(&create_test_rule("r"), 0, 103, &OK).unwrap();
    let route = executor.active_route("r").unwrap();
    assert_eq!(route.rule_name, "r");
    assert_eq!(route.interface, "eth0");
    assert_eq!(route.table_id, 103);
}

#[test]
fn without_connection_nothing_is_applied() {
    let mut executor = RuleExecutor::new(RouteManager::default().with_dry_run(false));
    let err = executor.apply_rule(&create_test_rule("r"), 0, 100, &OK).unwrap_err();
    assert!(err.to_text().contains("No rtnetlink connection"));
    assert_eq!(executor.active_route_count(), 0);
    assert!(executor.flush_interface("eth0", 100, Ok(3)).is_err());
}

#[test]
fn connected_executor_follows_kernel_outcome() {
    let mut executor = RuleExecutor::new(RouteManager::with_connection(100, false).unwrap());
    let rule = create_test_rule("r");
    let (first, _second) = executor.operator().apply_rule(&rule, 0, 100).unwrap();
    assert!(matches!(first, RouteOp::Kernel(_)));
    let failed = executor.apply_rule(&rule, 0, 100, &Err(NicAutoSwitchError::Route("refused".to_string())));
    assert!(matches!(failed, Err(NicAutoSwitchError::Route(_))));
    assert!(!executor.is_route_active("r"));
    assert!(executor.apply_rule(&rule, 0, 100, &OK).is_ok());
    assert!(executor.is_route_active("r"));
    assert_eq!(executor.flush_interface("eth0", 100, Ok(4)).unwrap(), 4);
    assert!(!executor.is_route_active("r"));
}

#[test]
fn remove_with_table_over_one_byte_fails_when_connected() {
    let mut executor = RuleExecutor::new(RouteManager::with_connection(100, false).unwrap());
    executor.track_active_route("r", "eth0", 300);
    let err = executor.remove_rule(&create_test_rule("r"), 300, &OK).unwrap_err();
    assert!(err.to_text().contains("exceeds maximum"));
    assert!(executor.is_route_active("r"));
}
