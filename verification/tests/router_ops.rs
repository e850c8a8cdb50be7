use nic_autoswitch::config::{MatchOn, RouteRule, RouteVia};
use nic_autoswitch::net::{Cidr, IpAddress};
use nic_autoswitch::router::{
    KernelRequest, RouteManager, RouteOp, RuleOperator, IPV4_TABLE_START, build_rule_message, is_already_exists,
    is_no_such_entry, kernel_outcome, netlink_errno, route_matches_destination, route_uses_interface, rule_in_table,
    table_id_to_u8,
};
use nic_autoswitch::engine::executor::RuleExecutor;
use nic_autoswitch::error::NicAutoSwitchError;

fn ip(s: &str) -> IpAddress {
    match s.parse::<core::net::IpAddr>().unwrap() {
        core::net::IpAddr::V4(a) => IpAddress::V4(u32::from(a)),
        core::net::IpAddr::V6(a) => IpAddress::V6(u128::from(a)),
    }
}

fn cidr(s: &str) -> Cidr {
    let (a, p) = s.split_once('/').unwrap();
    Cidr::new(ip(a), p.parse().unwrap()).unwrap()
}

fn outcome(op: RouteOp) -> Result<(), String> {
    match op {
        RouteOp::Done => Ok(()),
        RouteOp::Fail(e) => Err(e.to_text()),
        RouteOp::Kernel(_) => Ok(()),
    }
}

fn create_test_rule(name: &str, match_on: MatchOn) -> RouteRule {
    RouteRule { name: name.to_string(), match_on, route_via: RouteVia { interface: "eth0".to_string() }, priority: 100 }
}

fn disconnected() -> RouteManager {
    RouteManager::default().with_dry_run(false)
}

#[test]
fn test_route_manager_new_with_valid_id() {
    let result = RouteManager::new(100);
    assert!(result.is_ok());
    let manager = result.unwrap();
    assert_eq!(manager.base_table_id(), 100);
    assert!(manager.is_dry_run());
}

#[test]
fn test_route_manager_new_with_invalid_low_id() {
    let result = RouteManager::new(50);
    assert!(result.is_err());
}

#[test]
fn test_route_manager_new_with_invalid_high_id() {
    let result = RouteManager::new(300);
    assert!(result.is_err());
}

#[test]
fn base_table_range_error_text() {
    let err = RouteManager::new(300).unwrap_err();
    assert_eq!(err.to_text(), "Invalid input: base_table_id should be between 100 and 199");
    let err = RouteManager::with_connection(99, true).unwrap_err();
    assert_eq!(err.to_text(), "Invalid input: base_table_id must be between 100 and 199");
}

#[test]
fn test_table_id_v4_calculation() {
    let manager = RouteManager::new(100).unwrap();
    assert_eq!(manager.table_id_v4(0), 100);
    assert_eq!(manager.table_id_v4(1), 101);
    assert_eq!(manager.table_id_v4(10), 110);
}

#[test]
fn test_table_id_v6_calculation() {
    let manager = RouteManager::new(100).unwrap();
    assert_eq!(manager.table_id_v6(0), 200);
    assert_eq!(manager.table_id_v6(1), 201);
    assert_eq!(manager.table_id_v6(10), 210);
}

#[test]
fn test_route_manager_default() {
    let manager = RouteManager::default();
    assert_eq!(manager.base_table_id(), IPV4_TABLE_START);
    assert!(manager.is_dry_run());
    assert!(!manager.is_connected());
}

#[test]
fn test_add_route_succeeds_for_dry_run() {
    let manager = RouteManager::default();
    let op = manager.add_route(cidr("192.168.1.0/24"), Some(ip("192.168.1.1")), "eth0", 100, 100);
    assert!(outcome(op).is_ok());
}

#[test]
fn test_remove_route_succeeds_for_dry_run() {
    let manager = RouteManager::default();
    assert!(outcome(manager.remove_route(cidr("192.168.1.0/24"), 100)).is_ok());
}

#[test]
fn test_flush_table_returns_zero_for_dry_run() {
    let manager = RouteManager::default();
    assert_eq!(manager.needs_kernel().unwrap(), false);
}

#[test]
fn test_add_policy_rule_succeeds_for_dry_run() {
    let manager = RouteManager::default();
    assert!(outcome(manager.add_policy_rule(Some(cidr("10.0.0.0/8")), None, 100, 100)).is_ok());
}

#[test]
fn test_remove_policy_rule_succeeds_for_dry_run() {
    let manager = RouteManager::default();
    assert!(outcome(manager.remove_policy_rule(Some(cidr("10.0.0.0/8")), None, 100, 100)).is_ok());
}

#[test]
fn test_add_route_without_handle_returns_error() {
    let manager = disconnected();
    let op = manager.add_route(cidr("192.168.1.0/24"), None, "eth0", 100, 100);
    assert!(outcome(op).is_err());
}

#[test]
fn test_resolve_interface_index_without_handle_returns_error() {
    let manager = RouteManager::default();
    assert!(manager.can_resolve_interface().is_err());
}

#[test]
fn test_flush_interface_routes_returns_zero_for_dry_run() {
    let manager = RouteManager::default();
    let mut executor = RuleExecutor::new(manager);
    let result = executor.flush_interface("eth0", 100, Ok(7));
    assert!(matches!(result, Ok(0)));
}

#[test]
fn kernel_outcome_tolerates_existing_and_missing_entries() {
    assert!(kernel_outcome(true, None, None).is_ok());
    assert!(kernel_outcome(true, Some(17), Some("exists".to_string())).is_ok());
    assert!(matches!(
        kernel_outcome(true, Some(2), Some("Failed to add".to_string())),
        Err(NicAutoSwitchError::Route(m)) if m == "Failed to add"
    ));
    assert!(kernel_outcome(false, Some(2), Some("gone".to_string())).is_ok());
    assert!(kernel_outcome(false, Some(6), Some("gone".to_string())).is_ok());
    assert!(matches!(
        kernel_outcome(false, Some(17), Some("Failed to remove".to_string())),
        Err(NicAutoSwitchError::Route(m)) if m == "Failed to remove"
    ));
    assert!(matches!(kernel_outcome(false, None, Some("x".to_string())), Err(NicAutoSwitchError::Route(_))));
}

#[test]
fn policy_rules_are_flushed_by_table() {
    assert!(rule_in_table(100, 100));
    assert!(!rule_in_table(101, 100));
}

#[test]
fn test_add_ipv6_route_succeeds_for_dry_run() {
    let manager = RouteManager::default();
    assert!(outcome(manager.add_route(cidr("::/0"), None, "wlan0", 200, 100)).is_ok());
}

#[test]
fn test_add_policy_rule_ipv6_succeeds_for_dry_run() {
    let manager = RouteManager::default();
    assert!(outcome(manager.add_policy_rule(Some(cidr("2001:db8::/32")), None, 200, 100)).is_ok());
}

#[test]
fn test_table_id_to_u8_valid() {
    assert_eq!(table_id_to_u8(100).unwrap(), 100);
    assert_eq!(table_id_to_u8(255).unwrap(), 255);
    assert_eq!(table_id_to_u8(0).unwrap(), 0);
}

#[test]
fn test_table_id_to_u8_overflow_returns_error() {
    let result = table_id_to_u8(256);
    assert!(result.is_err());
    assert!(result.unwrap_err().to_text().contains("exceeds maximum"));
}

#[test]
fn test_flush_table_with_overflow_id_returns_error() {
    let manager = RouteManager::with_connection(100, false).unwrap();
    assert!(outcome(manager.flush_table_complete(300)).is_err());
}

#[test]
fn test_flush_table_complete_dry_run_returns_zero() {
    let manager = RouteManager::default();
    assert!(matches!(manager.flush_table_complete(100), RouteOp::Done));
}

#[test]
fn connected_manager_asks_the_kernel() {
    let manager = RouteManager::with_connection(150, false).unwrap();
    assert!(manager.is_connected());
    match manager.add_route(cidr("10.0.0.0/8"), Some(ip("2001:db8::1")), "eth0", 150, 7) {
        RouteOp::Kernel(KernelRequest::AddRoute { destination, gateway, interface, table_id, metric }) => {
            assert_eq!(destination, cidr("10.0.0.0/8"));
            assert_eq!(gateway, None);
            assert_eq!(interface, "eth0");
            assert_eq!(table_id, 150);
            assert_eq!(metric, 7);
        },
        other => panic!("unexpected {:?}", other),
    }
    match manager.flush_table_complete(150) {
        RouteOp::Kernel(KernelRequest::FlushTable { table }) => assert_eq!(table, 150),
        other => panic!("unexpected {:?}", other),
    }
}

#[test]
fn policy_rule_message_follows_family() {
    let m = build_rule_message(Some(cidr("2001:db8::/32")), Some(cidr("10.0.0.0/8")), 100, 5, false).unwrap();
    assert_eq!(m.table, 100);
    assert!(!m.is_ipv4);
    assert_eq!(m.destination, Some(cidr("2001:db8::/32")));
    assert_eq!(m.source, None);
    assert!(build_rule_message(None, None, 256, 5, true).is_err());
}

#[test]
fn errno_classification() {
    assert!(is_already_exists(Some(17)));
    assert!(!is_already_exists(Some(2)));
    assert!(!is_already_exists(None));
    assert!(is_no_such_entry(Some(2)));
    assert!(is_no_such_entry(Some(6)));
    assert!(!is_no_such_entry(Some(17)));
    assert_eq!(netlink_errno(Some(-17)), Some(17));
    assert_eq!(netlink_errno(Some(2)), Some(2));
    assert_eq!(netlink_errno(None), None);
}

#[test]
fn route_listing_checks() {
    let dests = vec![ip("10.0.0.0")];
    assert!(route_matches_destination(8, &dests, cidr("10.0.0.0/8")));
    assert!(!route_matches_destination(16, &dests, cidr("10.0.0.0/8")));
    assert!(route_uses_interface(&vec![3, 4], 4));
    assert!(!route_uses_interface(&vec![3, 4], 5));
}

#[test]
fn stale_tables_cover_both_families() {
    let manager = RouteManager::new(100).unwrap();
    let tables = manager.stale_table_ids();
    assert_eq!(tables.len(), 64);
    assert_eq!(&tables[0..4], &[100, 200, 101, 201]);
    assert_eq!(tables[62], 131);
    assert_eq!(tables[63], 231);
}

#[test]
fn test_rule_operator_new() {
    let manager = RouteManager::default();
    let _operator = RuleOperator::new(manager);
}

#[test]
fn test_apply_rule_with_cidr_succeeds() {
    let operator = RuleOperator::new(RouteManager::default());
    let rule = create_test_rule("test-cidr", MatchOn::Cidr { cidr: cidr("10.0.0.0/8") });
    assert!(operator.apply_rule(&rule, 0, 100).is_ok());
}

#[test]
fn test_apply_rule_with_ip_succeeds() {
    let operator = RuleOperator::new(RouteManager::default());
    let rule = create_test_rule("test-ip", MatchOn::Ip { ip: ip("192.168.1.1") });
    assert!(operator.apply_rule(&rule, 0, 100).is_ok());
}

#[test]
fn test_apply_rule_with_domain_returns_error() {
    let operator = RuleOperator::new(RouteManager::default());
    let rule = create_test_rule("test-domain", MatchOn::Domain { domain: "example.com".to_string() });
    let result = operator.apply_rule(&rule, 0, 100);
    assert!(result.is_err());
    assert!(result.unwrap_err().to_text().contains("DNS resolution"));
}

#[test]
fn test_remove_rule_with_cidr_succeeds() {
    let operator = RuleOperator::new(RouteManager::default());
    let rule = create_test_rule("test-cidr", MatchOn::Cidr { cidr: cidr("10.0.0.0/8") });
    assert!(operator.remove_rule(&rule, 100).is_ok());
}

#[test]
fn test_validate_rule_with_valid_rule_succeeds() {
    let operator = RuleOperator::new(RouteManager::default());
    let rule = create_test_rule("test-cidr", MatchOn::Cidr { cidr: cidr("10.0.0.0/8") });
    assert!(operator.validate_rule(&rule).is_ok());
}

#[test]
fn test_validate_rule_with_empty_name_returns_error() {
    let operator = RuleOperator::new(RouteManager::default());
    let rule = create_test_rule("", MatchOn::Cidr { cidr: cidr("10.0.0.0/8") });
    assert!(operator.validate_rule(&rule).is_err());
}

#[test]
fn test_validate_rule_with_empty_interface_returns_error() {
    let operator = RuleOperator::new(RouteManager::default());
    let rule = RouteRule {
        name: "test-rule".to_string(),
        match_on: MatchOn::Cidr { cidr: cidr("10.0.0.0/8") },
        route_via: RouteVia { interface: "".to_string() },
        priority: 100,
    };
    let result = operator.validate_rule(&rule);
    assert!(result.is_err());
    assert!(result.unwrap_err().to_text().contains("Interface cannot be empty"));
}

#[test]
fn test_apply_rule_with_domain_pattern_returns_error() {
    let operator = RuleOperator::new(RouteManager::default());
    let rule = create_test_rule("test-pattern", MatchOn::DomainPattern { domain_pattern: "*.example.com".to_string() });
    let result = operator.apply_rule(&rule, 0, 100);
    assert!(result.is_err());
    assert!(result.unwrap_err().to_text().contains("DNS resolution"));
}

#[test]
fn test_get_destination_with_cidr() {
    let operator = RuleOperator::new(RouteManager::default());
    let rule = create_test_rule("test", MatchOn::Cidr { cidr: cidr("10.0.0.0/8") });
    let result = operator.get_destination(&rule);
    assert!(result.is_ok());
    assert_eq!(result.unwrap(), cidr("10.0.0.0/8"));
}

#[test]
fn test_get_destination_with_ipv4() {
    let operator = RuleOperator::new(RouteManager::default());
    let rule = create_test_rule("test", MatchOn::Ip { ip: ip("192.168.1.1") });
    let dest = operator.get_destination(&rule).unwrap();
    assert!(dest.is_ipv4());
    assert_eq!(dest.prefix(), 32);
}

#[test]
fn test_get_destination_with_ipv6() {
    let operator = RuleOperator::new(RouteManager::default());
    let rule = create_test_rule("test", MatchOn::Ip { ip: ip("2001:db8::1") });
    let dest = operator.get_destination(&rule).unwrap();
    assert!(dest.is_ipv6());
    assert_eq!(dest.prefix(), 128);
}

#[test]
fn test_get_destination_with_domain_returns_error() {
    let operator = RuleOperator::new(RouteManager::default());
    let rule = create_test_rule("test", MatchOn::Domain { domain: "example.com".to_string() });
    assert!(operator.get_destination(&rule).is_err());
}

#[test]
fn connected_apply_gives_policy_rule_then_route() {
    let operator = RuleOperator::new(RouteManager::with_connection(100, false).unwrap());
    let rule = create_test_rule("corp", MatchOn::Cidr { cidr: cidr("10.0.0.0/8") });
    let (first, second) = operator.apply_rule(&rule, 0, 101).unwrap();
    assert!(matches!(first, RouteOp::Kernel(KernelRequest::AddPolicyRule { table_id: 101, priority: 100, is_ipv4: true, .. })));
    assert!(matches!(second, RouteOp::Kernel(KernelRequest::AddRoute { table_id: 101, metric: 100, .. })));
}
