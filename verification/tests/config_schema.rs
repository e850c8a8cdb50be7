use nic_autoswitch::config::{
    Config, ConfigEvent, GlobalConfig, InterfaceConfig, InterfaceType, MatchBy, MatchOn, RouteRule, RouteVia,
    WifiProfile, MAX_TABLE_ID_START, config_change,
};
use nic_autoswitch::net::{Cidr, IpAddress};

fn ip(s: &str) -> IpAddress {
    match s.parse::<core::net::IpAddr>().unwrap() {
        core::net::IpAddr::V4(a) => IpAddress::V4(u32::from(a)),
        core::net::IpAddr::V6(a) => IpAddress::V6(u128::from(a)),
    }
}

fn cidr(s: &str) -> Cidr {
    let (a, p) = s.split_once('/').unwrap();
    Cidr::new(ip(a), p.parse().unwrap()).unwrap()
}

fn create_valid_global_config() -> GlobalConfig {
    GlobalConfig { monitor_interval: 5, log_level: "info".to_string(), dry_run: false, table_id_start: 100 }
}

fn create_valid_interface_config() -> InterfaceConfig {
    InterfaceConfig { interface_type: InterfaceType::Lan, match_by: MatchBy::Name { name: "eth0".to_string() }, priority: 10 }
}

fn create_valid_route_rule() -> RouteRule {
    RouteRule {
        name: "test-rule".to_string(),
        match_on: MatchOn::Cidr { cidr: cidr("10.0.0.0/8") },
        route_via: RouteVia { interface: "eth0".to_string() },
        priority: 100,
    }
}

#[test]
fn test_global_config_default_values_are_valid() {
    let config = GlobalConfig::default();
    assert!(config.validate().is_ok());
}

#[test]
fn test_global_config_with_zero_interval_returns_error() {
    let mut config = create_valid_global_config();
    config.monitor_interval = 0;
    let result = config.validate();
    assert!(result.is_err());
    assert!(result.unwrap_err().to_text().contains("monitor_interval"));
}

#[test]
fn test_global_config_with_invalid_log_level_returns_error() {
    let mut config = create_valid_global_config();
    config.log_level = "invalid".to_string();
    let result = config.validate();
    assert!(result.is_err());
    assert!(result.unwrap_err().to_text().contains("log_level"));
}

#[test]
fn test_global_config_with_table_id_below_range_returns_error() {
    let mut config = create_valid_global_config();
    config.table_id_start = 50;
    let result = config.validate();
    assert!(result.is_err());
    assert!(result.unwrap_err().to_text().contains("table_id_start"));
}

#[test]
fn test_global_config_with_table_id_above_range_returns_error() {
    let mut config = create_valid_global_config();
    config.table_id_start = 300;
    let result = config.validate();
    assert!(result.is_err());
}

#[test]
fn test_interface_config_with_valid_name_succeeds() {
    let config = create_valid_interface_config();
    assert!(config.validate().is_ok());
}

#[test]
fn test_interface_config_with_empty_name_returns_error() {
    let config = InterfaceConfig { interface_type: InterfaceType::Lan, match_by: MatchBy::Name { name: "".to_string() }, priority: 10 };
    let result = config.validate();
    assert!(result.is_err());
    assert!(result.unwrap_err().to_text().contains("name cannot be empty"));
}

#[test]
fn test_interface_config_with_empty_pattern_returns_error() {
    let config = InterfaceConfig { interface_type: InterfaceType::Lan, match_by: MatchBy::Pattern { pattern: "".to_string() }, priority: 10 };
    let result = config.validate();
    assert!(result.is_err());
}

#[test]
fn test_interface_config_with_empty_mac_returns_error() {
    let config = InterfaceConfig { interface_type: InterfaceType::Lan, match_by: MatchBy::Mac { mac: "".to_string() }, priority: 10 };
    let result = config.validate();
    assert!(result.is_err());
}

#[test]
fn test_route_rule_with_valid_cidr_succeeds() {
    let rule = create_valid_route_rule();
    assert!(rule.validate().is_ok());
}

#[test]
fn test_route_rule_with_empty_name_returns_error() {
    let mut rule = create_valid_route_rule();
    rule.name = "".to_string();
    let result = rule.validate();
    assert!(result.is_err());
    assert!(result.unwrap_err().to_text().contains("name cannot be empty"));
}

#[test]
fn test_route_rule_with_valid_domain_pattern_succeeds() {
    let rule = RouteRule {
        name: "wildcard".to_string(),
        match_on: MatchOn::DomainPattern { domain_pattern: "*.example.com".to_string() },
        route_via: RouteVia { interface: "eth0".to_string() },
        priority: 100,
    };
    assert!(rule.validate().is_ok());
}

#[test]
fn test_route_rule_with_invalid_domain_pattern_returns_error() {
    let rule = RouteRule {
        name: "invalid-wildcard".to_string(),
        match_on: MatchOn::DomainPattern { domain_pattern: "example.com".to_string() },
        route_via: RouteVia { interface: "eth0".to_string() },
        priority: 100,
    };
    let result = rule.validate();
    assert!(result.is_err());
    assert!(result.unwrap_err().to_text().contains("must start with '*'"));
}

#[test]
fn prefix_domain_pattern_is_accepted() {
    let rule = RouteRule {
        name: "prefix-wildcard".to_string(),
        match_on: MatchOn::DomainPattern { domain_pattern: "heals-*".to_string() },
        route_via: RouteVia { interface: "eth0".to_string() },
        priority: 100,
    };
    assert!(rule.validate().is_ok());
}

#[test]
fn test_config_with_empty_interfaces_returns_error() {
    let config = Config::default();
    let result = config.validate();
    assert!(result.is_err());
    assert!(result.unwrap_err().to_text().contains("At least one interface"));
}

#[test]
fn test_config_with_valid_interface_succeeds() {
    let mut config = Config::default();
    config.interfaces.insert("eth0".to_string(), create_valid_interface_config());
    assert!(config.validate().is_ok());
}

#[test]
fn test_match_on_cidr_parses_ipv4_correctly() {
    let match_on = MatchOn::Cidr { cidr: cidr("10.0.0.0/8") };
    if let MatchOn::Cidr { cidr } = match_on {
        assert!(cidr.contains(ip("10.1.2.3")));
        assert!(!cidr.contains(ip("8.8.8.8")));
    } else {
        panic!("Expected Cidr variant");
    }
}

#[test]
fn test_match_on_cidr_parses_ipv6_correctly() {
    let match_on = MatchOn::Cidr { cidr: cidr("2001:db8::/32") };
    if let MatchOn::Cidr { cidr } = match_on {
        assert!(cidr.contains(ip("2001:db8::1")));
        assert!(!cidr.contains(ip("2001:db9::1")));
    } else {
        panic!("Expected Cidr variant");
    }
}

#[test]
fn test_match_on_ip_accepts_valid_ipv4() {
    let match_on = MatchOn::Ip { ip: ip("192.168.1.1") };
    if let MatchOn::Ip { ip } = match_on {
        assert!(ip.is_ipv4());
    } else {
        panic!("Expected Ip variant");
    }
}

#[test]
fn test_match_on_ip_accepts_valid_ipv6() {
    let match_on = MatchOn::Ip { ip: ip("::1") };
    if let MatchOn::Ip { ip } = match_on {
        assert!(ip.is_ipv6());
    } else {
        panic!("Expected Ip variant");
    }
}

#[test]
fn test_wifi_profile_with_empty_interface_returns_error() {
    let profile = WifiProfile { interface: "".to_string(), rules: vec![create_valid_route_rule()] };
    let result = profile.validate();
    assert!(result.is_err());
    assert!(result.unwrap_err().to_text().contains("interface cannot be empty"));
}

#[test]
fn test_config_with_wifi_profile_and_default_rules_succeeds() {
    let mut config = Config::default();
    config.interfaces.insert("eth0".to_string(), create_valid_interface_config());
    config.wifi_profiles.insert(
        "CorpWiFi".to_string(),
        WifiProfile { interface: "wlan0".to_string(), rules: vec![create_valid_route_rule()] },
    );
    config.routing.default_rules.push(create_valid_route_rule());
    assert!(config.validate().is_ok());
}

#[test]
fn test_global_config_case_insensitive_log_level() {
    let mut config = create_valid_global_config();
    config.log_level = "INFO".to_string();
    assert!(config.validate().is_ok());
    config.log_level = "Debug".to_string();
    assert!(config.validate().is_ok());
    config.log_level = "WARN".to_string();
    assert!(config.validate().is_ok());
    config.log_level = "ERROR".to_string();
    assert!(config.validate().is_ok());
    config.log_level = "TRACE".to_string();
    assert!(config.validate().is_ok());
}

#[test]
fn test_global_config_table_id_boundary_values() {
    let mut config = create_valid_global_config();
    config.table_id_start = 100;
    assert!(config.validate().is_ok());
    config.table_id_start = MAX_TABLE_ID_START;
    assert!(config.validate().is_ok());
    config.table_id_start = 99;
    assert!(config.validate().is_err());
    config.table_id_start = MAX_TABLE_ID_START + 1;
    assert!(config.validate().is_err());
}

#[test]
fn test_interface_config_with_valid_pattern_succeeds() {
    let config = InterfaceConfig { interface_type: InterfaceType::Wlan, match_by: MatchBy::Pattern { pattern: "wlan*".to_string() }, priority: 20 };
    assert!(config.validate().is_ok());
}

#[test]
fn test_interface_config_with_valid_mac_succeeds() {
    let config = InterfaceConfig { interface_type: InterfaceType::Lan, match_by: MatchBy::Mac { mac: "aa:bb:cc:dd:ee:ff".to_string() }, priority: 10 };
    assert!(config.validate().is_ok());
}

#[test]
fn test_wifi_profile_with_valid_interface_and_no_rules_succeeds() {
    let profile = WifiProfile { interface: "wlan0".to_string(), rules: vec![] };
    assert!(profile.validate().is_ok());
}

#[test]
fn test_config_with_invalid_interface_in_interfaces_returns_error() {
    let mut config = Config::default();
    config.interfaces.insert(
        "bad".to_string(),
        InterfaceConfig { interface_type: InterfaceType::Lan, match_by: MatchBy::Name { name: "".to_string() }, priority: 10 },
    );
    let result = config.validate();
    assert!(result.is_err());
    assert!(result.unwrap_err().to_text().contains("interface 'bad'"));
}

#[test]
fn test_config_with_invalid_wifi_profile_returns_error() {
    let mut config = Config::default();
    config.interfaces.insert("eth0".to_string(), create_valid_interface_config());
    config.wifi_profiles.insert("BadProfile".to_string(), WifiProfile { interface: "".to_string(), rules: vec![] });
    let result = config.validate();
    assert!(result.is_err());
    assert!(result.unwrap_err().to_text().contains("wifi_profile 'BadProfile'"));
}

#[test]
fn test_config_with_invalid_default_rule_returns_error() {
    let mut config = Config::default();
    config.interfaces.insert("eth0".to_string(), create_valid_interface_config());
    config.routing.default_rules.push(RouteRule {
        name: "".to_string(),
        match_on: MatchOn::Cidr { cidr: cidr("10.0.0.0/8") },
        route_via: RouteVia { interface: "eth0".to_string() },
        priority: 100,
    });
    let result = config.validate();
    assert!(result.is_err());
}

#[test]
fn test_route_rule_with_valid_domain_succeeds() {
    let rule = RouteRule {
        name: "domain-rule".to_string(),
        match_on: MatchOn::Domain { domain: "example.com".to_string() },
        route_via: RouteVia { interface: "eth0".to_string() },
        priority: 100,
    };
    assert!(rule.validate().is_ok());
}

#[test]
fn test_route_via_equality() {
    let via1 = RouteVia { interface: "eth0".to_string() };
    let via2 = RouteVia { interface: "eth0".to_string() };
    assert_eq!(via1, via2);
}

#[test]
fn test_global_config_debug_format() {
    let config = GlobalConfig::default();
    let debug = format!("{:?}", config);
    assert!(debug.contains("monitor_interval"));
    assert!(debug.contains("log_level"));
}

#[test]
fn test_config_event_equality() {
    assert_eq!(ConfigEvent::Modified, ConfigEvent::Modified);
    assert_eq!(ConfigEvent::Deleted, ConfigEvent::Deleted);
    assert_ne!(ConfigEvent::Modified, ConfigEvent::Deleted);
}

#[test]
fn test_config_event_debug() {
    assert!(format!("{:?}", ConfigEvent::Modified).contains("Modified"));
    assert!(format!("{:?}", ConfigEvent::Deleted).contains("Deleted"));
}

#[test]
fn config_change_reports_modification_and_deletion() {
    assert_eq!(config_change(Some(5), Some(5)), None);
    assert_eq!(config_change(Some(5), Some(6)), Some(ConfigEvent::Modified));
    assert_eq!(config_change(Some(5), None), Some(ConfigEvent::Deleted));
    assert_eq!(config_change(None, Some(6)), None);
    assert_eq!(config_change(None, None), None);
}
