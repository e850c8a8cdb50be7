use nic_autoswitch::config::{
    Config, GlobalConfig, InterfaceConfig, InterfaceType as ConfigInterfaceType, MatchBy, MatchOn, RouteRule, RouteVia,
    RoutingConfig, WifiProfile,
};
use nic_autoswitch::engine::dispatcher::{DispatcherState, EventDispatcher, RouteAction};
use nic_autoswitch::monitor::{InterfaceChange, InterfaceInfo, InterfaceType as MonitorInterfaceType, NetworkEvent, NetworkState};
use nic_autoswitch::net::{Cidr, IpAddress};
use nic_autoswitch::router::{RouteManager, RouteOp};
use nic_autoswitch::strmap::StrMap;

fn ip(s: &str) -> IpAddress {
    match s.parse::<core::net::IpAddr>().unwrap() {
        core::net::IpAddr::V4(a) => IpAddress::V4(u32::from(a)),
        core::net::IpAddr::V6(a) => IpAddress::V6(u128::from(a)),
    }
}

fn cidr(s: &str) -> Cidr {
    let (a, p) = s.split_once('/').unwrap();
    Cidr::new(ip(a), p.parse().unwrap()).unwrap()
}

fn create_test_config() -> Config {
    let mut interfaces = StrMap::new();
    interfaces.insert(
        "eth0".to_string(),
        InterfaceConfig { interface_type: ConfigInterfaceType::Lan, match_by: MatchBy::Name { name: "eth0".to_string() }, priority: 10 },
    );
    Config { global: GlobalConfig::default(), interfaces, wifi_profiles: StrMap::new(), routing: RoutingConfig::default() }
}

fn rule(name: &str, net: &str, via: &str, priority: u32) -> RouteRule {
    RouteRule { name: name.to_string(), match_on: MatchOn::Cidr { cidr: cidr(net) }, route_via: RouteVia { interface: via.to_string() }, priority }
}

fn state_with(name: &str, kind: MonitorInterfaceType, up: bool) -> NetworkState {
    let mut state = NetworkState::new();
    let mut info = InterfaceInfo::new(name.to_string(), kind);
    info.is_up = up;
    state.update_interface(info);
    state
}

#[test]
fn test_dispatcher_state_initialization() {
    let dispatcher = EventDispatcher::new(create_test_config(), RouteManager::default());
    assert_eq!(dispatcher.state(), DispatcherState::Initializing);
}

#[test]
fn test_dispatcher_start_changes_state_to_running() {
    let mut dispatcher = EventDispatcher::new(create_test_config(), RouteManager::default());
    dispatcher.start();
    assert_eq!(dispatcher.state(), DispatcherState::Running);
}

#[test]
fn test_dispatcher_stop_changes_state_to_stopped() {
    let mut dispatcher = EventDispatcher::new(create_test_config(), RouteManager::default());
    dispatcher.start();
    dispatcher.stop();
    assert_eq!(dispatcher.state(), DispatcherState::Stopped);
}

#[test]
fn test_current_ssid_returns_none_when_not_connected() {
    let dispatcher = EventDispatcher::new(create_test_config(), RouteManager::default());
    assert!(dispatcher.current_ssid("wlan0").is_none());
}

#[test]
fn test_handle_event_when_stopped_returns_early() {
    let mut dispatcher = EventDispatcher::new(create_test_config(), RouteManager::default());
    let event = NetworkEvent::InterfaceChanged { interface: "eth0".to_string(), change: InterfaceChange::Up };
    let result = dispatcher.handle_event(&event);
    assert!(result.is_ok());
}

#[test]
fn test_update_config_updates_config() {
    let mut dispatcher = EventDispatcher::new(create_test_config(), RouteManager::default());
    let mut new_config = create_test_config();
    new_config.global.log_level = "debug".to_string();
    dispatcher.update_config(new_config);
    assert_eq!(dispatcher.config().global.log_level, "debug");
}

#[test]
fn test_network_state_returns_state() {
    let dispatcher = EventDispatcher::new(create_test_config(), RouteManager::default());
    let state = dispatcher.network_state();
    assert!(state.interfaces().is_empty());
}

#[test]
fn test_active_routes_returns_empty_initially() {
    let dispatcher = EventDispatcher::new(create_test_config(), RouteManager::default());
    assert!(dispatcher.active_routes().is_empty());
}

#[test]
fn test_handle_interface_down_skips_rules() {
    let mut dispatcher = EventDispatcher::new(create_test_config(), RouteManager::default());
    dispatcher.start();
    dispatcher.replace_network_state(state_with("eth0", MonitorInterfaceType::Lan, false));
    let event = NetworkEvent::InterfaceChanged { interface: "eth0".to_string(), change: InterfaceChange::Down };
    assert!(dispatcher.handle_event(&event).is_ok());
}

#[test]
fn test_dispatcher_state_debug() {
    assert_eq!(format!("{:?}", DispatcherState::Running), "Running");
    assert_eq!(format!("{:?}", DispatcherState::Stopped), "Stopped");
}

#[test]
fn test_dispatcher_state_equality() {
    assert_eq!(DispatcherState::Running, DispatcherState::Running);
    assert_ne!(DispatcherState::Running, DispatcherState::Stopped);
}

#[test]
fn test_handle_interface_change_up_with_no_wifi_applies_default_rules() {
    let mut config = create_test_config();
    config.routing.default_rules = vec![rule("default-rule", "0.0.0.0/0", "eth0", 10000)];
    let mut dispatcher = EventDispatcher::new(config, RouteManager::default());
    dispatcher.start();
    dispatcher.replace_network_state(state_with("eth0", MonitorInterfaceType::Lan, true));
    let event = NetworkEvent::InterfaceChanged { interface: "eth0".to_string(), change: InterfaceChange::Up };
    assert!(dispatcher.handle_event(&event).is_ok());
    assert_eq!(dispatcher.active_routes().len(), 1);
}

#[test]
fn test_handle_interface_change_up_with_active_wifi_skips_default() {
    let mut dispatcher = EventDispatcher::new(create_test_config(), RouteManager::default());
    dispatcher.start();
    dispatcher.replace_network_state(state_with("eth0", MonitorInterfaceType::Lan, true));
    dispatcher.record_ssid("eth0", "TestWiFi");
    let event = NetworkEvent::InterfaceChanged { interface: "eth0".to_string(), change: InterfaceChange::Up };
    assert!(dispatcher.handle_event(&event).is_ok());
    assert!(dispatcher.active_routes().is_empty());
}

#[test]
fn test_handle_interface_change_unknown_interface_skips() {
    let mut dispatcher = EventDispatcher::new(create_test_config(), RouteManager::default());
    dispatcher.start();
    let event = NetworkEvent::InterfaceChanged { interface: "unknown0".to_string(), change: InterfaceChange::Up };
    assert!(dispatcher.handle_event(&event).is_ok());
    assert!(dispatcher.active_routes().is_empty());
}

#[test]
fn test_handle_route_changed_event_noop() {
    let mut dispatcher = EventDispatcher::new(create_test_config(), RouteManager::default());
    dispatcher.start();
    let event = NetworkEvent::RouteChanged { interface: Some("eth0".to_string()), destination: cidr("0.0.0.0/0"), gateway: None, added: true };
    assert!(dispatcher.handle_event(&event).is_ok());
    assert!(dispatcher.active_routes().is_empty());
}

#[test]
fn test_apply_default_rules_with_empty_rules_returns_early() {
    let mut dispatcher = EventDispatcher::new(create_test_config(), RouteManager::default());
    dispatcher.start();
    dispatcher.replace_network_state(state_with("eth0", MonitorInterfaceType::Lan, true));
    let event = NetworkEvent::InterfaceChanged { interface: "eth0".to_string(), change: InterfaceChange::Up };
    assert!(dispatcher.handle_event(&event).is_ok());
    assert!(dispatcher.active_routes().is_empty());
}

#[test]
fn test_handle_address_change_without_wifi_applies_default() {
    let mut config = create_test_config();
    config.routing.default_rules = vec![rule("default-addr", "0.0.0.0/0", "eth0", 10000)];
    let mut dispatcher = EventDispatcher::new(config, RouteManager::default());
    dispatcher.start();
    dispatcher.replace_network_state(state_with("eth0", MonitorInterfaceType::Lan, false));
    let event = NetworkEvent::AddressChanged { interface: "eth0".to_string(), added: vec![cidr("192.168.1.1/24")], removed: vec![] };
    assert!(dispatcher.handle_event(&event).is_ok());
    assert_eq!(dispatcher.active_routes().len(), 1);
}

#[test]
fn test_dispatcher_start_already_running_warns() {
    let mut dispatcher = EventDispatcher::new(create_test_config(), RouteManager::default());
    dispatcher.start();
    assert_eq!(dispatcher.state(), DispatcherState::Running);
    dispatcher.start();
    assert_eq!(dispatcher.state(), DispatcherState::Running);
}

#[test]
fn test_handle_wifi_connected_with_profile_applies_rules() {
    let mut config = create_test_config();
    config.wifi_profiles.insert(
        "TestWiFi".to_string(),
        WifiProfile { interface: "wlan0".to_string(), rules: vec![rule("wifi-rule", "10.0.0.0/8", "wlan0", 100)] },
    );
    let mut dispatcher = EventDispatcher::new(config, RouteManager::default());
    dispatcher.start();
    let event = NetworkEvent::WifiConnected { interface: "wlan0".to_string(), ssid: "TestWiFi".to_string() };
    assert!(dispatcher.handle_event(&event).is_ok());
    assert_eq!(dispatcher.current_ssid("wlan0"), Some("TestWiFi".to_string()));
    assert_eq!(dispatcher.active_routes().len(), 1);
}

#[test]
fn test_handle_wifi_connected_without_profile_applies_default() {
    let mut config = create_test_config();
    config.routing.default_rules = vec![rule("default-rule", "0.0.0.0/0", "wlan0", 10000)];
    let mut dispatcher = EventDispatcher::new(config, RouteManager::default());
    dispatcher.start();
    let event = NetworkEvent::WifiConnected { interface: "wlan0".to_string(), ssid: "UnknownWiFi".to_string() };
    assert!(dispatcher.handle_event(&event).is_ok());
    assert_eq!(dispatcher.current_ssid("wlan0"), Some("UnknownWiFi".to_string()));
    assert_eq!(dispatcher.active_routes().len(), 1);
}

#[test]
fn test_handle_wifi_disconnected_removes_ssid_and_applies_default() {
    let mut config = create_test_config();
    config.routing.default_rules = vec![rule("default-rule", "0.0.0.0/0", "wlan0", 10000)];
    let mut dispatcher = EventDispatcher::new(config, RouteManager::default());
    dispatcher.start();
    dispatcher.record_ssid("wlan0", "TestWiFi");
    let event = NetworkEvent::WifiDisconnected { interface: "wlan0".to_string(), last_ssid: Some("TestWiFi".to_string()) };
    assert!(dispatcher.handle_event(&event).is_ok());
    assert!(dispatcher.current_ssid("wlan0").is_none());
    assert_eq!(dispatcher.active_routes().len(), 1);
}

#[test]
fn test_handle_address_change_with_wifi_profile_reapplies() {
    let mut config = create_test_config();
    config.wifi_profiles.insert(
        "TestWiFi".to_string(),
        WifiProfile { interface: "wlan0".to_string(), rules: vec![rule("wifi-rule", "10.0.0.0/8", "wlan0", 100)] },
    );
    let mut dispatcher = EventDispatcher::new(config, RouteManager::default());
    dispatcher.start();
    dispatcher.replace_network_state(state_with("wlan0", MonitorInterfaceType::Wlan, false));
    dispatcher.record_ssid("wlan0", "TestWiFi");
    let event = NetworkEvent::AddressChanged { interface: "wlan0".to_string(), added: vec![cidr("192.168.1.2/24")], removed: vec![] };
    assert!(dispatcher.handle_event(&event).is_ok());
    assert_eq!(dispatcher.active_routes().len(), 1);
}

#[test]
fn test_apply_default_rules_with_failing_rule_logs_warning() {
    let mut config = create_test_config();
    config.routing.default_rules = vec![RouteRule {
        name: "bad-rule".to_string(),
        match_on: MatchOn::Domain { domain: "example.com".to_string() },
        route_via: RouteVia { interface: "eth0".to_string() },
        priority: 100,
    }];
    let mut dispatcher = EventDispatcher::new(config, RouteManager::default());
    dispatcher.start();
    dispatcher.replace_network_state(state_with("eth0", MonitorInterfaceType::Lan, true));
    let event = NetworkEvent::InterfaceChanged { interface: "eth0".to_string(), change: InterfaceChange::Up };
    assert!(dispatcher.handle_event(&event).is_ok());
    assert!(dispatcher.active_routes().is_empty());
}

#[test]
fn interface_down_removes_routes_through_it() {
    let mut config = create_test_config();
    config.routing.default_rules = vec![rule("lan", "10.0.0.0/8", "eth0", 100), rule("net", "0.0.0.0/0", "wlan0", 1000)];
    let mut dispatcher = EventDispatcher::new(config, RouteManager::default());
    dispatcher.start();
    dispatcher.replace_network_state(state_with("eth0", MonitorInterfaceType::Lan, true));
    let up = NetworkEvent::InterfaceChanged { interface: "eth0".to_string(), change: InterfaceChange::Up };
    dispatcher.handle_event(&up).unwrap();
    assert_eq!(dispatcher.active_routes().len(), 2);
    let down = NetworkEvent::InterfaceChanged { interface: "eth0".to_string(), change: InterfaceChange::Down };
    dispatcher.handle_event(&down).unwrap();
    let routes = dispatcher.active_routes();
    assert_eq!(routes.len(), 1);
    assert_eq!(routes[0].rule_name, "net");
}

#[test]
fn default_rules_are_not_applied_twice() {
    let mut config = create_test_config();
    config.routing.default_rules = vec![rule("lan", "10.0.0.0/8", "eth0", 100)];
    let mut dispatcher = EventDispatcher::new(config, RouteManager::default());
    dispatcher.start();
    dispatcher.replace_network_state(state_with("eth0", MonitorInterfaceType::Lan, true));
    let up = NetworkEvent::InterfaceChanged { interface: "eth0".to_string(), change: InterfaceChange::Up };
    dispatcher.handle_event(&up).unwrap();
    let other = NetworkEvent::WifiDisconnected { interface: "wlan0".to_string(), last_ssid: None };
    dispatcher.handle_event(&other).unwrap();
    let routes = dispatcher.active_routes();
    assert_eq!(routes.len(), 1);
    assert_eq!(routes[0].table_id, 100);
}

#[test]
fn interfaces_get_tables_in_order() {
    let mut config = create_test_config();
    config.routing.default_rules = vec![rule("r", "10.0.0.0/8", "eth0", 100)];
    let mut dispatcher = EventDispatcher::new(config, RouteManager::default());
    dispatcher.start();
    let event = NetworkEvent::WifiDisconnected { interface: "wlan7".to_string(), last_ssid: None };
    dispatcher.handle_event(&event).unwrap();
    let routes = dispatcher.active_routes();
    assert_eq!(routes[0].table_id, 101);
}

#[test]
fn stop_forgets_routes() {
    let mut config = create_test_config();
    config.routing.default_rules = vec![rule("r", "10.0.0.0/8", "eth0", 100)];
    let mut dispatcher = EventDispatcher::new(config, RouteManager::default());
    dispatcher.start();
    let event = NetworkEvent::WifiDisconnected { interface: "eth0".to_string(), last_ssid: None };
    dispatcher.handle_event(&event).unwrap();
    assert_eq!(dispatcher.active_routes().len(), 1);
    dispatcher.stop();
    assert!(dispatcher.active_routes().is_empty());
}

#[test]
fn initial_state_flushes_and_applies_defaults() {
    let mut config = create_test_config();
    config.routing.default_rules = vec![rule("r", "10.0.0.0/8", "eth0", 100)];
    let mut dispatcher = EventDispatcher::new(config, RouteManager::default());
    let mut eth0 = InterfaceInfo::new("eth0".to_string(), MonitorInterfaceType::Lan);
    eth0.is_up = true;
    let mut wlan0 = InterfaceInfo::new("wlan0".to_string(), MonitorInterfaceType::Wlan);
    wlan0.is_up = true;
    assert!(dispatcher.apply_initial_state(&vec![eth0, wlan0]).is_ok());
    assert!(dispatcher.network_state().has_interface("wlan0"));
    assert_eq!(dispatcher.active_routes().len(), 1);
    assert_eq!(dispatcher.pending_count(), 0);
}

#[test]
fn connected_dispatcher_waits_for_kernel_work() {
    let mut config = create_test_config();
    config.routing.default_rules = vec![rule("a", "10.0.0.0/8", "eth0", 100), rule("b", "172.16.0.0/12", "eth0", 200)];
    let mut dispatcher = EventDispatcher::new(config, RouteManager::with_connection(100, false).unwrap());
    dispatcher.start();
    let event = NetworkEvent::WifiDisconnected { interface: "eth0".to_string(), last_ssid: None };
    dispatcher.handle_event(&event).unwrap();
    assert_eq!(dispatcher.pending_count(), 2);
    let (first, second) = dispatcher.pending_work().unwrap();
    assert!(matches!(first, RouteOp::Kernel(_)));
    assert!(matches!(second, RouteOp::Kernel(_)));
    dispatcher.complete_action(Ok(()));
    assert_eq!(dispatcher.pending_count(), 1);
    dispatcher.complete_action(Err(nic_autoswitch::error::NicAutoSwitchError::Route("refused".to_string())));
    assert_eq!(dispatcher.pending_count(), 0);
    let routes = dispatcher.active_routes();
    assert_eq!(routes.len(), 1);
    assert_eq!(routes[0].rule_name, "a");
    assert!(dispatcher.pending_work().is_none());
}

#[test]
fn reload_keeps_interface_indices() {
    let mut config = create_test_config();
    config.interfaces.insert(
        "wlan0".to_string(),
        InterfaceConfig { interface_type: ConfigInterfaceType::Wlan, match_by: MatchBy::Name { name: "wlan0".to_string() }, priority: 20 },
    );
    config.routing.default_rules = vec![rule("r", "10.0.0.0/8", "wlan0", 100)];
    let mut dispatcher = EventDispatcher::new(config, RouteManager::default());
    let mut next = create_test_config();
    next.interfaces = StrMap::new();
    next.interfaces.insert(
        "wlan0".to_string(),
        InterfaceConfig { interface_type: ConfigInterfaceType::Wlan, match_by: MatchBy::Name { name: "wlan0".to_string() }, priority: 20 },
    );
    next.routing.default_rules = vec![rule("r", "10.0.0.0/8", "wlan0", 100)];
    dispatcher.update_config(next);
    dispatcher.start();
    let event = NetworkEvent::WifiDisconnected { interface: "wlan0".to_string(), last_ssid: None };
    dispatcher.handle_event(&event).unwrap();
    assert_eq!(dispatcher.active_routes()[0].table_id, 101);
}

#[test]
fn route_action_debug_names_the_kind() {
    let a = RouteAction::FlushTable { table_id: 100 };
    assert!(format!("{:?}", a).contains("FlushTable"));
}
