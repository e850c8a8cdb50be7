use nic_autoswitch::daemon::{
    ControlCommand, ControlResponse, ControlServer, ControlState, DaemonStatus, MockControlState, ResponseData,
    VERSION,
};
use nic_autoswitch::engine::executor::ActiveRoute;
use nic_autoswitch::error::NicAutoSwitchError;
use nic_autoswitch::monitor::{
    link_snapshot, InterfaceChange, InterfaceInfo, InterfaceType as MonitorInterfaceType, LinkTracker, NetworkEvent,
    NetworkState,
};
use nic_autoswitch::net::{Cidr, IpAddress};
use nic_autoswitch::router::RouteManager;

fn ip(s: &str) -> IpAddress {
    match s.parse::<core::net::IpAddr>().unwrap() {
        core::net::IpAddr::V4(a) => IpAddress::V4(u32::from(a)),
        core::net::IpAddr::V6(a) => IpAddress::V6(u128::from(a)),
    }
}

fn cidr(s: &str) -> Cidr {
    let (a, p) = s.split_once('/').unwrap();
    Cidr::new(ip(a), p.parse().unwrap()).unwrap()
}

// ---------------------------------------------------------------------------
// Control protocol
// ---------------------------------------------------------------------------

#[test]
fn test_control_response_success_with_data() {
    let response =
        ControlResponse::success(Some(ResponseData::Json("{\"state\":\"running\",\"routes\":5}".to_string())));
    assert!(response.success);
    assert!(response.data.is_some());
    assert!(response.message.is_none());
}

#[test]
fn test_control_response_success_with_message() {
    let response = ControlResponse::success_with_message("Configuration reloaded");
    assert!(response.success);
    assert_eq!(response.message, Some("Configuration reloaded".to_string()));
}

#[test]
fn test_control_response_error() {
    let response = ControlResponse::error("Something went wrong");
    assert!(!response.success);
    assert_eq!(response.message, Some("Something went wrong".to_string()));
    assert!(response.data.is_none());
}

// ---------------------------------------------------------------------------
// MockControlState
// ---------------------------------------------------------------------------

#[test]
fn test_mock_control_state_initial_state() {
    let mock = MockControlState::new();
    let status = mock.get_status();

    assert_eq!(status.state, "Running");
    assert!(!mock.is_shutdown_requested());
    assert_eq!(status.active_routes, 0);
    assert_eq!(status.version, VERSION);
}

#[test]
fn test_mock_control_state_shutdown_lifecycle() {
    let mut mock = MockControlState::new();
    assert!(!mock.is_shutdown_requested());

    mock.request_shutdown();
    assert!(mock.is_shutdown_requested());
}

#[test]
fn test_mock_control_state_reload_succeeds() {
    let mut mock = MockControlState::new();
    assert!(mock.reload_config().is_ok());
}

#[test]
fn test_mock_control_state_routes_empty() {
    let mock = MockControlState::new();
    assert!(mock.get_active_routes().is_empty());
}

#[test]
fn integration_cli_test_mock_control_state_default() {
    let mock = MockControlState::default();
    assert_eq!(mock.get_status().state, "Running");
}

#[test]
fn test_mock_control_state_lifecycle() {
    let mut mock = MockControlState::new();
    let status = mock.get_status();
    assert_eq!(status.state, "Running");
    assert_eq!(status.active_routes, 0);
    assert!(!mock.is_shutdown_requested());

    mock.request_shutdown();
    assert!(mock.is_shutdown_requested());
}

#[test]
fn test_mock_control_state_routes() {
    let mock = MockControlState::new();
    assert!(mock.get_active_routes().is_empty());
}

#[test]
fn test_mock_control_state_reload() {
    let mut mock = MockControlState::new();
    assert!(mock.reload_config().is_ok());
}

// ---------------------------------------------------------------------------
// ControlState implemented outside the library: the error path
// ---------------------------------------------------------------------------

struct FailingState;

impl ControlState for FailingState {
    // The trait's specification of the shutdown flag, kept in compiled code.
    fn spec_shutdown_requested(&self) -> bool {
        false
    }
    fn spec_status(&self) -> DaemonStatus {
        self.get_status()
    }
    fn spec_routes(&self) -> Vec<ActiveRoute> {
        Vec::new()
    }
    fn spec_reload_outcome(&self) -> nic_autoswitch::error::Result<()> {
        Err(NicAutoSwitchError::InvalidInput("test reload error".to_string()))
    }
    fn get_status(&self) -> DaemonStatus {
        DaemonStatus { version: "0.1.0".to_string(), state: "Error".to_string(), uptime_secs: 0, active_routes: 0 }
    }
    fn get_active_routes(&self) -> Vec<ActiveRoute> {
        Vec::new()
    }
    fn reload_config(&mut self) -> nic_autoswitch::error::Result<()> {
        Err(NicAutoSwitchError::InvalidInput("test reload error".to_string()))
    }
    fn is_shutdown_requested(&self) -> bool {
        false
    }
    fn request_shutdown(&mut self) {}
}

#[test]
fn test_failing_control_state_reload_returns_error() {
    let mut state = FailingState;
    let result = state.reload_config();
    assert!(result.is_err());
    assert!(result.unwrap_err().to_text().contains("test reload error"));

    let response = ControlServer::handle_command(ControlCommand::Reload, &mut state);
    assert!(!response.success);
    assert_eq!(response.message, Some("Failed to reload: Invalid input: test reload error".to_string()));
}

#[test]
fn test_failing_control_state_status() {
    let state = FailingState;
    let status = state.get_status();
    assert_eq!(status.state, "Error");
}

// ---------------------------------------------------------------------------
// Network state mutations
// ---------------------------------------------------------------------------

#[test]
fn test_network_state_interface_lifecycle() {
    let mut state = NetworkState::new();

    let mut info = InterfaceInfo::new("nic0".to_string(), MonitorInterfaceType::Lan);
    info.is_up = true;
    info.addresses.push(cidr("192.168.1.100/24"));
    state.update_interface(info);

    assert!(state.has_interface("nic0"));
    assert!(state.get_interface("nic0").unwrap().is_up);

    state
        .apply_event(&NetworkEvent::InterfaceChanged { interface: "nic0".to_string(), change: InterfaceChange::Down })
        .unwrap();
    assert!(!state.get_interface("nic0").unwrap().is_up);

    state
        .apply_event(&NetworkEvent::InterfaceChanged {
            interface: "nic0".to_string(),
            change: InterfaceChange::Removed,
        })
        .unwrap();
    assert!(!state.has_interface("nic0"));
}

#[test]
fn test_network_state_wifi_ssid_tracking() {
    let mut state = NetworkState::new();
    let info = InterfaceInfo::new("nic1".to_string(), MonitorInterfaceType::Wlan);
    state.update_interface(info);

    state
        .apply_event(&NetworkEvent::WifiConnected { interface: "nic1".to_string(), ssid: "CorpWiFi".to_string() })
        .unwrap();
    assert_eq!(state.get_interface("nic1").unwrap().ssid, Some("CorpWiFi".to_string()));
    assert!(state.get_interface("nic1").unwrap().is_up);

    state
        .apply_event(&NetworkEvent::WifiDisconnected {
            interface: "nic1".to_string(),
            last_ssid: Some("CorpWiFi".to_string()),
        })
        .unwrap();
    assert_eq!(state.get_interface("nic1").unwrap().ssid, None);
}

#[test]
fn test_network_state_address_changes() {
    let mut state = NetworkState::new();
    let mut info = InterfaceInfo::new("nic0".to_string(), MonitorInterfaceType::Lan);
    info.addresses.push(cidr("10.0.0.1/24"));
    state.update_interface(info);

    let event = NetworkEvent::AddressChanged {
        interface: "nic0".to_string(),
        added: vec![cidr("192.168.1.100/24")],
        removed: vec![cidr("10.0.0.1/24")],
    };
    state.apply_event(&event).unwrap();

    let iface = state.get_interface("nic0").unwrap();
    assert_eq!(iface.addresses.len(), 1);
    assert_eq!(iface.addresses[0], cidr("192.168.1.100/24"));
}

#[test]
fn test_network_state_active_interfaces_filter() {
    let mut state = NetworkState::new();
    let mut eth0 = InterfaceInfo::new("nic0".to_string(), MonitorInterfaceType::Lan);
    eth0.is_up = true;
    let eth1 = InterfaceInfo::new("nic1".to_string(), MonitorInterfaceType::Wlan);
    state.update_interface(eth0);
    state.update_interface(eth1);

    let active = state.active_interfaces();
    assert_eq!(active.len(), 1);
    assert_eq!(active[0].name, "nic0");
}

#[test]
fn test_network_state_wlan_lan_filters() {
    let mut state = NetworkState::new();
    state.update_interface(InterfaceInfo::new("nic0".to_string(), MonitorInterfaceType::Lan));
    state.update_interface(InterfaceInfo::new("nic1".to_string(), MonitorInterfaceType::Wlan));

    assert_eq!(state.lan_interfaces().len(), 1);
    assert_eq!(state.wlan_interfaces().len(), 1);
}

// ---------------------------------------------------------------------------
// Route manager
// ---------------------------------------------------------------------------

#[test]
fn test_route_manager_new_valid_table_id() {
    let manager = RouteManager::new(100);
    assert!(manager.is_ok());
    assert_eq!(manager.unwrap().base_table_id(), 100);
}

#[test]
fn test_route_manager_new_boundary_table_ids() {
    assert!(RouteManager::new(100).is_ok());
    assert!(RouteManager::new(99).is_err());

    assert!(RouteManager::new(199).is_ok());
    assert!(RouteManager::new(200).is_err());
}

#[test]
fn test_route_manager_table_id_calculation() {
    let manager = RouteManager::new(100).unwrap();

    assert_eq!(manager.table_id_v4(0), 100);
    assert_eq!(manager.table_id_v4(5), 105);

    assert_eq!(manager.table_id_v6(0), 200);
    assert_eq!(manager.table_id_v6(5), 205);
}

// ---------------------------------------------------------------------------
// Link tracker: events handed out one at a time
// ---------------------------------------------------------------------------

#[test]
fn test_netlink_monitor_stream_poll_returns_pending_when_empty() {
    let mut tracker = LinkTracker::new(Vec::new());
    assert!(tracker.next_event().is_none());
}

#[test]
fn test_netlink_monitor_stream_returns_pending_event() {
    let mut tracker = LinkTracker::new(vec![link_snapshot(2, Some("eth0".to_string()), false, false)]);
    let events = tracker.poll_changes(vec![link_snapshot(2, Some("eth0".to_string()), true, true)]);
    assert_eq!(events.len(), 1);
    let next = tracker.next_event();
    assert!(matches!(
        next,
        Some(NetworkEvent::InterfaceChanged { ref interface, change: InterfaceChange::Up }) if interface == "eth0"
    ));
    assert!(tracker.next_event().is_none());
}
