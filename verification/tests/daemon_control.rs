use nic_autoswitch::daemon::{
    ControlCommand, ControlResponse, ControlServer, ControlState, DaemonStatus, MockControlState, ResponseData,
    VERSION,
};
use nic_autoswitch::engine::executor::ActiveRoute;
use nic_autoswitch::error::NicAutoSwitchError;

#[test]
fn test_control_response() {
    let r = ControlResponse::success(None);
    assert!(r.success);
    let r = ControlResponse::success_with_message("OK");
    assert!(r.success);
    assert_eq!(r.message, Some("OK".to_string()));
    let r = ControlResponse::error("Error");
    assert!(!r.success);
}

#[test]
fn test_mock_control_state() {
    let mut state = MockControlState::new();
    assert_eq!(state.get_status().version, VERSION);
    assert!(!state.is_shutdown_requested());
    state.request_shutdown();
    assert!(state.is_shutdown_requested());
}

#[test]
fn control_test_mock_control_state_default() {
    let state = MockControlState::default();
    assert_eq!(state.get_status().version, VERSION);
}

#[test]
fn test_handle_command_status_returns_success() {
    let mut state = MockControlState::new();
    let response = ControlServer::handle_command(ControlCommand::Status, &mut state);
    assert!(response.success);
    assert!(response.data.is_some());
    match response.data {
        Some(ResponseData::Status(s)) => assert_eq!(s.state, "Running"),
        _ => panic!("expected a status"),
    }
}

#[test]
fn test_handle_command_list_routes_returns_success() {
    let mut state = MockControlState::new();
    let response = ControlServer::handle_command(ControlCommand::ListRoutes, &mut state);
    assert!(response.success);
}

#[test]
fn test_handle_command_reload_returns_success() {
    let mut state = MockControlState::new();
    let response = ControlServer::handle_command(ControlCommand::Reload, &mut state);
    assert!(response.success);
    assert!(response.message.is_some());
    assert_eq!(response.message.unwrap(), "Configuration reloaded");
}

#[test]
fn test_handle_command_shutdown_requests_shutdown() {
    let mut state = MockControlState::new();
    assert!(!state.is_shutdown_requested());
    let response = ControlServer::handle_command(ControlCommand::Shutdown, &mut state);
    assert!(response.success);
    assert_eq!(response.message.unwrap(), "Shutdown requested");
    assert!(state.is_shutdown_requested());
}

/// A control state whose reload always fails.
struct FailingReload {
    shutdown: bool,
}

impl ControlState for FailingReload {
    // The trait's specification functions, kept in compiled code.
    fn spec_shutdown_requested(&self) -> bool {
        self.shutdown
    }
    fn spec_status(&self) -> DaemonStatus {
        self.get_status()
    }
    fn spec_routes(&self) -> Vec<ActiveRoute> {
        Vec::new()
    }
    fn spec_reload_outcome(&self) -> nic_autoswitch::error::Result<()> {
        Err(NicAutoSwitchError::InvalidInput("test reload error".to_string()))
    }

    fn get_status(&self) -> DaemonStatus {
        DaemonStatus { version: VERSION.to_string(), state: "Running".to_string(), uptime_secs: 0, active_routes: 0 }
    }
    fn get_active_routes(&self) -> Vec<ActiveRoute> {
        Vec::new()
    }
    fn reload_config(&mut self) -> nic_autoswitch::error::Result<()> {
        Err(NicAutoSwitchError::InvalidInput("test reload error".to_string()))
    }
    fn is_shutdown_requested(&self) -> bool {
        self.shutdown
    }
    fn request_shutdown(&mut self) {
        self.shutdown = true;
    }
}

#[test]
fn test_handle_command_reload_error_returns_error_response() {
    let mut state = FailingReload { shutdown: false };
    let response = ControlServer::handle_command(ControlCommand::Reload, &mut state);
    assert!(!response.success);
    assert!(response.message.clone().unwrap().contains("test reload error"));
    assert_eq!(response.message.unwrap(), "Failed to reload: Invalid input: test reload error");
    assert!(response.data.is_none());
}

#[test]
fn request_lines_are_answered_like_commands() {
    let mut state = FailingReload { shutdown: false };
    let response = ControlServer::respond(Ok(ControlCommand::Reload), &mut state);
    assert!(!response.success);
    assert_eq!(response.message.unwrap(), "Failed to reload: Invalid input: test reload error");

    let mut mock = MockControlState::new();
    let response = ControlServer::respond(Ok(ControlCommand::Reload), &mut mock);
    assert!(response.success);
    assert_eq!(response.message.unwrap(), "Configuration reloaded");

    let response = ControlServer::respond(Ok(ControlCommand::Status), &mut mock);
    match response.data {
        Some(ResponseData::Status(s)) => {
            assert_eq!(s.version, VERSION);
            assert_eq!(s.state, "Running");
        }
        _ => panic!("status response carries the status"),
    }
    let response = ControlServer::respond(Ok(ControlCommand::ListRoutes), &mut mock);
    assert!(matches!(response.data, Some(ResponseData::Routes(ref v)) if v.is_empty()));
}

#[test]
fn invalid_request_line_gets_an_error_response() {
    let mut state = MockControlState::new();
    let response = ControlServer::respond(Err("expected value at line 1 column 1".to_string()), &mut state);
    assert!(!response.success);
    assert_eq!(response.message.unwrap(), "Invalid command: expected value at line 1 column 1");
}

#[test]
fn test_control_server_stop_sets_shutdown_flag() {
    let mut server = ControlServer::new("/tmp/test-stop.sock");
    assert!(!server.is_stopped());
    server.stop();
    assert!(server.is_stopped());
    assert_eq!(server.socket_path(), "/tmp/test-stop.sock");
}

#[test]
fn peer_credentials_allow_same_user_or_root() {
    assert!(ControlServer::check_peer_cred(Some(1000), 1000));
    assert!(ControlServer::check_peer_cred(Some(0), 1000));
    assert!(!ControlServer::check_peer_cred(Some(1001), 1000));
    assert!(!ControlServer::check_peer_cred(None, 0));
}

#[test]
fn test_daemon_status() {
    let status = DaemonStatus { version: "0.1.0".to_string(), state: "Running".to_string(), uptime_secs: 100, active_routes: 5 };
    let copy = status.clone();
    assert_eq!(copy.state, "Running");
    assert_eq!(copy.uptime_secs, 100);
}

#[test]
fn control_command_equality() {
    assert_eq!(ControlCommand::Status, ControlCommand::Status);
    assert_ne!(ControlCommand::Status, ControlCommand::Shutdown);
}
