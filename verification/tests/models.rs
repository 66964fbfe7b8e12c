use jetlag_core::models::{
    DnsChangeMethod, DnsChangeResult, DnsConnectionStatus, DnsError, DnsState,
};

#[test]
fn test_dns_state_disconnected() {
    let state = DnsState::disconnected();
    assert_eq!(state.connection_status, DnsConnectionStatus::Disconnected);
    assert!(state.selected_provider.is_none());
    assert!(state.active_method.is_none());
}

#[test]
fn test_dns_change_result_success() {
    let result = DnsChangeResult::success(DnsChangeMethod::Resolvectl, "DNS set");
    assert!(result.success);
    assert!(!result.requires_user_action);
}

#[test]
fn test_dns_change_result_with_action() {
    let result = DnsChangeResult::success_with_action(
        DnsChangeMethod::NetworkExtension,
        "DNS profile installed",
        "Please enable the DNS profile in Settings",
    );
    assert!(result.success);
    assert!(result.requires_user_action);
    assert!(result.user_action_message.is_some());
}

#[test]
fn disconnected_state_is_empty() {
    let state = DnsState::disconnected();
    assert!(state.current_system_dns.is_empty());
    assert_eq!(state.is_rooted, None);
    assert_eq!(state.error_message, None);
}

#[test]
fn change_result_fields_are_kept() {
    let ok = DnsChangeResult::success(DnsChangeMethod::Networksetup, "done");
    assert_eq!(ok.method, DnsChangeMethod::Networksetup);
    assert_eq!(ok.message, "done");
    assert_eq!(ok.user_action_message, None);

    let action = DnsChangeResult::success_with_action(DnsChangeMethod::SettingsRedirect, "m", "open Settings");
    assert_eq!(action.method, DnsChangeMethod::SettingsRedirect);
    assert_eq!(action.message, "m");
    assert_eq!(action.user_action_message.as_deref(), Some("open Settings"));

    let bad = DnsChangeResult::failure(DnsChangeMethod::WindowsApi, "nope");
    assert!(!bad.success);
    assert!(!bad.requires_user_action);
    assert_eq!(bad.method, DnsChangeMethod::WindowsApi);
    assert_eq!(bad.message, "nope");
    assert_eq!(bad.user_action_message, None);
}

#[test]
fn error_messages() {
    assert_eq!(DnsError::PermissionDenied("x".to_string()).message(), "Permission denied: x");
    assert_eq!(DnsError::InterfaceNotFound("eth9".to_string()).message(), "Interface not found: eth9");
    assert_eq!(DnsError::PlatformNotSupported("ios".to_string()).message(), "Platform not supported: ios");
    assert_eq!(DnsError::CommandFailed("ip".to_string()).message(), "Command execution failed: ip");
    assert_eq!(DnsError::DbusError("bus".to_string()).message(), "D-Bus error: bus");
    assert_eq!(DnsError::WindowsApiError("5".to_string()).message(), "Windows API error: 5");
    assert_eq!(DnsError::InvalidAddress("1.2".to_string()).message(), "Invalid DNS address: 1.2");
    assert_eq!(DnsError::ServiceUnavailable("s".to_string()).message(), "Service unavailable: s");
    assert_eq!(DnsError::Unknown(String::new()).message(), "Unknown error: ");
}
