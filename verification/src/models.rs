//! Shared data models for DNS configuration.

use vstd::prelude::*;

verus! {

/// Represents a DNS provider with all its configuration details.
#[derive(Debug, Clone, PartialEq)]
pub struct DnsProvider {
    /// Unique identifier for the provider (e.g., "cloudflare", "google", "custom_1")
    pub id: String,
    /// Human-readable name (e.g., "Cloudflare")
    pub name: String,
    /// Primary DNS server IPv4 address
    pub primary_dns: String,
    /// Secondary DNS server IPv4 address
    pub secondary_dns: String,
    /// Optional primary IPv6 DNS address
    pub primary_dns_ipv6: Option<String>,
    /// Optional secondary IPv6 DNS address
    pub secondary_dns_ipv6: Option<String>,
    /// DNS-over-HTTPS URL
    pub doh_url: Option<String>,
    /// DNS-over-TLS hostname
    pub dot_hostname: Option<String>,
    /// Short description of the provider
    pub description: String,
    /// Whether this is a user-defined custom provider
    pub is_custom: bool,
}

/// The mathematical value of a `DnsProvider`: every text field as its characters.
pub struct DnsProviderView {
    pub id: Seq<char>,
    pub name: Seq<char>,
    pub primary_dns: Seq<char>,
    pub secondary_dns: Seq<char>,
    pub primary_dns_ipv6: Option<Seq<char>>,
    pub secondary_dns_ipv6: Option<Seq<char>>,
    pub doh_url: Option<Seq<char>>,
    pub dot_hostname: Option<Seq<char>>,
    pub description: Seq<char>,
    pub is_custom: bool,
}

impl View for DnsProvider {
    type V = DnsProviderView;

    open spec fn view(&self) -> DnsProviderView {
        DnsProviderView {
            id: self.id@,
            name: self.name@,
            primary_dns: self.primary_dns@,
            secondary_dns: self.secondary_dns@,
            primary_dns_ipv6: self.primary_dns_ipv6.deep_view(),
            secondary_dns_ipv6: self.secondary_dns_ipv6.deep_view(),
            doh_url: self.doh_url.deep_view(),
            dot_hostname: self.dot_hostname.deep_view(),
            description: self.description@,
            is_custom: self.is_custom,
        }
    }
}

impl DeepView for DnsProvider {
    type V = DnsProviderView;

    open spec fn deep_view(&self) -> DnsProviderView {
        self@
    }
}

/// The current connection status of DNS configuration.
#[derive(Debug, Clone, Copy, PartialEq, Eq, Structural)]
pub enum DnsConnectionStatus {
    /// No custom DNS is active; using system defaults
    Disconnected,
    /// DNS change is in progress
    Connecting,
    /// Custom DNS is active and verified
    Connected,
    /// An error occurred while setting DNS
    Error,
}

/// Platform-specific method used to change DNS.
#[derive(Debug, Clone, Copy, PartialEq, Eq, Structural)]
pub enum DnsChangeMethod {
    /// Android: Open Private DNS settings for user to configure
    PrivateDnsSettings,
    /// Android: Direct change via root access (settings put global)
    RootAccess,
    /// iOS: NEDNSSettingsManager programmatic profile
    NetworkExtension,
    /// iOS fallback: Open Settings app for manual DNS activation
    SettingsRedirect,
    /// Windows: SetInterfaceDnsSettings via elevated service
    WindowsApi,
    /// Linux: D-Bus call to systemd-resolved
    Resolvectl,
    /// macOS: networksetup CLI command
    Networksetup,
}

/// Represents a network interface on the system.
#[derive(Debug, Clone, PartialEq)]
pub struct NetworkInterface {
    /// Interface name (e.g., "Wi-Fi", "eth0", "Ethernet")
    pub name: String,
    /// Interface index (used by Linux D-Bus API)
    pub index: u32,
    /// Whether this interface is currently active/up
    pub is_active: bool,
}

/// The mathematical value of a `NetworkInterface`.
pub struct NetworkInterfaceView {
    pub name: Seq<char>,
    pub index: u32,
    pub is_active: bool,
}

impl View for NetworkInterface {
    type V = NetworkInterfaceView;

    open spec fn view(&self) -> NetworkInterfaceView {
        NetworkInterfaceView { name: self.name@, index: self.index, is_active: self.is_active }
    }
}

impl DeepView for NetworkInterface {
    type V = NetworkInterfaceView;

    open spec fn deep_view(&self) -> NetworkInterfaceView {
        self@
    }
}

/// The full DNS state exposed to the Flutter UI.
#[derive(Debug, Clone, PartialEq)]
pub struct DnsState {
    /// Currently selected DNS provider (None if no provider selected)
    pub selected_provider: Option<DnsProvider>,
    /// Current connection status
    pub connection_status: DnsConnectionStatus,
    /// Which method was used to apply DNS (None if disconnected)
    pub active_method: Option<DnsChangeMethod>,
    /// The DNS servers currently configured on the system (if readable)
    pub current_system_dns: Vec<String>,
    /// Whether the device is rooted (Android only, None on other platforms)
    pub is_rooted: Option<bool>,
    /// Error message if status is Error
    pub error_message: Option<String>,
}

impl DnsState {
    /// Create a default disconnected state.
    pub fn disconnected() -> (s: Self)
        ensures
            s.selected_provider is None,
            s.connection_status == DnsConnectionStatus::Disconnected,
            s.active_method is None,
            s.current_system_dns@ == Seq::<String>::empty(),
            s.is_rooted is None,
            s.error_message is None,
    {
        DnsState {
            selected_provider: None,
            connection_status: DnsConnectionStatus::Disconnected,
            active_method: None,
            current_system_dns: Vec::new(),
            is_rooted: None,
            error_message: None,
        }
    }
}

/// Result of a DNS change operation.
#[derive(Debug, Clone, PartialEq)]
pub struct DnsChangeResult {
    /// Whether the operation succeeded
    pub success: bool,
    /// The method that was used
    pub method: DnsChangeMethod,
    /// Human-readable message
    pub message: String,
    /// If the user needs to manually complete a step (e.g., iOS Settings activation)
    pub requires_user_action: bool,
    /// Instructions for the user if manual action is needed
    pub user_action_message: Option<String>,
}

impl DnsChangeResult {
    /// This is a success by `method` with `message`, needing nothing more from the user.
    pub open spec fn is_success_with(&self, method: DnsChangeMethod, message: Seq<char>) -> bool {
        &&& self.success
        &&& self.method == method
        &&& self.message@ == message
        &&& !self.requires_user_action
        &&& self.user_action_message is None
    }

    /// This is a failure of `method` with `message`.
    pub open spec fn is_failure_with(&self, method: DnsChangeMethod, message: Seq<char>) -> bool {
        &&& !self.success
        &&& self.method == method
        &&& self.message@ == message
        &&& !self.requires_user_action
        &&& self.user_action_message is None
    }

    /// A successful change that needs nothing more from the user.
    pub fn success(method: DnsChangeMethod, message: &str) -> (r: Self)
        ensures
            r.is_success_with(method, message@),
    {
        DnsChangeResult {
            success: true,
            method,
            message: message.to_string(),
            requires_user_action: false,
            user_action_message: None,
        }
    }

    /// A successful change that the user still has to complete by hand.
    pub fn success_with_action(method: DnsChangeMethod, message: &str, action_message: &str) -> (r: Self)
        ensures
            r.success,
            r.method == method,
            r.message@ == message@,
            r.requires_user_action,
            r.user_action_message.deep_view() == Some(action_message@),
    {
        DnsChangeResult {
            success: true,
            method,
            message: message.to_string(),
            requires_user_action: true,
            user_action_message: Some(action_message.to_string()),
        }
    }

    /// A failed change.
    pub fn failure(method: DnsChangeMethod, message: &str) -> (r: Self)
        ensures
            r.is_failure_with(method, message@),
    {
        DnsChangeResult {
            success: false,
            method,
            message: message.to_string(),
            requires_user_action: false,
            user_action_message: None,
        }
    }
}

/// Errors that can occur during DNS operations.
#[derive(Debug, PartialEq)]
pub enum DnsError {
    PermissionDenied(String),
    InterfaceNotFound(String),
    PlatformNotSupported(String),
    CommandFailed(String),
    DbusError(String),
    WindowsApiError(String),
    InvalidAddress(String),
    ServiceUnavailable(String),
    Unknown(String),
}

/// The text that describes a `DnsError`: what went wrong, then its detail.
pub open spec fn error_message(e: &DnsError) -> Seq<char> {
    match e {
        DnsError::PermissionDenied(d) => "Permission denied: "@ + d@,
        DnsError::InterfaceNotFound(d) => "Interface not found: "@ + d@,
        DnsError::PlatformNotSupported(d) => "Platform not supported: "@ + d@,
        DnsError::CommandFailed(d) => "Command execution failed: "@ + d@,
        DnsError::DbusError(d) => "D-Bus error: "@ + d@,
        DnsError::WindowsApiError(d) => "Windows API error: "@ + d@,
        DnsError::InvalidAddress(d) => "Invalid DNS address: "@ + d@,
        DnsError::ServiceUnavailable(d) => "Service unavailable: "@ + d@,
        DnsError::Unknown(d) => "Unknown error: "@ + d@,
    }
}

impl DnsError {
    /// The text that describes this error.
    pub fn message(&self) -> (r: String)
        ensures
            r@ == error_message(self),
    {
        let (prefix, detail): (&str, &String) = match self {
            DnsError::PermissionDenied(d) => ("Permission denied: ", d),
            DnsError::InterfaceNotFound(d) => ("Interface not found: ", d),
            DnsError::PlatformNotSupported(d) => ("Platform not supported: ", d),
            DnsError::CommandFailed(d) => ("Command execution failed: ", d),
            DnsError::DbusError(d) => ("D-Bus error: ", d),
            DnsError::WindowsApiError(d) => ("Windows API error: ", d),
            DnsError::InvalidAddress(d) => ("Invalid DNS address: ", d),
            DnsError::ServiceUnavailable(d) => ("Service unavailable: ", d),
            DnsError::Unknown(d) => ("Unknown error: ", d),
        };
        let mut m = prefix.to_string();
        m.append(detail.as_str());
        m
    }
}

} // verus!
