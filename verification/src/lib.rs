//! Jetlag Core: DNS provider definitions, configuration types and the
//! decisions behind changing a machine's DNS servers.

pub mod api;
pub mod command;
pub mod ip;
pub mod models;
pub mod platform_linux;
pub mod platform_macos;
pub mod platform_windows;
pub mod providers;
pub mod text;

pub use models::{
    DnsChangeMethod, DnsChangeResult, DnsConnectionStatus, DnsError, DnsProvider, DnsProviderView, DnsState,
    NetworkInterface, NetworkInterfaceView,
};
