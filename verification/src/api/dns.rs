//! The DNS operations offered to the Flutter side.

use vstd::prelude::*;
use crate::command::text_then;
use crate::models::{DnsChangeMethod, DnsChangeResult, DnsProvider};
use crate::providers::{
    builtin_catalog, builtin_providers, custom_provider, custom_spec, find_by_id,
    get_provider_by_id, is_dns_address, validate_dns_address,
};

verus! {

/// Get all built-in DNS providers.
pub fn get_builtin_providers() -> (r: Vec<DnsProvider>)
    ensures
        r.deep_view() == builtin_catalog(),
{
    builtin_providers()
}

/// Get a single provider by ID.
pub fn get_provider(id: String) -> (r: Option<DnsProvider>)
    ensures
        r.deep_view() == find_by_id(builtin_catalog(), id@),
{
    get_provider_by_id(id.as_str())
}

/// Create a custom DNS provider. Returns an error string if validation fails:
/// the primary address is checked first.
pub fn create_custom_provider(
    id: String,
    name: String,
    primary_dns: String,
    secondary_dns: String,
    doh_url: Option<String>,
    dot_hostname: Option<String>,
) -> (r: Result<DnsProvider, String>)
    ensures
        match r {
            Ok(p) => {
                &&& is_dns_address(primary_dns@)
                &&& is_dns_address(secondary_dns@)
                &&& p.id@ == id@
                &&& p.name@ == name@
                &&& p.primary_dns@ == primary_dns@
                &&& p.secondary_dns@ == secondary_dns@
                &&& p.is_custom
                &&& p@ == custom_spec(
                    id@,
                    name@,
                    primary_dns@,
                    secondary_dns@,
                    doh_url.deep_view(),
                    dot_hostname.deep_view(),
                )
            },
            Err(e) => if !is_dns_address(primary_dns@) {
                e@ == "Invalid primary DNS address: "@ + primary_dns@
            } else {
                &&& !is_dns_address(secondary_dns@)
                &&& e@ == "Invalid secondary DNS address: "@ + secondary_dns@
            },
        },
{
    if !validate_dns_address(primary_dns.as_str()) {
        return Err(text_then("Invalid primary DNS address: ", primary_dns.as_str()));
    }
    if !validate_dns_address(secondary_dns.as_str()) {
        return Err(text_then("Invalid secondary DNS address: ", secondary_dns.as_str()));
    }
    Ok(custom_provider(id, name, primary_dns, secondary_dns, doh_url, dot_hostname))
}

/// Validate a DNS address (IPv4 or IPv6).
pub fn validate_address(addr: String) -> (r: bool)
    ensures
        r == is_dns_address(addr@),
{
    validate_dns_address(addr.as_str())
}

/// The result of setting DNS where this library changes nothing itself:
/// mobile platforms go through their own channel, and desktops built
/// without their platform support land here too.
pub fn set_dns_unsupported() -> (r: DnsChangeResult)
    ensures
        r.is_failure_with(
            DnsChangeMethod::PrivateDnsSettings,
            "DNS changes on this platform must be done via MethodChannel (mobile) or platform feature not enabled"@,
        ),
{
    DnsChangeResult::failure(
        DnsChangeMethod::PrivateDnsSettings,
        "DNS changes on this platform must be done via MethodChannel (mobile) or platform feature not enabled",
    )
}

/// The result of resetting DNS where this library changes nothing itself.
pub fn reset_dns_unsupported() -> (r: DnsChangeResult)
    ensures
        r.is_failure_with(
            DnsChangeMethod::PrivateDnsSettings,
            "DNS reset on this platform must be done via MethodChannel (mobile) or platform feature not enabled"@,
        ),
{
    DnsChangeResult::failure(
        DnsChangeMethod::PrivateDnsSettings,
        "DNS reset on this platform must be done via MethodChannel (mobile) or platform feature not enabled",
    )
}

} // verus!
