use jetlag_core::api::dns::{
    create_custom_provider, get_builtin_providers, get_provider, validate_address,
};
use jetlag_core::providers::{
    adguard, builtin_providers, cloudflare, custom_provider, get_provider_by_id, opendns_family,
    quad9, validate_dns_address, validate_ipv4, validate_ipv6,
};

#[test]
fn test_builtin_providers_count() {
    let providers = builtin_providers();
    assert_eq!(providers.len(), 7);
}

#[test]
fn test_get_provider_by_id() {
    assert!(get_provider_by_id("cloudflare").is_some());
    assert!(get_provider_by_id("google").is_some());
    assert!(get_provider_by_id("nonexistent").is_none());
}

#[test]
fn test_no_builtin_is_custom() {
    for provider in builtin_providers() {
        assert!(!provider.is_custom, "Provider {} should not be custom", provider.name);
    }
}

#[test]
fn test_custom_provider() {
    let p = custom_provider(
        "my_dns".into(),
        "My DNS".into(),
        "10.0.0.1".into(),
        "10.0.0.2".into(),
        None,
        None,
    );
    assert!(p.is_custom);
    assert_eq!(p.id, "my_dns");
}

#[test]
fn test_validate_ipv4() {
    assert!(validate_ipv4("1.1.1.1"));
    assert!(validate_ipv4("255.255.255.255"));
    assert!(validate_ipv4("0.0.0.0"));
    assert!(!validate_ipv4("256.1.1.1"));
    assert!(!validate_ipv4("1.1.1"));
    assert!(!validate_ipv4("abc.def.ghi.jkl"));
    assert!(!validate_ipv4(""));
}

#[test]
fn test_validate_ipv6() {
    assert!(validate_ipv6("2606:4700:4700::1111"));
    assert!(validate_ipv6("::1"));
    assert!(!validate_ipv6("not-an-ipv6"));
    assert!(!validate_ipv6("1.1.1.1"));
}

#[test]
fn test_validate_dns_address() {
    assert!(validate_dns_address("1.1.1.1"));
    assert!(validate_dns_address("2606:4700:4700::1111"));
    assert!(!validate_dns_address("not-valid"));
}

#[test]
fn lookup_gives_back_each_builtin() {
    for p in builtin_providers() {
        assert_eq!(get_provider_by_id(&p.id), Some(p));
    }
    assert_eq!(get_provider_by_id("Cloudflare"), None);
    assert_eq!(get_provider_by_id(""), None);
}

#[test]
fn builtin_order_and_fields() {
    let ids: Vec<String> = builtin_providers().into_iter().map(|p| p.id).collect();
    assert_eq!(
        ids,
        vec!["cloudflare", "google", "adguard", "adguard_family", "quad9", "opendns", "opendns_family"]
    );
    let c = cloudflare();
    assert_eq!(c.name, "Cloudflare");
    assert_eq!(c.primary_dns, "1.1.1.1");
    assert_eq!(c.secondary_dns, "1.0.0.1");
    assert_eq!(c.primary_dns_ipv6.as_deref(), Some("2606:4700:4700::1111"));
    assert_eq!(c.dot_hostname.as_deref(), Some("one.one.one.one"));
    assert_eq!(quad9().secondary_dns, "149.112.112.112");
    assert_eq!(adguard().secondary_dns_ipv6.as_deref(), Some("2a10:50c0::ad2:ff"));
    let f = opendns_family();
    assert_eq!(f.primary_dns_ipv6, None);
    assert_eq!(f.dot_hostname, None);
    assert_eq!(f.doh_url.as_deref(), Some("https://doh.familyshield.opendns.com/dns-query"));
}

#[test]
fn builtin_addresses_are_valid() {
    for p in builtin_providers() {
        assert!(validate_ipv4(&p.primary_dns));
        assert!(validate_ipv4(&p.secondary_dns));
        if let Some(a) = &p.primary_dns_ipv6 {
            assert!(validate_ipv6(a));
        }
        if let Some(a) = &p.secondary_dns_ipv6 {
            assert!(validate_ipv6(a));
        }
    }
}

#[test]
fn api_passes_through() {
    assert_eq!(get_builtin_providers(), builtin_providers());
    assert_eq!(get_provider("quad9".to_string()), Some(quad9()));
    assert!(validate_address("::".to_string()));
    assert!(!validate_address("1.1.1.1.".to_string()));
}

#[test]
fn custom_provider_defaults() {
    let p = custom_provider(
        "c".into(),
        "C".into(),
        "10.0.0.1".into(),
        "::1".into(),
        Some("https://x/dns-query".into()),
        Some("x".into()),
    );
    assert_eq!(p.description, "User-defined custom DNS server.");
    assert_eq!(p.primary_dns_ipv6, None);
    assert_eq!(p.secondary_dns_ipv6, None);
    assert_eq!(p.doh_url.as_deref(), Some("https://x/dns-query"));
    assert_eq!(p.dot_hostname.as_deref(), Some("x"));
}

#[test]
fn create_custom_provider_checks_addresses() {
    let ok = create_custom_provider(
        "id".into(),
        "Name".into(),
        "10.0.0.1".into(),
        "fe80::1".into(),
        None,
        None,
    )
    .unwrap();
    assert!(ok.is_custom);
    assert_eq!(ok.secondary_dns, "fe80::1");

    let bad_primary = create_custom_provider(
        "id".into(),
        "Name".into(),
        "10.0.0".into(),
        "also bad".into(),
        None,
        None,
    );
    assert_eq!(bad_primary, Err("Invalid primary DNS address: 10.0.0".to_string()));

    let bad_secondary = create_custom_provider(
        "id".into(),
        "Name".into(),
        "10.0.0.1".into(),
        "10.0.0.256".into(),
        None,
        None,
    );
    assert_eq!(bad_secondary, Err("Invalid secondary DNS address: 10.0.0.256".to_string()));
}
