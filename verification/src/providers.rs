//! Built-in DNS provider registry, custom providers and address validation.

use vstd::prelude::*;
use crate::ip::{
    is_ipv4, is_ipv4_octet, is_ipv4_text, is_ipv6, is_ipv6_text, joined, lemma_compressed_ipv6,
    lemma_dotted_quad,
};
use crate::models::{DnsProvider, DnsProviderView};
use crate::text::{decimal_value, str_eq};

verus! {

/// The built-in entry for Cloudflare.
pub open spec fn cloudflare_spec() -> DnsProviderView {
    DnsProviderView {
        id: "cloudflare"@,
        name: "Cloudflare"@,
        primary_dns: "1.1.1.1"@,
        secondary_dns: "1.0.0.1"@,
        primary_dns_ipv6: Some("2606:4700:4700::1111"@),
        secondary_dns_ipv6: Some("2606:4700:4700::1001"@),
        doh_url: Some("https://cloudflare-dns.com/dns-query"@),
        dot_hostname: Some("one.one.one.one"@),
        description: "Fast, privacy-first DNS by Cloudflare. No logging of your IP address."@,
        is_custom: false,
    }
}

/// The built-in entry for Google.
pub open spec fn google_spec() -> DnsProviderView {
    DnsProviderView {
        id: "google"@,
        name: "Google"@,
        primary_dns: "8.8.8.8"@,
        secondary_dns: "8.8.4.4"@,
        primary_dns_ipv6: Some("2001:4860:4860::8888"@),
        secondary_dns_ipv6: Some("2001:4860:4860::8844"@),
        doh_url: Some("https://dns.google/dns-query"@),
        dot_hostname: Some("dns.google"@),
        description: "Google's reliable public DNS with global infrastructure."@,
        is_custom: false,
    }
}

/// The built-in entry for AdGuard DNS.
pub open spec fn adguard_spec() -> DnsProviderView {
    DnsProviderView {
        id: "adguard"@,
        name: "AdGuard DNS"@,
        primary_dns: "94.140.14.14"@,
        secondary_dns: "94.140.15.15"@,
        primary_dns_ipv6: Some("2a10:50c0::ad1:ff"@),
        secondary_dns_ipv6: Some("2a10:50c0::ad2:ff"@),
        doh_url: Some("https://dns.adguard-dns.com/dns-query"@),
        dot_hostname: Some("dns.adguard-dns.com"@),
        description: "Blocks ads, trackers, and malware domains. Privacy-focused."@,
        is_custom: false,
    }
}

/// The built-in entry for AdGuard Family.
pub open spec fn adguard_family_spec() -> DnsProviderView {
    DnsProviderView {
        id: "adguard_family"@,
        name: "AdGuard Family"@,
        primary_dns: "94.140.14.15"@,
        secondary_dns: "94.140.15.16"@,
        primary_dns_ipv6: Some("2a10:50c0::bad1:ff"@),
        secondary_dns_ipv6: Some("2a10:50c0::bad2:ff"@),
        doh_url: Some("https://family.adguard-dns.com/dns-query"@),
        dot_hostname: Some("family.adguard-dns.com"@),
        description: "AdGuard with safe search and adult content blocking for families."@,
        is_custom: false,
    }
}

/// The built-in entry for Quad9.
pub open spec fn quad9_spec() -> DnsProviderView {
    DnsProviderView {
        id: "quad9"@,
        name: "Quad9"@,
        primary_dns: "9.9.9.9"@,
        secondary_dns: "149.112.112.112"@,
        primary_dns_ipv6: Some("2620:fe::fe"@),
        secondary_dns_ipv6: Some("2620:fe::9"@),
        doh_url: Some("https://dns.quad9.net/dns-query"@),
        dot_hostname: Some("dns.quad9.net"@),
        description: "Security-focused DNS that blocks malicious domains. Non-profit backed."@,
        is_custom: false,
    }
}

/// The built-in entry for OpenDNS.
pub open spec fn opendns_spec() -> DnsProviderView {
    DnsProviderView {
        id: "opendns"@,
        name: "OpenDNS"@,
        primary_dns: "208.67.222.222"@,
        secondary_dns: "208.67.220.220"@,
        primary_dns_ipv6: Some("2620:119:35::35"@),
        secondary_dns_ipv6: Some("2620:119:53::53"@),
        doh_url: Some("https://doh.opendns.com/dns-query"@),
        dot_hostname: None,
        description: "Cisco's OpenDNS with built-in phishing and content filtering."@,
        is_custom: false,
    }
}

/// The built-in entry for OpenDNS FamilyShield.
pub open spec fn opendns_family_spec() -> DnsProviderView {
    DnsProviderView {
        id: "opendns_family"@,
        name: "OpenDNS FamilyShield"@,
        primary_dns: "208.67.222.123"@,
        secondary_dns: "208.67.220.123"@,
        primary_dns_ipv6: None,
        secondary_dns_ipv6: None,
        doh_url: Some("https://doh.familyshield.opendns.com/dns-query"@),
        dot_hostname: None,
        description: "Pre-configured to block adult content. No account required."@,
        is_custom: false,
    }
}

/// The built-in providers, in the order the registry lists them.
pub open spec fn builtin_catalog() -> Seq<DnsProviderView> {
    seq![
        cloudflare_spec(),
        google_spec(),
        adguard_spec(),
        adguard_family_spec(),
        quad9_spec(),
        opendns_spec(),
        opendns_family_spec(),
    ]
}

/// The first provider of `ps` whose id is `id`.
pub open spec fn find_by_id(ps: Seq<DnsProviderView>, id: Seq<char>) -> Option<DnsProviderView>
    decreases ps.len(),
{
    if ps.len() == 0 {
        None
    } else if ps[0].id == id {
        Some(ps[0])
    } else {
        find_by_id(ps.drop_first(), id)
    }
}

/// The provider that `custom_provider` builds from user input.
pub open spec fn custom_spec(
    id: Seq<char>,
    name: Seq<char>,
    primary_dns: Seq<char>,
    secondary_dns: Seq<char>,
    doh_url: Option<Seq<char>>,
    dot_hostname: Option<Seq<char>>,
) -> DnsProviderView {
    DnsProviderView {
        id,
        name,
        primary_dns,
        secondary_dns,
        primary_dns_ipv6: None,
        secondary_dns_ipv6: None,
        doh_url,
        dot_hostname,
        description: "User-defined custom DNS server."@,
        is_custom: true,
    }
}

/// `s` is a DNS server address: IPv4 or IPv6 text.
pub open spec fn is_dns_address(s: Seq<char>) -> bool {
    is_ipv4_text(s) || is_ipv6_text(s)
}

/// There are seven built-in providers and none of them is a custom one.
pub proof fn lemma_builtin_providers_not_custom()
    ensures
        builtin_catalog().len() == 7,
        forall|i: int| 0 <= i < builtin_catalog().len() ==> !(#[trigger] builtin_catalog()[i]).is_custom,
{
}

/// A lookup by id finds a provider exactly when one has that id, and what it
/// finds has that id and is one of the providers searched.
pub proof fn lemma_find_by_id(ps: Seq<DnsProviderView>, id: Seq<char>)
    ensures
        find_by_id(ps, id) is Some <==> exists|i: int| 0 <= i < ps.len() && (#[trigger] ps[i]).id == id,
        find_by_id(ps, id) matches Some(p) ==> p.id == id && ps.contains(p),
    decreases ps.len(),
{
    if ps.len() > 0 {
        lemma_find_by_id(ps.drop_first(), id);
        if ps[0].id != id {
            if exists|i: int| 0 <= i < ps.len() && (#[trigger] ps[i]).id == id {
                let i = choose|i: int| 0 <= i < ps.len() && (#[trigger] ps[i]).id == id;
                assert(ps.drop_first()[i - 1] == ps[i]);
            }
            if find_by_id(ps, id) is Some {
                let p = find_by_id(ps, id)->0;
                let j = choose|j: int| 0 <= j < ps.drop_first().len() && ps.drop_first()[j] == p;
                assert(ps[j + 1] == p);
            }
        } else {
            assert(ps[0] == ps[0]);
        }
    }
}

/// A lookup finds the first provider with the id.
proof fn lemma_find_first(ps: Seq<DnsProviderView>, id: Seq<char>, k: int)
    requires
        0 <= k < ps.len(),
        ps[k].id == id,
        forall|j: int| 0 <= j < k ==> (#[trigger] ps[j]).id != id,
    ensures
        find_by_id(ps, id) == Some(ps[k]),
    decreases k,
{
    if k > 0 {
        assert(ps[0].id != id);
        assert forall|j: int| 0 <= j < k - 1 implies (#[trigger] ps.drop_first()[j]).id != id by {
            assert(ps.drop_first()[j] == ps[j + 1]);
        }
        lemma_find_first(ps.drop_first(), id, k - 1);
    }
}

/// Looking up the id of any built-in provider gives back that provider.
pub proof fn lemma_builtin_lookup_roundtrip()
    ensures
        forall|i: int|
            0 <= i < builtin_catalog().len() ==> find_by_id(
                builtin_catalog(),
                (#[trigger] builtin_catalog()[i]).id,
            ) == Some(builtin_catalog()[i]),
{
    reveal_strlit("cloudflare");
    reveal_strlit("google");
    reveal_strlit("adguard");
    reveal_strlit("adguard_family");
    reveal_strlit("quad9");
    reveal_strlit("opendns");
    reveal_strlit("opendns_family");
    let c = builtin_catalog();
    assert forall|a: int, b: int| 0 <= a < c.len() && 0 <= b < c.len() && a != b implies
        #[trigger] c[a].id != #[trigger] c[b].id by {
        assert(c[a].id.len() != c[b].id.len() || c[a].id[0] != c[b].id[0]);
    }
    assert forall|i: int| 0 <= i < c.len() implies find_by_id(c, (#[trigger] c[i]).id) == Some(c[i]) by {
        lemma_find_first(c, c[i].id, i);
    }
}

/// The provider's servers are addresses that `validate_dns_address`
/// accepts: dotted quads for IPv4, IPv6 text for the IPv6 ones.
pub open spec fn addresses_valid(p: DnsProviderView) -> bool {
    &&& is_ipv4_text(p.primary_dns)
    &&& is_ipv4_text(p.secondary_dns)
    &&& (p.primary_dns_ipv6 matches Some(a) ==> is_ipv6_text(a))
    &&& (p.secondary_dns_ipv6 matches Some(a) ==> is_ipv6_text(a))
}

/// Every built-in provider passes the validation that custom providers go
/// through: its IPv4 servers are dotted quads and its IPv6 servers IPv6 text.
pub proof fn lemma_builtin_addresses_valid()
    ensures
        forall|i: int| 0 <= i < builtin_catalog().len() ==> addresses_valid(#[trigger] builtin_catalog()[i]),
{
    lemma_cloudflare_addresses_valid();
    lemma_google_addresses_valid();
    lemma_adguard_addresses_valid();
    lemma_adguard_family_addresses_valid();
    lemma_quad9_addresses_valid();
    lemma_opendns_addresses_valid();
    lemma_opendns_family_addresses_valid();
    let c = builtin_catalog();
    assert forall|i: int| 0 <= i < c.len() implies addresses_valid(#[trigger] c[i]) by {
        if i == 0 {
        }
    }
}

/// The custom provider keeps each value the user gave in its own place:
/// its id, name, both servers and the DoH and DoT settings, with no IPv6
/// servers, marked custom.
pub proof fn lemma_custom_keeps_user_values(
    id: Seq<char>,
    name: Seq<char>,
    primary_dns: Seq<char>,
    secondary_dns: Seq<char>,
    doh_url: Option<Seq<char>>,
    dot_hostname: Option<Seq<char>>,
)
    ensures
        ({
            let p = custom_spec(id, name, primary_dns, secondary_dns, doh_url, dot_hostname);
            &&& p.id == id
            &&& p.name == name
            &&& p.primary_dns == primary_dns
            &&& p.secondary_dns == secondary_dns
            &&& p.primary_dns_ipv6 is None
            &&& p.secondary_dns_ipv6 is None
            &&& p.doh_url == doh_url
            &&& p.dot_hostname == dot_hostname
            &&& p.is_custom
        }),
{
}

/// The servers of each built-in provider, as each provider publishes them:
/// looking a provider up by its id gives the entry with these addresses.
pub proof fn lemma_builtin_servers()
    ensures
        find_by_id(builtin_catalog(), "cloudflare"@) == Some(builtin_catalog()[0]),
        builtin_catalog()[0].primary_dns == "1.1.1.1"@,
        builtin_catalog()[0].secondary_dns == "1.0.0.1"@,
        builtin_catalog()[0].primary_dns_ipv6 == Some("2606:4700:4700::1111"@),
        builtin_catalog()[0].secondary_dns_ipv6 == Some("2606:4700:4700::1001"@),
        find_by_id(builtin_catalog(), "google"@) == Some(builtin_catalog()[1]),
        builtin_catalog()[1].primary_dns == "8.8.8.8"@,
        builtin_catalog()[1].secondary_dns == "8.8.4.4"@,
        builtin_catalog()[1].primary_dns_ipv6 == Some("2001:4860:4860::8888"@),
        builtin_catalog()[1].secondary_dns_ipv6 == Some("2001:4860:4860::8844"@),
        find_by_id(builtin_catalog(), "adguard"@) == Some(builtin_catalog()[2]),
        builtin_catalog()[2].primary_dns == "94.140.14.14"@,
        builtin_catalog()[2].secondary_dns == "94.140.15.15"@,
        builtin_catalog()[2].primary_dns_ipv6 == Some("2a10:50c0::ad1:ff"@),
        builtin_catalog()[2].secondary_dns_ipv6 == Some("2a10:50c0::ad2:ff"@),
        find_by_id(builtin_catalog(), "adguard_family"@) == Some(builtin_catalog()[3]),
        builtin_catalog()[3].primary_dns == "94.140.14.15"@,
        builtin_catalog()[3].secondary_dns == "94.140.15.16"@,
        builtin_catalog()[3].primary_dns_ipv6 == Some("2a10:50c0::bad1:ff"@),
        builtin_catalog()[3].secondary_dns_ipv6 == Some("2a10:50c0::bad2:ff"@),
        find_by_id(builtin_catalog(), "quad9"@) == Some(builtin_catalog()[4]),
        builtin_catalog()[4].primary_dns == "9.9.9.9"@,
        builtin_catalog()[4].secondary_dns == "149.112.112.112"@,
        builtin_catalog()[4].primary_dns_ipv6 == Some("2620:fe::fe"@),
        builtin_catalog()[4].secondary_dns_ipv6 == Some("2620:fe::9"@),
        find_by_id(builtin_catalog(), "opendns"@) == Some(builtin_catalog()[5]),
        builtin_catalog()[5].primary_dns == "208.67.222.222"@,
        builtin_catalog()[5].secondary_dns == "208.67.220.220"@,
        builtin_catalog()[5].primary_dns_ipv6 == Some("2620:119:35::35"@),
        builtin_catalog()[5].secondary_dns_ipv6 == Some("2620:119:53::53"@),
        find_by_id(builtin_catalog(), "opendns_family"@) == Some(builtin_catalog()[6]),
        builtin_catalog()[6].primary_dns == "208.67.222.123"@,
        builtin_catalog()[6].secondary_dns == "208.67.220.123"@,
        builtin_catalog()[6].primary_dns_ipv6 is None,
        builtin_catalog()[6].secondary_dns_ipv6 is None,
{
    lemma_builtin_lookup_roundtrip();
    let c = builtin_catalog();
    assert(find_by_id(c, c[0].id) == Some(c[0]));
    assert(find_by_id(c, c[1].id) == Some(c[1]));
    assert(find_by_id(c, c[2].id) == Some(c[2]));
    assert(find_by_id(c, c[3].id) == Some(c[3]));
    assert(find_by_id(c, c[4].id) == Some(c[4]));
    assert(find_by_id(c, c[5].id) == Some(c[5]));
    assert(find_by_id(c, c[6].id) == Some(c[6]));
}

/// Returns all built-in DNS providers.
pub fn builtin_providers() -> (r: Vec<DnsProvider>)
    ensures
        r.deep_view() == builtin_catalog(),
{
    let mut v: Vec<DnsProvider> = Vec::new();
    v.push(cloudflare());
    v.push(google());
    v.push(adguard());
    v.push(adguard_family());
    v.push(quad9());
    v.push(opendns());
    v.push(opendns_family());
    assert(v.deep_view() =~= builtin_catalog());
    v
}

/// Get a built-in provider by its ID. Returns None if not found.
pub fn get_provider_by_id(id: &str) -> (r: Option<DnsProvider>)
    ensures
        r.deep_view() == find_by_id(builtin_catalog(), id@),
{
    let mut providers = builtin_providers();
    let ghost catalog = builtin_catalog();
    let mut i: usize = 0;
    assert(catalog.skip(0) =~= catalog);
    while i < providers.len()
        invariant
            providers.deep_view() == catalog,
            catalog == builtin_catalog(),
            i <= providers.len(),
            find_by_id(catalog, id@) == find_by_id(catalog.skip(i as int), id@),
        decreases providers.len() - i,
    {
        assert(providers.deep_view()[i as int] == providers[i as int]@);
        if str_eq(providers[i].id.as_str(), id) {
            assert(find_by_id(catalog.skip(i as int), id@) == Some(catalog[i as int]));
            let p = providers.remove(i);
            return Some(p);
        }
        assert(catalog.skip(i as int).drop_first() =~= catalog.skip(i + 1));
        i = i + 1;
    }
    assert(catalog.skip(i as int).len() == 0);
    None
}

/// Cloudflare DNS — 1.1.1.1
pub fn cloudflare() -> (p: DnsProvider)
    ensures
        p@ == cloudflare_spec(),
{
    DnsProvider {
        id: "cloudflare".to_string(),
        name: "Cloudflare".to_string(),
        primary_dns: "1.1.1.1".to_string(),
        secondary_dns: "1.0.0.1".to_string(),
        primary_dns_ipv6: Some("2606:4700:4700::1111".to_string()),
        secondary_dns_ipv6: Some("2606:4700:4700::1001".to_string()),
        doh_url: Some("https://cloudflare-dns.com/dns-query".to_string()),
        dot_hostname: Some("one.one.one.one".to_string()),
        description: "Fast, privacy-first DNS by Cloudflare. No logging of your IP address.".to_string(),
        is_custom: false,
    }
}

/// Google Public DNS — 8.8.8.8
pub fn google() -> (p: DnsProvider)
    ensures
        p@ == google_spec(),
{
    DnsProvider {
        id: "google".to_string(),
        name: "Google".to_string(),
        primary_dns: "8.8.8.8".to_string(),
        secondary_dns: "8.8.4.4".to_string(),
        primary_dns_ipv6: Some("2001:4860:4860::8888".to_string()),
        secondary_dns_ipv6: Some("2001:4860:4860::8844".to_string()),
        doh_url: Some("https://dns.google/dns-query".to_string()),
        dot_hostname: Some("dns.google".to_string()),
        description: "Google's reliable public DNS with global infrastructure.".to_string(),
        is_custom: false,
    }
}

/// AdGuard DNS — Default (ad-blocking)
pub fn adguard() -> (p: DnsProvider)
    ensures
        p@ == adguard_spec(),
{
    DnsProvider {
        id: "adguard".to_string(),
        name: "AdGuard DNS".to_string(),
        primary_dns: "94.140.14.14".to_string(),
        secondary_dns: "94.140.15.15".to_string(),
        primary_dns_ipv6: Some("2a10:50c0::ad1:ff".to_string()),
        secondary_dns_ipv6: Some("2a10:50c0::ad2:ff".to_string()),
        doh_url: Some("https://dns.adguard-dns.com/dns-query".to_string()),
        dot_hostname: Some("dns.adguard-dns.com".to_string()),
        description: "Blocks ads, trackers, and malware domains. Privacy-focused.".to_string(),
        is_custom: false,
    }
}

/// AdGuard DNS — Family Protection
pub fn adguard_family() -> (p: DnsProvider)
    ensures
        p@ == adguard_family_spec(),
{
    DnsProvider {
        id: "adguard_family".to_string(),
        name: "AdGuard Family".to_string(),
        primary_dns: "94.140.14.15".to_string(),
        secondary_dns: "94.140.15.16".to_string(),
        primary_dns_ipv6: Some("2a10:50c0::bad1:ff".to_string()),
        secondary_dns_ipv6: Some("2a10:50c0::bad2:ff".to_string()),
        doh_url: Some("https://family.adguard-dns.com/dns-query".to_string()),
        dot_hostname: Some("family.adguard-dns.com".to_string()),
        description: "AdGuard with safe search and adult content blocking for families.".to_string(),
        is_custom: false,
    }
}

/// Quad9 DNS — 9.9.9.9
pub fn quad9() -> (p: DnsProvider)
    ensures
        p@ == quad9_spec(),
{
    DnsProvider {
        id: "quad9".to_string(),
        name: "Quad9".to_string(),
        primary_dns: "9.9.9.9".to_string(),
        secondary_dns: "149.112.112.112".to_string(),
        primary_dns_ipv6: Some("2620:fe::fe".to_string()),
        secondary_dns_ipv6: Some("2620:fe::9".to_string()),
        doh_url: Some("https://dns.quad9.net/dns-query".to_string()),
        dot_hostname: Some("dns.quad9.net".to_string()),
        description: "Security-focused DNS that blocks malicious domains. Non-profit backed.".to_string(),
        is_custom: false,
    }
}

/// OpenDNS (Cisco) — Standard
pub fn opendns() -> (p: DnsProvider)
    ensures
        p@ == opendns_spec(),
{
    DnsProvider {
        id: "opendns".to_string(),
        name: "OpenDNS".to_string(),
        primary_dns: "208.67.222.222".to_string(),
        secondary_dns: "208.67.220.220".to_string(),
        primary_dns_ipv6: Some("2620:119:35::35".to_string()),
        secondary_dns_ipv6: Some("2620:119:53::53".to_string()),
        doh_url: Some("https://doh.opendns.com/dns-query".to_string()),
        dot_hostname: None,
        description: "Cisco's OpenDNS with built-in phishing and content filtering.".to_string(),
        is_custom: false,
    }
}

/// OpenDNS FamilyShield
pub fn opendns_family() -> (p: DnsProvider)
    ensures
        p@ == opendns_family_spec(),
{
    DnsProvider {
        id: "opendns_family".to_string(),
        name: "OpenDNS FamilyShield".to_string(),
        primary_dns: "208.67.222.123".to_string(),
        secondary_dns: "208.67.220.123".to_string(),
        primary_dns_ipv6: None,
        secondary_dns_ipv6: None,
        doh_url: Some("https://doh.familyshield.opendns.com/dns-query".to_string()),
        dot_hostname: None,
        description: "Pre-configured to block adult content. No account required.".to_string(),
        is_custom: false,
    }
}

/// Create a custom DNS provider from user input.
pub fn custom_provider(
    id: String,
    name: String,
    primary_dns: String,
    secondary_dns: String,
    doh_url: Option<String>,
    dot_hostname: Option<String>,
) -> (p: DnsProvider)
    ensures
        p@ == custom_spec(
            id@,
            name@,
            primary_dns@,
            secondary_dns@,
            doh_url.deep_view(),
            dot_hostname.deep_view(),
        ),
        p.id@ == id@,
        p.name@ == name@,
        p.primary_dns@ == primary_dns@,
        p.secondary_dns@ == secondary_dns@,
        p.primary_dns_ipv6 is None,
        p.secondary_dns_ipv6 is None,
        p.doh_url.deep_view() == doh_url.deep_view(),
        p.dot_hostname.deep_view() == dot_hostname.deep_view(),
        p.is_custom,
{
    DnsProvider {
        id,
        name,
        primary_dns,
        secondary_dns,
        primary_dns_ipv6: None,
        secondary_dns_ipv6: None,
        doh_url,
        dot_hostname,
        description: "User-defined custom DNS server.".to_string(),
        is_custom: true,
    }
}

/// Validate an IPv4 address format.
pub fn validate_ipv4(addr: &str) -> (r: bool)
    ensures
        r == is_ipv4_text(addr@),
{
    is_ipv4(addr)
}

/// Validate an IPv6 address format.
pub fn validate_ipv6(addr: &str) -> (r: bool)
    ensures
        r == is_ipv6_text(addr@),
{
    is_ipv6(addr)
}

/// Validate a DNS address (IPv4 or IPv6).
pub fn validate_dns_address(addr: &str) -> (r: bool)
    ensures
        r == is_dns_address(addr@),
{
    validate_ipv4(addr) || validate_ipv6(addr)
}

} // verus!


verus! {
proof fn lemma_cloudflare_addresses_valid()
    ensures
        addresses_valid(cloudflare_spec()),
{
    reveal_with_fuel(joined, 5);
    reveal_strlit("1.1.1.1");
    let os = seq![seq!['1'], seq!['1'], seq!['1'], seq!['1']];
    assert forall|i: int| 0 <= i < 4 implies is_ipv4_octet(#[trigger] os[i]) by {
        reveal_with_fuel(decimal_value, 4);
    }
    lemma_dotted_quad(os);
    assert("1.1.1.1"@ =~= joined(os, '.'));
    reveal_strlit("1.0.0.1");
    let os = seq![seq!['1'], seq!['0'], seq!['0'], seq!['1']];
    assert forall|i: int| 0 <= i < 4 implies is_ipv4_octet(#[trigger] os[i]) by {
        reveal_with_fuel(decimal_value, 4);
    }
    lemma_dotted_quad(os);
    assert("1.0.0.1"@ =~= joined(os, '.'));
    reveal_strlit("2606:4700:4700::1111");
    let head = seq![seq!['2', '6', '0', '6'], seq!['4', '7', '0', '0'], seq!['4', '7', '0', '0']];
    let tail = seq![seq!['1', '1', '1', '1']];
    lemma_compressed_ipv6(head, tail);
    assert("2606:4700:4700::1111"@ =~= joined(head, ':') + seq![':', ':'] + joined(tail, ':'));
    reveal_strlit("2606:4700:4700::1001");
    let head = seq![seq!['2', '6', '0', '6'], seq!['4', '7', '0', '0'], seq!['4', '7', '0', '0']];
    let tail = seq![seq!['1', '0', '0', '1']];
    lemma_compressed_ipv6(head, tail);
    assert("2606:4700:4700::1001"@ =~= joined(head, ':') + seq![':', ':'] + joined(tail, ':'));
}
proof fn lemma_google_addresses_valid()
    ensures
        addresses_valid(google_spec()),
{
    reveal_with_fuel(joined, 5);
    reveal_strlit("8.8.8.8");
    let os = seq![seq!['8'], seq!['8'], seq!['8'], seq!['8']];
    assert forall|i: int| 0 <= i < 4 implies is_ipv4_octet(#[trigger] os[i]) by {
        reveal_with_fuel(decimal_value, 4);
    }
    lemma_dotted_quad(os);
    assert("8.8.8.8"@ =~= joined(os, '.'));
    reveal_strlit("8.8.4.4");
    let os = seq![seq!['8'], seq!['8'], seq!['4'], seq!['4']];
    assert forall|i: int| 0 <= i < 4 implies is_ipv4_octet(#[trigger] os[i]) by {
        reveal_with_fuel(decimal_value, 4);
    }
    lemma_dotted_quad(os);
    assert("8.8.4.4"@ =~= joined(os, '.'));
    reveal_strlit("2001:4860:4860::8888");
    let head = seq![seq!['2', '0', '0', '1'], seq!['4', '8', '6', '0'], seq!['4', '8', '6', '0']];
    let tail = seq![seq!['8', '8', '8', '8']];
    lemma_compressed_ipv6(head, tail);
    assert("2001:4860:4860::8888"@ =~= joined(head, ':') + seq![':', ':'] + joined(tail, ':'));
    reveal_strlit("2001:4860:4860::8844");
    let head = seq![seq!['2', '0', '0', '1'], seq!['4', '8', '6', '0'], seq!['4', '8', '6', '0']];
    let tail = seq![seq!['8', '8', '4', '4']];
    lemma_compressed_ipv6(head, tail);
    assert("2001:4860:4860::8844"@ =~= joined(head, ':') + seq![':', ':'] + joined(tail, ':'));
}
proof fn lemma_adguard_addresses_valid()
    ensures
        addresses_valid(adguard_spec()),
{
    reveal_with_fuel(joined, 5);
    reveal_strlit("94.140.14.14");
    let os = seq![seq!['9', '4'], seq!['1', '4', '0'], seq!['1', '4'], seq!['1', '4']];
    assert forall|i: int| 0 <= i < 4 implies is_ipv4_octet(#[trigger] os[i]) by {
        reveal_with_fuel(decimal_value, 4);
    }
    lemma_dotted_quad(os);
    assert("94.140.14.14"@ =~= joined(os, '.'));
    reveal_strlit("94.140.15.15");
    let os = seq![seq!['9', '4'], seq!['1', '4', '0'], seq!['1', '5'], seq!['1', '5']];
    assert forall|i: int| 0 <= i < 4 implies is_ipv4_octet(#[trigger] os[i]) by {
        reveal_with_fuel(decimal_value, 4);
    }
    lemma_dotted_quad(os);
    assert("94.140.15.15"@ =~= joined(os, '.'));
    reveal_strlit("2a10:50c0::ad1:ff");
    let head = seq![seq!['2', 'a', '1', '0'], seq!['5', '0', 'c', '0']];
    let tail = seq![seq!['a', 'd', '1'], seq!['f', 'f']];
    lemma_compressed_ipv6(head, tail);
    assert("2a10:50c0::ad1:ff"@ =~= joined(head, ':') + seq![':', ':'] + joined(tail, ':'));
    reveal_strlit("2a10:50c0::ad2:ff");
    let head = seq![seq!['2', 'a', '1', '0'], seq!['5', '0', 'c', '0']];
    let tail = seq![seq!['a', 'd', '2'], seq!['f', 'f']];
    lemma_compressed_ipv6(head, tail);
    assert("2a10:50c0::ad2:ff"@ =~= joined(head, ':') + seq![':', ':'] + joined(tail, ':'));
}
proof fn lemma_adguard_family_addresses_valid()
    ensures
        addresses_valid(adguard_family_spec()),
{
    reveal_with_fuel(joined, 5);
    reveal_strlit("94.140.14.15");
    let os = seq![seq!['9', '4'], seq!['1', '4', '0'], seq!['1', '4'], seq!['1', '5']];
    assert forall|i: int| 0 <= i < 4 implies is_ipv4_octet(#[trigger] os[i]) by {
        reveal_with_fuel(decimal_value, 4);
    }
    lemma_dotted_quad(os);
    assert("94.140.14.15"@ =~= joined(os, '.'));
    reveal_strlit("94.140.15.16");
    let os = seq![seq!['9', '4'], seq!['1', '4', '0'], seq!['1', '5'], seq!['1', '6']];
    assert forall|i: int| 0 <= i < 4 implies is_ipv4_octet(#[trigger] os[i]) by {
        reveal_with_fuel(decimal_value, 4);
    }
    lemma_dotted_quad(os);
    assert("94.140.15.16"@ =~= joined(os, '.'));
    reveal_strlit("2a10:50c0::bad1:ff");
    let head = seq![seq!['2', 'a', '1', '0'], seq!['5', '0', 'c', '0']];
    let tail = seq![seq!['b', 'a', 'd', '1'], seq!['f', 'f']];
    lemma_compressed_ipv6(head, tail);
    assert("2a10:50c0::bad1:ff"@ =~= joined(head, ':') + seq![':', ':'] + joined(tail, ':'));
    reveal_strlit("2a10:50c0::bad2:ff");
    let head = seq![seq!['2', 'a', '1', '0'], seq!['5', '0', 'c', '0']];
    let tail = seq![seq!['b', 'a', 'd', '2'], seq!['f', 'f']];
    lemma_compressed_ipv6(head, tail);
    assert("2a10:50c0::bad2:ff"@ =~= joined(head, ':') + seq![':', ':'] + joined(tail, ':'));
}
proof fn lemma_quad9_addresses_valid()
    ensures
        addresses_valid(quad9_spec()),
{
    reveal_with_fuel(joined, 5);
    reveal_strlit("9.9.9.9");
    let os = seq![seq!['9'], seq!['9'], seq!['9'], seq!['9']];
    assert forall|i: int| 0 <= i < 4 implies is_ipv4_octet(#[trigger] os[i]) by {
        reveal_with_fuel(decimal_value, 4);
    }
    lemma_dotted_quad(os);
    assert("9.9.9.9"@ =~= joined(os, '.'));
    reveal_strlit("149.112.112.112");
    let os = seq![seq!['1', '4', '9'], seq!['1', '1', '2'], seq!['1', '1', '2'], seq!['1', '1', '2']];
    assert forall|i: int| 0 <= i < 4 implies is_ipv4_octet(#[trigger] os[i]) by {
        reveal_with_fuel(decimal_value, 4);
    }
    lemma_dotted_quad(os);
    assert("149.112.112.112"@ =~= joined(os, '.'));
    reveal_strlit("2620:fe::fe");
    let head = seq![seq!['2', '6', '2', '0'], seq!['f', 'e']];
    let tail = seq![seq!['f', 'e']];
    lemma_compressed_ipv6(head, tail);
    assert("2620:fe::fe"@ =~= joined(head, ':') + seq![':', ':'] + joined(tail, ':'));
    reveal_strlit("2620:fe::9");
    let head = seq![seq!['2', '6', '2', '0'], seq!['f', 'e']];
    let tail = seq![seq!['9']];
    lemma_compressed_ipv6(head, tail);
    assert("2620:fe::9"@ =~= joined(head, ':') + seq![':', ':'] + joined(tail, ':'));
}
proof fn lemma_opendns_addresses_valid()
    ensures
        addresses_valid(opendns_spec()),
{
    reveal_with_fuel(joined, 5);
    reveal_strlit("208.67.222.222");
    let os = seq![seq!['2', '0', '8'], seq!['6', '7'], seq!['2', '2', '2'], seq!['2', '2', '2']];
    assert forall|i: int| 0 <= i < 4 implies is_ipv4_octet(#[trigger] os[i]) by {
        reveal_with_fuel(decimal_value, 4);
    }
    lemma_dotted_quad(os);
    assert("208.67.222.222"@ =~= joined(os, '.'));
    reveal_strlit("208.67.220.220");
    let os = seq![seq!['2', '0', '8'], seq!['6', '7'], seq!['2', '2', '0'], seq!['2', '2', '0']];
    assert forall|i: int| 0 <= i < 4 implies is_ipv4_octet(#[trigger] os[i]) by {
        reveal_with_fuel(decimal_value, 4);
    }
    lemma_dotted_quad(os);
    assert("208.67.220.220"@ =~= joined(os, '.'));
    reveal_strlit("2620:119:35::35");
    let head = seq![seq!['2', '6', '2', '0'], seq!['1', '1', '9'], seq!['3', '5']];
    let tail = seq![seq!['3', '5']];
    lemma_compressed_ipv6(head, tail);
    assert("2620:119:35::35"@ =~= joined(head, ':') + seq![':', ':'] + joined(tail, ':'));
    reveal_strlit("2620:119:53::53");
    let head = seq![seq!['2', '6', '2', '0'], seq!['1', '1', '9'], seq!['5', '3']];
    let tail = seq![seq!['5', '3']];
    lemma_compressed_ipv6(head, tail);
    assert("2620:119:53::53"@ =~= joined(head, ':') + seq![':', ':'] + joined(tail, ':'));
}
proof fn lemma_opendns_family_addresses_valid()
    ensures
        addresses_valid(opendns_family_spec()),
{
    reveal_with_fuel(joined, 5);
    reveal_strlit("208.67.222.123");
    let os = seq![seq!['2', '0', '8'], seq!['6', '7'], seq!['2', '2', '2'], seq!['1', '2', '3']];
    assert forall|i: int| 0 <= i < 4 implies is_ipv4_octet(#[trigger] os[i]) by {
        reveal_with_fuel(decimal_value, 4);
    }
    lemma_dotted_quad(os);
    assert("208.67.222.123"@ =~= joined(os, '.'));
    reveal_strlit("208.67.220.123");
    let os = seq![seq!['2', '0', '8'], seq!['6', '7'], seq!['2', '2', '0'], seq!['1', '2', '3']];
    assert forall|i: int| 0 <= i < 4 implies is_ipv4_octet(#[trigger] os[i]) by {
        reveal_with_fuel(decimal_value, 4);
    }
    lemma_dotted_quad(os);
    assert("208.67.220.123"@ =~= joined(os, '.'));
}
} // verus!
