//! macOS: DNS and network services through `networksetup`.
//!
//! These functions decide what to run and what its output means; the code
//! that spawns the processes hands their results back to them.

use vstd::prelude::*;
use crate::command::{command, dns_set_message, dns_set_text, text_then, CommandLine, CommandOutput};
use crate::models::{DnsChangeMethod, DnsChangeResult, DnsProvider, NetworkInterface, NetworkInterfaceView};
use crate::text::{
    contains, lemma_trimmed_nonempty_keeps_every_line, lines, non_blank, nonempty_trimmed_lines,
    trimmed_lines, split_lines, starts_with, str_contains,
    str_starts_with, trim, trim_string, trimmed_nonempty,
};

verus! {

/// The network service used when none is named.
pub open spec fn default_service() -> Seq<char> {
    "Wi-Fi"@
}

/// The network service an operation applies to.
pub open spec fn service_of(interface_name: Option<Seq<char>>) -> Seq<char> {
    match interface_name {
        Some(name) => name,
        None => default_service(),
    }
}

/// The service named, or the default one.
pub fn service_name(interface_name: Option<&str>) -> (r: String)
    ensures
        r@ == service_of(
            match interface_name {
                Some(n) => Some(n@),
                None => None,
            },
        ),
{
    match interface_name {
        Some(name) => name.to_string(),
        None => "Wi-Fi".to_string(),
    }
}

/// The arguments after the server list holds its IPv6 servers, if any.
pub open spec fn ipv6_args(p: Option<Seq<char>>) -> Seq<Seq<char>> {
    match p {
        Some(a) => seq![a],
        None => seq![],
    }
}

/// `networksetup -setdnsservers <service> <primary> <secondary> [<ipv6>...]`.
pub fn set_dns_command(provider: &DnsProvider, service: &str) -> (r: CommandLine)
    ensures
        r.runs(
            "networksetup"@,
            seq!["-setdnsservers"@, service@, provider.primary_dns@, provider.secondary_dns@]
                + ipv6_args(provider@.primary_dns_ipv6) + ipv6_args(provider@.secondary_dns_ipv6),
        ),
{
    let mut args: Vec<String> = Vec::new();
    args.push("-setdnsservers".to_string());
    args.push(service.to_string());
    args.push(provider.primary_dns.as_str().to_string());
    args.push(provider.secondary_dns.as_str().to_string());
    let ghost base = seq!["-setdnsservers"@, service@, provider.primary_dns@, provider.secondary_dns@];
    assert(args.deep_view() =~= base);
    match &provider.primary_dns_ipv6 {
        Some(a) => {
            args.push(a.as_str().to_string());
        },
        None => {},
    }
    assert(args.deep_view() =~= base + ipv6_args(provider@.primary_dns_ipv6));
    match &provider.secondary_dns_ipv6 {
        Some(a) => {
            args.push(a.as_str().to_string());
        },
        None => {},
    }
    assert(args.deep_view() =~= base + ipv6_args(provider@.primary_dns_ipv6) + ipv6_args(
        provider@.secondary_dns_ipv6,
    ));
    command("networksetup", args)
}

/// What setting DNS on `service` came to, from how `set_dns_command` ended.
pub fn set_dns_result(provider: &DnsProvider, service: &str, outcome: Result<CommandOutput, String>) -> (r: DnsChangeResult)
    ensures
        match outcome {
            Err(e) => r.is_failure_with(DnsChangeMethod::Networksetup, "Failed to execute networksetup: "@ + e@),
            Ok(out) => if out.success {
                r.is_success_with(DnsChangeMethod::Networksetup, dns_set_message(provider@, service@))
            } else {
                r.is_failure_with(DnsChangeMethod::Networksetup, "networksetup failed: "@ + trim(out.stderr@))
            },
        },
{
    match outcome {
        Err(e) => {
            let m = text_then("Failed to execute networksetup: ", e.as_str());
            DnsChangeResult::failure(DnsChangeMethod::Networksetup, m.as_str())
        },
        Ok(out) => {
            if out.success {
                let m = dns_set_text(provider, service);
                DnsChangeResult::success(DnsChangeMethod::Networksetup, m.as_str())
            } else {
                let err = trim_string(out.stderr.as_str());
                let m = text_then("networksetup failed: ", err.as_str());
                DnsChangeResult::failure(DnsChangeMethod::Networksetup, m.as_str())
            }
        },
    }
}

/// The commands that flush the DNS cache after a successful change; their
/// results do not change the outcome.
pub fn flush_cache_commands() -> (r: Vec<CommandLine>)
    ensures
        r.len() == 2,
        r[0].runs("dscacheutil"@, seq!["-flushcache"@]),
        r[1].runs("killall"@, seq!["-HUP"@, "mDNSResponder"@]),
{
    let mut r: Vec<CommandLine> = Vec::new();
    let mut a: Vec<String> = Vec::new();
    a.push("-flushcache".to_string());
    assert(a.deep_view() =~= seq!["-flushcache"@]);
    r.push(command("dscacheutil", a));
    let mut b: Vec<String> = Vec::new();
    b.push("-HUP".to_string());
    b.push("mDNSResponder".to_string());
    assert(b.deep_view() =~= seq!["-HUP"@, "mDNSResponder"@]);
    r.push(command("killall", b));
    r
}

/// What runs once a change (set or reset) came to `result`: the cache
/// flushes after a success, nothing after a failure.
pub fn after_change(result: &DnsChangeResult) -> (r: Vec<CommandLine>)
    ensures
        !result.success ==> r.len() == 0,
        result.success ==> r.len() == 2 && r[0].runs("dscacheutil"@, seq!["-flushcache"@]) && r[1].runs(
            "killall"@,
            seq!["-HUP"@, "mDNSResponder"@],
        ),
{
    if result.success {
        flush_cache_commands()
    } else {
        Vec::new()
    }
}

/// `networksetup -setdnsservers <service> Empty`: back to the DHCP servers.
pub fn reset_dns_command(service: &str) -> (r: CommandLine)
    ensures
        r.runs("networksetup"@, seq!["-setdnsservers"@, service@, "Empty"@]),
{
    let mut args: Vec<String> = Vec::new();
    args.push("-setdnsservers".to_string());
    args.push(service.to_string());
    args.push("Empty".to_string());
    assert(args.deep_view() =~= seq!["-setdnsservers"@, service@, "Empty"@]);
    command("networksetup", args)
}

/// What resetting DNS on `service` came to, from how `reset_dns_command` ended.
pub fn reset_dns_result(service: &str, outcome: Result<CommandOutput, String>) -> (r: DnsChangeResult)
    ensures
        match outcome {
            Err(e) => r.is_failure_with(DnsChangeMethod::Networksetup, "Failed to execute networksetup: "@ + e@),
            Ok(out) => if out.success {
                r.is_success_with(DnsChangeMethod::Networksetup, "DNS reset to defaults on "@ + service@)
            } else {
                r.is_failure_with(
                    DnsChangeMethod::Networksetup,
                    "networksetup reset failed: "@ + trim(out.stderr@),
                )
            },
        },
{
    match outcome {
        Err(e) => {
            let m = text_then("Failed to execute networksetup: ", e.as_str());
            DnsChangeResult::failure(DnsChangeMethod::Networksetup, m.as_str())
        },
        Ok(out) => {
            if out.success {
                let m = text_then("DNS reset to defaults on ", service);
                DnsChangeResult::success(DnsChangeMethod::Networksetup, m.as_str())
            } else {
                let err = trim_string(out.stderr.as_str());
                let m = text_then("networksetup reset failed: ", err.as_str());
                DnsChangeResult::failure(DnsChangeMethod::Networksetup, m.as_str())
            }
        },
    }
}

/// `networksetup -getdnsservers <service>`.
pub fn current_dns_command(service: &str) -> (r: CommandLine)
    ensures
        r.runs("networksetup"@, seq!["-getdnsservers"@, service@]),
{
    let mut args: Vec<String> = Vec::new();
    args.push("-getdnsservers".to_string());
    args.push(service.to_string());
    assert(args.deep_view() =~= seq!["-getdnsservers"@, service@]);
    command("networksetup", args)
}

/// The servers that `networksetup -getdnsservers` prints: none when it
/// reports that there aren't any (the DHCP default) or prints nothing,
/// else each non-blank line, trimmed.
pub open spec fn networksetup_dns(output: Seq<char>) -> Seq<Seq<char>> {
    let text = trim(output);
    if contains(text, "aren't any"@) || text.len() == 0 {
        seq![]
    } else {
        trimmed_nonempty(lines(text))
    }
}

/// The current DNS servers, from how `current_dns_command` ended.
pub fn current_dns_from(outcome: Result<CommandOutput, String>) -> (r: Vec<String>)
    ensures
        match outcome {
            Err(_) => r.len() == 0,
            Ok(out) => r.deep_view() == networksetup_dns(out.stdout@),
        },
{
    match outcome {
        Err(_) => Vec::new(),
        Ok(out) => {
            let text = trim_string(out.stdout.as_str());
            if str_contains(text.as_str(), "aren't any") || text.as_str().is_empty() {
                Vec::new()
            } else {
                nonempty_trimmed_lines(text.as_str())
            }
        },
    }
}

/// `networksetup -listallnetworkservices`.
pub fn list_services_command() -> (r: CommandLine)
    ensures
        r.runs("networksetup"@, seq!["-listallnetworkservices"@]),
{
    let mut args: Vec<String> = Vec::new();
    args.push("-listallnetworkservices".to_string());
    assert(args.deep_view() =~= seq!["-listallnetworkservices"@]);
    command("networksetup", args)
}

/// The enabled services among the lines `ls` (those not marked with a
/// leading `*`), trimmed, blank ones left out.
pub open spec fn enabled_services(ls: Seq<Seq<char>>) -> Seq<Seq<char>>
    decreases ls.len(),
{
    if ls.len() == 0 {
        seq![]
    } else {
        let t = trim(ls[0]);
        (if !starts_with(ls[0], "*"@) && t.len() > 0 { seq![t] } else { seq![] })
            + enabled_services(ls.drop_first())
    }
}

/// The services that `networksetup -listallnetworkservices` prints: its
/// first line is an explanation, not a service.
pub open spec fn network_services(output: Seq<char>) -> Seq<Seq<char>> {
    let ls = lines(output);
    if ls.len() == 0 {
        seq![]
    } else {
        enabled_services(ls.drop_first())
    }
}

/// The enabled network services, from how `list_services_command` ended.
pub fn services_from(outcome: Result<CommandOutput, String>) -> (r: Vec<String>)
    ensures
        match outcome {
            Err(_) => r.len() == 0,
            Ok(out) => r.deep_view() == network_services(out.stdout@),
        },
{
    match outcome {
        Err(_) => Vec::new(),
        Ok(out) => {
            let ls = split_lines(out.stdout.as_str());
            let ghost all = ls.deep_view();
            let mut res: Vec<String> = Vec::new();
            if ls.len() == 0 {
                return res;
            }
            let mut i: usize = 1;
            assert(all.skip(1) =~= all.drop_first());
            while i < ls.len()
                invariant
                    all == ls.deep_view(),
                    all == lines(out.stdout@),
                    1 <= i <= ls.len(),
                    network_services(out.stdout@) == res.deep_view() + enabled_services(all.skip(i as int)),
                decreases ls.len() - i,
            {
                let ghost before = res.deep_view();
                let ghost rest = all.skip(i as int);
                assert(rest[0] == ls[i as int]@);
                assert(rest.drop_first() =~= all.skip(i + 1));
                let line = ls[i].as_str();
                let t = trim_string(line);
                if !str_starts_with(line, "*") && !t.as_str().is_empty() {
                    res.push(t);
                    assert(res.deep_view() =~= before + seq![trim(rest[0])]);
                } else {
                    assert(res.deep_view() =~= before + Seq::<Seq<char>>::empty());
                }
                i = i + 1;
            }
            assert(all.skip(i as int) =~= Seq::<Seq<char>>::empty());
            assert(res.deep_view() =~= network_services(out.stdout@));
            res
        },
    }
}

/// `networksetup -getinfo <service>`.
pub fn service_info_command(service: &str) -> (r: CommandLine)
    ensures
        r.runs("networksetup"@, seq!["-getinfo"@, service@]),
{
    let mut args: Vec<String> = Vec::new();
    args.push("-getinfo".to_string());
    args.push(service.to_string());
    assert(args.deep_view() =~= seq!["-getinfo"@, service@]);
    command("networksetup", args)
}

/// A line of `networksetup -getinfo` that gives the service an IP address.
pub open spec fn is_address_line(line: Seq<char>) -> bool {
    starts_with(trim(line), "IP address:"@) && !contains(trim(line), "none"@)
}

/// A service is active when its info gives it an IP address.
pub open spec fn has_ip_address(output: Seq<char>) -> bool {
    exists|i: int| 0 <= i < lines(output).len() && is_address_line(#[trigger] lines(output)[i])
}

/// Whether `networksetup -getinfo` output gives the service an IP address.
pub fn info_has_ip_address(output: &str) -> (r: bool)
    ensures
        r == has_ip_address(output@),
{
    let ls = split_lines(output);
    let ghost all = ls.deep_view();
    let mut i: usize = 0;
    while i < ls.len()
        invariant
            all == ls.deep_view(),
            all == lines(output@),
            i <= ls.len(),
            forall|k: int| 0 <= k < i ==> !is_address_line(#[trigger] all[k]),
        decreases ls.len() - i,
    {
        assert(all[i as int] == ls[i as int]@);
        let t = trim_string(ls[i].as_str());
        if str_starts_with(t.as_str(), "IP address:") && !str_contains(t.as_str(), "none") {
            assert(is_address_line(all[i as int]));
            return true;
        }
        i = i + 1;
    }
    false
}

/// Whether the service is active, from how `service_info_command` ended.
pub fn service_active_from(outcome: Result<CommandOutput, String>) -> (r: bool)
    ensures
        match outcome {
            Err(_) => !r,
            Ok(out) => r == has_ip_address(out.stdout@),
        },
{
    match outcome {
        Err(_) => false,
        Ok(out) => info_has_ip_address(out.stdout.as_str()),
    }
}

/// The active services among `services[k..]`, each as an interface
/// numbered by its place `k` in the whole list of enabled services.
pub open spec fn active_interfaces_from(services: Seq<(String, bool)>, k: int) -> Seq<NetworkInterfaceView>
    decreases services.len() - k,
{
    if k < 0 || k >= services.len() {
        seq![]
    } else {
        (if services[k].1 {
            seq![NetworkInterfaceView { name: services[k].0@, index: k as u32, is_active: true }]
        } else {
            seq![]
        }) + active_interfaces_from(services, k + 1)
    }
}

/// The active network services, given each enabled service with whether
/// it has an IP address: only the active ones are listed, each numbered by
/// its place in the list of enabled services.
pub fn interfaces_of_services(services: Vec<(String, bool)>) -> (r: Vec<NetworkInterface>)
    ensures
        r.deep_view() == active_interfaces_from(services@, 0),
{
    let mut r: Vec<NetworkInterface> = Vec::new();
    let ghost orig = services@;
    let mut rest = services;
    let n = rest.len();
    let mut i: usize = 0;
    while i < n
        invariant
            n == orig.len(),
            i <= n,
            rest@ == orig.skip(i as int),
            active_interfaces_from(orig, 0) == r.deep_view() + active_interfaces_from(orig, i as int),
        decreases n - i,
    {
        let ghost before = r.deep_view();
        assert(rest@[0] == orig[i as int]);
        let (name, is_active) = rest.remove(0);
        assert(rest@ =~= orig.skip(i + 1));
        if is_active {
            r.push(NetworkInterface { name, index: i as u32, is_active: true });
            assert(r.deep_view() =~= before + seq![
                NetworkInterfaceView { name: orig[i as int].0@, index: i as u32, is_active: true },
            ]);
        } else {
            assert(r.deep_view() =~= before + Seq::<NetworkInterfaceView>::empty());
        }
        i = i + 1;
    }
    assert(r.deep_view() =~= r.deep_view() + active_interfaces_from(orig, i as int));
    r
}

} // verus!

verus! {

/// The servers read from `networksetup -getdnsservers` are every non-blank
/// line of its output, trimmed, in order, however many there are; none
/// when it reports that there aren't any or prints nothing.
pub proof fn lemma_networksetup_lists_every_server(output: Seq<char>)
    ensures
        contains(trim(output), "aren't any"@) || trim(output).len() == 0 ==> networksetup_dns(
            output,
        ).len() == 0,
        !contains(trim(output), "aren't any"@) && trim(output).len() > 0 ==> networksetup_dns(output)
            == non_blank(trimmed_lines(lines(trim(output)))),
{
    lemma_trimmed_nonempty_keeps_every_line(lines(trim(output)));
}

} // verus!

verus! {

/// A line of the service list that names an enabled service: not marked
/// disabled with a leading `*`, and not blank.
pub open spec fn names_enabled_service(line: Seq<char>) -> bool {
    !starts_with(line, "*"@) && trim(line).len() > 0
}

/// Every enabled service line is kept, trimmed, in order, and nothing else.
pub proof fn lemma_enabled_services_keep_every_line(ls: Seq<Seq<char>>)
    ensures
        enabled_services(ls) == ls.filter(|l: Seq<char>| names_enabled_service(l)).map_values(
            |l: Seq<char>| trim(l),
        ),
    decreases ls.len(),
{
    let p = |l: Seq<char>| names_enabled_service(l);
    let f = |l: Seq<char>| trim(l);
    if ls.len() == 0 {
        reveal(Seq::filter);
        assert(ls.filter(p).map_values(f) =~= Seq::<Seq<char>>::empty());
    } else {
        let rest = ls.drop_first();
        lemma_enabled_services_keep_every_line(rest);
        assert(ls =~= seq![ls[0]] + rest);
        rest.lemma_filter_prepend(ls[0], p);
        if p(ls[0]) {
            assert(ls.filter(p).map_values(f) =~= seq![trim(ls[0])] + rest.filter(p).map_values(f));
        } else {
            assert(ls.filter(p) == rest.filter(p));
        }
    }
}

/// The listed services are the enabled ones after the explanatory first
/// line, each trimmed, in order, however many there are.
pub proof fn lemma_network_services_lists_every_enabled(output: Seq<char>)
    ensures
        lines(output).len() == 0 ==> network_services(output).len() == 0,
        lines(output).len() > 0 ==> network_services(output) == lines(output).drop_first().filter(
            |l: Seq<char>| names_enabled_service(l),
        ).map_values(|l: Seq<char>| trim(l)),
{
    if lines(output).len() > 0 {
        lemma_enabled_services_keep_every_line(lines(output).drop_first());
    }
}

} // verus!
