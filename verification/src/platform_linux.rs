//! Linux: DNS through `resolvectl` (systemd-resolved), interfaces through `ip`.
//!
//! These functions decide what to run and what its output means; the code
//! that spawns the processes hands their results back to them.

use vstd::prelude::*;
use crate::ip::{lemma_split_concat, lemma_split_without_sep};
use crate::command::{
    command, dns_set_message, dns_set_text, text_then, CommandLine, CommandOutput, InterfaceSource,
};
use crate::models::{DnsChangeMethod, DnsChangeResult, DnsProvider, NetworkInterface, NetworkInterfaceView};
use crate::text::{
    contains, find_char, is_trimmed, lemma_split_on_nonempty, lemma_trim_idempotent, lines, opt_seq, parse_u32,
    parse_u32_str, split_lines, split_on, split_string, split_words, starts_with, str_contains,
    str_eq, str_find_char, str_starts_with, trim, trim_string, words,
};

verus! {

/// A line that opens the list of DNS servers in `resolvectl status` output.
pub open spec fn is_dns_header(t: Seq<char>) -> bool {
    starts_with(t, "DNS Servers:"@) || starts_with(t, "Current DNS Server:"@)
}

/// The address written on a header line itself: all the text after its
/// first colon, trimmed, if there is any (an IPv6 address keeps its colons).
pub open spec fn header_address(t: Seq<char>) -> Seq<Seq<char>> {
    match find_char(t, ':') {
        Some(k) => if trim(t.skip(k + 1)).len() > 0 {
            seq![trim(t.skip(k + 1))]
        } else {
            seq![]
        },
        None => seq![],
    }
}

/// A `Label: value` line of `resolvectl status` output, such as
/// `DNS Domain: ~.`: a field of its own, not a further server. A server
/// address holds no colon followed by a space.
pub open spec fn is_field_line(t: Seq<char>) -> bool {
    contains(t, ": "@)
}

/// A line inside a server list that ends it: a blank line, an unindented
/// line, or another field.
pub open spec fn ends_server_list(line: Seq<char>, t: Seq<char>) -> bool {
    t.len() == 0 || (!starts_with(t, " "@) && line == t) || is_field_line(t)
}

/// The DNS servers listed in the lines `ls`, given whether the line before
/// them was part of a server list: each header contributes the address on
/// it, and each following indented line that is not a field one more,
/// until a blank, unindented or field line.
pub open spec fn resolvectl_servers(ls: Seq<Seq<char>>, in_section: bool) -> Seq<Seq<char>>
    decreases ls.len(),
{
    if ls.len() == 0 {
        seq![]
    } else {
        let line = ls[0];
        let t = trim(line);
        let rest = ls.drop_first();
        if is_dns_header(t) {
            header_address(t) + resolvectl_servers(rest, true)
        } else if in_section {
            if ends_server_list(line, t) {
                resolvectl_servers(rest, false)
            } else {
                seq![t] + resolvectl_servers(rest, true)
            }
        } else {
            resolvectl_servers(rest, false)
        }
    }
}

/// The DNS servers that `resolvectl status` output lists.
pub open spec fn resolvectl_dns(output: Seq<char>) -> Seq<Seq<char>> {
    resolvectl_servers(lines(output), false)
}

/// Every server read from `resolvectl status` output is non-empty and has no
/// whitespace at either end.
pub proof fn lemma_resolvectl_servers_clean(ls: Seq<Seq<char>>, in_section: bool)
    ensures
        forall|i: int|
            0 <= i < resolvectl_servers(ls, in_section).len() ==> (#[trigger] resolvectl_servers(
                ls,
                in_section,
            )[i]).len() > 0 && is_trimmed(resolvectl_servers(ls, in_section)[i]),
    decreases ls.len(),
{
    if ls.len() > 0 {
        let rest = ls.drop_first();
        lemma_resolvectl_servers_clean(rest, true);
        lemma_resolvectl_servers_clean(rest, false);
        let t = trim(ls[0]);
        lemma_trim_idempotent(ls[0]);
        match find_char(t, ':') {
            Some(k) => lemma_trim_idempotent(t.skip(k + 1)),
            None => {},
        }
        let r = resolvectl_servers(ls, in_section);
        let head = if is_dns_header(t) {
            header_address(t)
        } else if in_section && !ends_server_list(ls[0], t) {
            seq![t]
        } else {
            Seq::<Seq<char>>::empty()
        };
        let next = if is_dns_header(t) {
            true
        } else if in_section {
            !ends_server_list(ls[0], t)
        } else {
            false
        };
        assert(r == head + resolvectl_servers(rest, next));
        assert forall|i: int| 0 <= i < r.len() implies (#[trigger] r[i]).len() > 0 && is_trimmed(r[i]) by {
            if i >= head.len() {
                assert(r[i] == resolvectl_servers(rest, next)[i - head.len()]);
            }
        }
    }
}

/// Parse DNS servers from resolvectl status output.
pub fn parse_resolvectl_dns(output: &str) -> (r: Vec<String>)
    ensures
        r.deep_view() == resolvectl_dns(output@),
{
    let ls = split_lines(output);
    let ghost all = ls.deep_view();
    let mut out: Vec<String> = Vec::new();
    let mut in_section = false;
    let mut i: usize = 0;
    assert(all.skip(0) =~= all);
    while i < ls.len()
        invariant
            all == ls.deep_view(),
            all == lines(output@),
            i <= ls.len(),
            resolvectl_dns(output@) == out.deep_view() + resolvectl_servers(all.skip(i as int), in_section),
        decreases ls.len() - i,
    {
        let ghost before = out.deep_view();
        let ghost rest = all.skip(i as int);
        assert(rest[0] == ls[i as int]@);
        assert(rest.drop_first() =~= all.skip(i + 1));
        let line = ls[i].as_str();
        let t = trim_string(line);
        if str_starts_with(t.as_str(), "DNS Servers:") || str_starts_with(t.as_str(), "Current DNS Server:") {
            in_section = true;
            match str_find_char(t.as_str(), ':') {
                Some(k) => {
                    let n = t.as_str().unicode_len();
                    let after = t.as_str().substring_char(k + 1, n);
                    assert(after@ =~= t@.skip(k + 1));
                    let a = trim_string(after);
                    if !a.as_str().is_empty() {
                        out.push(a);
                        assert(out.deep_view() =~= before + header_address(t@));
                    } else {
                        assert(header_address(t@) =~= Seq::<Seq<char>>::empty());
                        assert(out.deep_view() =~= before + header_address(t@));
                    }
                },
                None => {
                    assert(header_address(t@) =~= Seq::<Seq<char>>::empty());
                    assert(out.deep_view() =~= before + header_address(t@));
                },
            }
        } else if in_section {
            if t.as_str().is_empty() || (!str_starts_with(t.as_str(), " ") && str_eq(line, t.as_str()))
                || str_contains(t.as_str(), ": ") {
                in_section = false;
            } else {
                out.push(t);
                assert(out.deep_view() =~= before + seq![trim(rest[0])]);
            }
        }
        i = i + 1;
        assert(resolvectl_dns(output@) =~= out.deep_view() + resolvectl_servers(all.skip(i as int), in_section));
    }
    assert(all.skip(i as int) =~= Seq::<Seq<char>>::empty());
    assert(out.deep_view() =~= resolvectl_dns(output@));
    out
}

} // verus!

verus! {

/// The interface that one line of `ip -o link show up` describes:
/// `<index>: <name>: ...`, loopback left out.
pub open spec fn ip_link_entry(line: Seq<char>) -> Option<NetworkInterfaceView> {
    let parts = split_on(line, ':');
    if parts.len() >= 2 {
        match parse_u32(trim(parts[0])) {
            Some(index) => if trim(parts[1]) == "lo"@ {
                None
            } else {
                Some(NetworkInterfaceView { name: trim(parts[1]), index, is_active: true })
            },
            None => None,
        }
    } else {
        None
    }
}

/// The interfaces described by the lines `ls`, in order.
pub open spec fn ip_link_entries(ls: Seq<Seq<char>>) -> Seq<NetworkInterfaceView>
    decreases ls.len(),
{
    if ls.len() == 0 {
        seq![]
    } else {
        opt_seq(ip_link_entry(ls[0])) + ip_link_entries(ls.drop_first())
    }
}

/// The index of the first occurrence of `w` in `ws`.
pub open spec fn first_index_of(ws: Seq<Seq<char>>, w: Seq<char>) -> Option<int>
    decreases ws.len(),
{
    if ws.len() == 0 {
        None
    } else if ws[0] == w {
        Some(0)
    } else {
        match first_index_of(ws.drop_first(), w) {
            Some(k) => Some(k + 1),
            None => None,
        }
    }
}

/// The device named in the first line of `ip route show default` output
/// that has a word after its first `dev`.
pub open spec fn route_device(ls: Seq<Seq<char>>) -> Option<Seq<char>>
    decreases ls.len(),
{
    if ls.len() == 0 {
        None
    } else {
        let ws = words(ls[0]);
        match first_index_of(ws, "dev"@) {
            Some(k) => if k + 1 < ws.len() {
                Some(ws[k + 1])
            } else {
                route_device(ls.drop_first())
            },
            None => route_device(ls.drop_first()),
        }
    }
}

proof fn lemma_first_index_of(ws: Seq<Seq<char>>, w: Seq<char>, k: int)
    requires
        0 <= k <= ws.len(),
        forall|j: int| 0 <= j < k ==> (#[trigger] ws[j]) != w,
    ensures
        k < ws.len() && ws[k] == w ==> first_index_of(ws, w) == Some(k),
        k == ws.len() ==> first_index_of(ws, w) is None,
    decreases k,
{
    if k > 0 {
        assert forall|j: int| 0 <= j < k - 1 implies (#[trigger] ws.drop_first()[j]) != w by {
            assert(ws.drop_first()[j] == ws[j + 1]);
        }
        lemma_first_index_of(ws.drop_first(), w, k - 1);
        assert(ws[0] != w);
    } else if ws.len() == 0 {
    }
}

/// Parses one line of `ip -o link show up` output.
pub fn parse_ip_link_line(line: &str) -> (r: Option<NetworkInterface>)
    ensures
        r.deep_view() == ip_link_entry(line@),
{
    let parts = split_string(line, ':');
    if parts.len() >= 2 {
        let first = trim_string(parts[0].as_str());
        match parse_u32_str(first.as_str()) {
            Some(index) => {
                let name = trim_string(parts[1].as_str());
                if str_eq(name.as_str(), "lo") {
                    None
                } else {
                    Some(NetworkInterface { name, index, is_active: true })
                }
            },
            None => None,
        }
    } else {
        None
    }
}

/// The non-loopback interfaces listed by `ip -o link show up`.
pub fn parse_ip_link(output: &str) -> (r: Vec<NetworkInterface>)
    ensures
        r.deep_view() == ip_link_entries(lines(output@)),
{
    let ls = split_lines(output);
    let ghost all = ls.deep_view();
    let mut out: Vec<NetworkInterface> = Vec::new();
    let mut i: usize = 0;
    assert(all.skip(0) =~= all);
    while i < ls.len()
        invariant
            all == ls.deep_view(),
            all == lines(output@),
            i <= ls.len(),
            ip_link_entries(all) == out.deep_view() + ip_link_entries(all.skip(i as int)),
        decreases ls.len() - i,
    {
        let ghost before = out.deep_view();
        let ghost rest = all.skip(i as int);
        assert(rest[0] == ls[i as int]@);
        assert(rest.drop_first() =~= all.skip(i + 1));
        match parse_ip_link_line(ls[i].as_str()) {
            Some(e) => {
                out.push(e);
            },
            None => {},
        }
        assert(out.deep_view() =~= before + opt_seq(ip_link_entry(rest[0])));
        i = i + 1;
    }
    assert(all.skip(i as int) =~= Seq::<Seq<char>>::empty());
    assert(out.deep_view() =~= ip_link_entries(all));
    out
}

/// The device of the default route in `ip route show default` output.
pub fn parse_default_route(output: &str) -> (r: Option<String>)
    ensures
        r.deep_view() == route_device(lines(output@)),
{
    let ls = split_lines(output);
    let ghost all = ls.deep_view();
    let mut i: usize = 0;
    assert(all.skip(0) =~= all);
    while i < ls.len()
        invariant
            all == ls.deep_view(),
            all == lines(output@),
            i <= ls.len(),
            route_device(all) == route_device(all.skip(i as int)),
        decreases ls.len() - i,
    {
        let ghost rest = all.skip(i as int);
        assert(rest[0] == ls[i as int]@);
        assert(rest.drop_first() =~= all.skip(i + 1));
        let ws = split_words(ls[i].as_str());
        let ghost wv = ws.deep_view();
        let mut k: usize = 0;
        while k < ws.len() && !str_eq(ws[k].as_str(), "dev")
            invariant
                wv == ws.deep_view(),
                k <= ws.len(),
                forall|j: int| 0 <= j < k ==> (#[trigger] wv[j]) != "dev"@,
            decreases ws.len() - k,
        {
            k = k + 1;
        }
        proof {
            lemma_first_index_of(wv, "dev"@, k as int);
        }
        if k < ws.len() && k + 1 < ws.len() {
            let mut ws = ws;
            let dev = ws.remove(k + 1);
            assert(dev@ == wv[k + 1]);
            return Some(dev);
        }
        i = i + 1;
    }
    assert(all.skip(i as int) =~= Seq::<Seq<char>>::empty());
    None
}

/// `resolvectl dns <iface> <primary> <secondary>`: sets the servers.
pub fn set_dns_command(provider: &DnsProvider, iface: &str) -> (r: CommandLine)
    ensures
        r.runs("resolvectl"@, seq!["dns"@, iface@, provider.primary_dns@, provider.secondary_dns@]),
{
    let mut args: Vec<String> = Vec::new();
    args.push("dns".to_string());
    args.push(iface.to_string());
    args.push(provider.primary_dns.as_str().to_string());
    args.push(provider.secondary_dns.as_str().to_string());
    let r = command("resolvectl", args);
    assert(r.args.deep_view() =~= seq!["dns"@, iface@, provider.primary_dns@, provider.secondary_dns@]);
    r
}

/// What setting DNS on `iface` came to, from how `set_dns_command` ended.
pub fn set_dns_result(provider: &DnsProvider, iface: &str, outcome: Result<CommandOutput, String>) -> (r: DnsChangeResult)
    ensures
        match outcome {
            Err(e) => r.is_failure_with(DnsChangeMethod::Resolvectl, "Failed to execute resolvectl: "@ + e@),
            Ok(out) => if out.success {
                r.is_success_with(DnsChangeMethod::Resolvectl, dns_set_message(provider@, iface@))
            } else {
                r.is_failure_with(
                    DnsChangeMethod::Resolvectl,
                    "resolvectl dns failed on "@ + iface@ + ": "@ + trim(out.stderr@),
                )
            },
        },
{
    match outcome {
        Err(e) => {
            let m = text_then("Failed to execute resolvectl: ", e.as_str());
            DnsChangeResult::failure(DnsChangeMethod::Resolvectl, m.as_str())
        },
        Ok(out) => {
            if out.success {
                let m = dns_set_text(provider, iface);
                DnsChangeResult::success(DnsChangeMethod::Resolvectl, m.as_str())
            } else {
                let mut m = text_then("resolvectl dns failed on ", iface);
                m.append(": ");
                let err = trim_string(out.stderr.as_str());
                m.append(err.as_str());
                DnsChangeResult::failure(DnsChangeMethod::Resolvectl, m.as_str())
            }
        },
    }
}

/// The commands run after the servers were set: DNS-over-TLS on when the
/// provider has a DoT hostname, then the catch-all routing domain `~.`.
/// Their results do not change the outcome.
pub fn set_dns_followups(provider: &DnsProvider, iface: &str) -> (r: Vec<CommandLine>)
    ensures
        provider.dot_hostname is Some ==> r.len() == 2 && r[0].runs(
            "resolvectl"@,
            seq!["dnstls"@, iface@, "yes"@],
        ) && r[1].runs("resolvectl"@, seq!["domain"@, iface@, "~."@]),
        provider.dot_hostname is None ==> r.len() == 1 && r[0].runs(
            "resolvectl"@,
            seq!["domain"@, iface@, "~."@],
        ),
{
    let mut r: Vec<CommandLine> = Vec::new();
    if provider.dot_hostname.is_some() {
        let mut args: Vec<String> = Vec::new();
        args.push("dnstls".to_string());
        args.push(iface.to_string());
        args.push("yes".to_string());
        assert(args.deep_view() =~= seq!["dnstls"@, iface@, "yes"@]);
        r.push(command("resolvectl", args));
    }
    let mut args: Vec<String> = Vec::new();
    args.push("domain".to_string());
    args.push(iface.to_string());
    args.push("~.".to_string());
    assert(args.deep_view() =~= seq!["domain"@, iface@, "~."@]);
    r.push(command("resolvectl", args));
    r
}

/// The result when no interface was given and none could be detected.
pub fn set_dns_without_interface() -> (r: DnsChangeResult)
    ensures
        r.is_failure_with(
            DnsChangeMethod::Resolvectl,
            "Could not detect active network interface. Please specify one."@,
        ),
{
    DnsChangeResult::failure(
        DnsChangeMethod::Resolvectl,
        "Could not detect active network interface. Please specify one.",
    )
}

/// Where an operation gets its interface: the one named, or else the device
/// of the default route, read by `default_interface_from`.
pub fn interface_source(interface_name: Option<&str>) -> (r: InterfaceSource)
    ensures
        match interface_name {
            Some(n) => r matches InterfaceSource::Named(s) && s@ == n@,
            None => r matches InterfaceSource::Detect(c) && c.runs(
                "ip"@,
                seq!["route"@, "show"@, "default"@],
            ),
        },
{
    match interface_name {
        Some(n) => InterfaceSource::Named(n.to_string()),
        None => InterfaceSource::Detect(default_route_command()),
    }
}

/// The first step of setting DNS, once the interface is known (given, or
/// detected): with none, the change fails at once; with one, the command
/// that sets the servers on it runs.
pub fn set_dns_plan(provider: &DnsProvider, iface: Option<&str>) -> (r: Result<CommandLine, DnsChangeResult>)
    ensures
        match iface {
            None => r matches Err(f) && f.is_failure_with(
                DnsChangeMethod::Resolvectl,
                "Could not detect active network interface. Please specify one."@,
            ),
            Some(i) => r matches Ok(c) && c.runs(
                "resolvectl"@,
                seq!["dns"@, i@, provider.primary_dns@, provider.secondary_dns@],
            ),
        },
{
    match iface {
        None => Err(set_dns_without_interface()),
        Some(i) => Ok(set_dns_command(provider, i)),
    }
}

/// What runs once setting DNS on `iface` came to `result`: nothing after a
/// failure, the follow-ups of `set_dns_followups` after a success.
pub fn after_set(provider: &DnsProvider, iface: &str, result: &DnsChangeResult) -> (r: Vec<CommandLine>)
    ensures
        !result.success ==> r.len() == 0,
        result.success && provider.dot_hostname is Some ==> r.len() == 2 && r[0].runs(
            "resolvectl"@,
            seq!["dnstls"@, iface@, "yes"@],
        ) && r[1].runs("resolvectl"@, seq!["domain"@, iface@, "~."@]),
        result.success && provider.dot_hostname is None ==> r.len() == 1 && r[0].runs(
            "resolvectl"@,
            seq!["domain"@, iface@, "~."@],
        ),
{
    if result.success {
        set_dns_followups(provider, iface)
    } else {
        Vec::new()
    }
}

/// The first step of resetting DNS, once the interface is known: with none,
/// the reset fails at once; with one, the command that reverts it runs.
pub fn reset_dns_plan(iface: Option<&str>) -> (r: Result<CommandLine, DnsChangeResult>)
    ensures
        match iface {
            None => r matches Err(f) && f.is_failure_with(
                DnsChangeMethod::Resolvectl,
                "Could not detect active network interface."@,
            ),
            Some(i) => r matches Ok(c) && c.runs("resolvectl"@, seq!["revert"@, i@]),
        },
{
    match iface {
        None => Err(reset_dns_without_interface()),
        Some(i) => Ok(reset_dns_command(i)),
    }
}

/// `resolvectl revert <iface>`: drops the servers set on the interface.
pub fn reset_dns_command(iface: &str) -> (r: CommandLine)
    ensures
        r.runs("resolvectl"@, seq!["revert"@, iface@]),
{
    let mut args: Vec<String> = Vec::new();
    args.push("revert".to_string());
    args.push(iface.to_string());
    assert(args.deep_view() =~= seq!["revert"@, iface@]);
    command("resolvectl", args)
}

/// What resetting DNS on `iface` came to, from how `reset_dns_command` ended.
pub fn reset_dns_result(iface: &str, outcome: Result<CommandOutput, String>) -> (r: DnsChangeResult)
    ensures
        match outcome {
            Err(e) => r.is_failure_with(DnsChangeMethod::Resolvectl, "Failed to execute resolvectl: "@ + e@),
            Ok(out) => if out.success {
                r.is_success_with(DnsChangeMethod::Resolvectl, "DNS reset to defaults on "@ + iface@)
            } else {
                r.is_failure_with(
                    DnsChangeMethod::Resolvectl,
                    "resolvectl revert failed: "@ + trim(out.stderr@),
                )
            },
        },
{
    match outcome {
        Err(e) => {
            let m = text_then("Failed to execute resolvectl: ", e.as_str());
            DnsChangeResult::failure(DnsChangeMethod::Resolvectl, m.as_str())
        },
        Ok(out) => {
            if out.success {
                let m = text_then("DNS reset to defaults on ", iface);
                DnsChangeResult::success(DnsChangeMethod::Resolvectl, m.as_str())
            } else {
                let err = trim_string(out.stderr.as_str());
                let m = text_then("resolvectl revert failed: ", err.as_str());
                DnsChangeResult::failure(DnsChangeMethod::Resolvectl, m.as_str())
            }
        },
    }
}

/// The result of a reset when no interface was given and none could be detected.
pub fn reset_dns_without_interface() -> (r: DnsChangeResult)
    ensures
        r.is_failure_with(DnsChangeMethod::Resolvectl, "Could not detect active network interface."@),
{
    DnsChangeResult::failure(DnsChangeMethod::Resolvectl, "Could not detect active network interface.")
}

/// `resolvectl status [<iface>]`: lists the DNS configuration.
pub fn current_dns_command(interface_name: Option<&str>) -> (r: CommandLine)
    ensures
        match interface_name {
            Some(iface) => r.runs("resolvectl"@, seq!["status"@, iface@]),
            None => r.runs("resolvectl"@, seq!["status"@]),
        },
{
    let mut args: Vec<String> = Vec::new();
    args.push("status".to_string());
    match interface_name {
        Some(iface) => {
            args.push(iface.to_string());
            assert(args.deep_view() =~= seq!["status"@, iface@]);
        },
        None => {
            assert(args.deep_view() =~= seq!["status"@]);
        },
    }
    command("resolvectl", args)
}

/// The current DNS servers, from how `current_dns_command` ended: none when
/// it could not run, else those its output lists (whatever its status).
pub fn current_dns_from(outcome: Result<CommandOutput, String>) -> (r: Vec<String>)
    ensures
        match outcome {
            Err(_) => r.len() == 0,
            Ok(out) => r.deep_view() == resolvectl_dns(out.stdout@),
        },
{
    match outcome {
        Err(_) => Vec::new(),
        Ok(out) => parse_resolvectl_dns(out.stdout.as_str()),
    }
}

/// `ip -o link show up`: lists the interfaces that are up.
pub fn active_interfaces_command() -> (r: CommandLine)
    ensures
        r.runs("ip"@, seq!["-o"@, "link"@, "show"@, "up"@]),
{
    let mut args: Vec<String> = Vec::new();
    args.push("-o".to_string());
    args.push("link".to_string());
    args.push("show".to_string());
    args.push("up".to_string());
    assert(args.deep_view() =~= seq!["-o"@, "link"@, "show"@, "up"@]);
    command("ip", args)
}

/// The active interfaces, from how `active_interfaces_command` ended.
pub fn active_interfaces_from(outcome: Result<CommandOutput, String>) -> (r: Vec<NetworkInterface>)
    ensures
        match outcome {
            Err(_) => r.len() == 0,
            Ok(out) => r.deep_view() == ip_link_entries(lines(out.stdout@)),
        },
{
    match outcome {
        Err(_) => Vec::new(),
        Ok(out) => parse_ip_link(out.stdout.as_str()),
    }
}

/// `ip route show default`: shows the default route.
pub fn default_route_command() -> (r: CommandLine)
    ensures
        r.runs("ip"@, seq!["route"@, "show"@, "default"@]),
{
    let mut args: Vec<String> = Vec::new();
    args.push("route".to_string());
    args.push("show".to_string());
    args.push("default".to_string());
    assert(args.deep_view() =~= seq!["route"@, "show"@, "default"@]);
    command("ip", args)
}

/// The default interface, from how `default_route_command` ended.
pub fn default_interface_from(outcome: Result<CommandOutput, String>) -> (r: Option<String>)
    ensures
        match outcome {
            Err(_) => r is None,
            Ok(out) => r.deep_view() == route_device(lines(out.stdout@)),
        },
{
    match outcome {
        Err(_) => None,
        Ok(out) => parse_default_route(out.stdout.as_str()),
    }
}

} // verus!

verus! {

/// The default interface is read from the first route line that names a
/// device: when the first line has a word after its first `dev`, that word
/// is the device, whatever the later lines say.
pub proof fn lemma_route_device_first_line(l0: Seq<char>, rest: Seq<Seq<char>>, k: int)
    requires
        0 <= k,
        k + 1 < words(l0).len(),
        words(l0)[k] == "dev"@,
        forall|j: int| 0 <= j < k ==> words(l0)[j] != "dev"@,
    ensures
        route_device(seq![l0] + rest) == Some(words(l0)[k + 1]),
{
    let ls = seq![l0] + rest;
    assert(ls[0] == l0);
    let ws = words(l0);
    assert forall|j: int| 0 <= j < k implies (#[trigger] ws[j]) != "dev"@ by {}
    lemma_first_index_of(ws, "dev"@, k);
}

/// A route line with no word after a first `dev` names no device: reading
/// goes on with the lines after it.
pub proof fn lemma_route_device_skips_line(l0: Seq<char>, rest: Seq<Seq<char>>)
    requires
        forall|k: int| 0 <= k < words(l0).len() - 1 ==> words(l0)[k] != "dev"@,
    ensures
        route_device(seq![l0] + rest) == route_device(rest),
{
    let ls = seq![l0] + rest;
    assert(ls[0] == l0);
    assert(ls.drop_first() =~= rest);
    let ws = words(l0);
    if ws.len() > 0 && ws[ws.len() - 1] == "dev"@ {
        assert forall|j: int| 0 <= j < ws.len() - 1 implies (#[trigger] ws[j]) != "dev"@ by {}
        lemma_first_index_of(ws, "dev"@, ws.len() - 1);
    } else {
        assert forall|j: int| 0 <= j < ws.len() implies (#[trigger] ws[j]) != "dev"@ by {}
        lemma_first_index_of(ws, "dev"@, ws.len() as int);
    }
}

} // verus!

verus! {

/// A line `<index>:<name>:<rest>` of `ip -o link show up` describes the
/// interface named by the whole text between the first two colons,
/// trimmed, with the index read from the trimmed text before the first;
/// none when that is no number or the name is the loopback `lo`.
pub proof fn lemma_ip_link_line(a: Seq<char>, b: Seq<char>, c: Seq<char>)
    requires
        forall|k: int| 0 <= k < a.len() ==> #[trigger] a[k] != ':',
        forall|k: int| 0 <= k < b.len() ==> #[trigger] b[k] != ':',
    ensures
        ip_link_entry(a + seq![':'] + b + seq![':'] + c) == match parse_u32(trim(a)) {
            Some(x) => if trim(b) == "lo"@ {
                None
            } else {
                Some(NetworkInterfaceView { name: trim(b), index: x, is_active: true })
            },
            None => None,
        },
{
    let line = a + seq![':'] + b + seq![':'] + c;
    assert(line =~= a + seq![':'] + (b + seq![':'] + c));
    lemma_split_concat(a, b + seq![':'] + c, ':');
    lemma_split_concat(b, c, ':');
    lemma_split_without_sep(a, ':');
    lemma_split_without_sep(b, ':');
    lemma_split_on_nonempty(c, ':');
    let parts = split_on(line, ':');
    assert(parts[0] == a);
    assert(parts[1] == b);
}

} // verus!
