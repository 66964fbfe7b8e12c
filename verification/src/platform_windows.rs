//! Windows: DNS and adapters through PowerShell cmdlets.
//!
//! These functions decide what to run and what its output means; the code
//! that spawns the processes hands their results back to them.

use vstd::prelude::*;
use crate::ip::{lemma_split_concat, lemma_split_without_sep};
use crate::command::{
    command, dns_set_message, dns_set_text, text_then, CommandLine, CommandOutput, InterfaceSource,
};
use crate::models::{
    DnsChangeMethod, DnsChangeResult, DnsProvider, DnsProviderView, NetworkInterface,
    NetworkInterfaceView,
};
use crate::text::{
    chars_of, contains, is_whitespace, lemma_trim_end_concat, lemma_trim_of_trim_end,
    lemma_trim_of_trim_start, lemma_trim_start_concat, lines, lowercase_contains, opt_seq,
    trim_end, trim_start, nonempty_trimmed_lines, parse_u32,
    parse_u32_str, split_lines, split_on, split_string, to_ascii_lowercase, trim, trim_string,
    trimmed_nonempty,
};

verus! {

/// `s` made safe inside a PowerShell single-quoted string: each `'` doubled.
pub open spec fn escape_single_quoted(s: Seq<char>) -> Seq<char>
    decreases s.len(),
{
    if s.len() == 0 {
        seq![]
    } else {
        escape_single_quoted(s.drop_last()) + if s.last() == '\'' {
            seq!['\'', '\'']
        } else {
            seq![s.last()]
        }
    }
}

/// `s` as a PowerShell single-quoted string literal.
pub open spec fn quoted(s: Seq<char>) -> Seq<char> {
    "'"@ + escape_single_quoted(s) + "'"@
}

/// The text that a PowerShell single-quoted literal with body `t` stands
/// for: `''` is one quote, any other character is itself, and a quote on
/// its own would end the literal early (`None`).
pub open spec fn unescape_single_quoted(t: Seq<char>) -> Option<Seq<char>>
    decreases t.len(),
{
    if t.len() == 0 {
        Some(seq![])
    } else if t[0] == '\'' {
        if t.len() >= 2 && t[1] == '\'' {
            match unescape_single_quoted(t.skip(2)) {
                Some(r) => Some(seq!['\''] + r),
                None => None,
            }
        } else {
            None
        }
    } else {
        match unescape_single_quoted(t.drop_first()) {
            Some(r) => Some(seq![t[0]] + r),
            None => None,
        }
    }
}

/// Escaping distributes over concatenation.
pub proof fn lemma_escape_concat(a: Seq<char>, b: Seq<char>)
    ensures
        escape_single_quoted(a + b) == escape_single_quoted(a) + escape_single_quoted(b),
    decreases b.len(),
{
    if b.len() == 0 {
        assert(a + b =~= a);
        assert(escape_single_quoted(a) + escape_single_quoted(b) =~= escape_single_quoted(a));
    } else {
        lemma_escape_concat(a, b.drop_last());
        assert((a + b).drop_last() =~= a + b.drop_last());
        assert((a + b).last() == b.last());
        let tail = if b.last() == '\'' { seq!['\'', '\''] } else { seq![b.last()] };
        assert(escape_single_quoted(a) + escape_single_quoted(b) =~= escape_single_quoted(a)
            + escape_single_quoted(b.drop_last()) + tail);
    }
}

/// Escaping is safe inside a single-quoted PowerShell literal: the literal
/// `quoted(s)` ends where it should, and stands for exactly `s`. No value,
/// whatever quotes it holds, can close the literal early and inject code.
pub proof fn lemma_quoting_roundtrip(s: Seq<char>)
    ensures
        unescape_single_quoted(escape_single_quoted(s)) == Some(s),
    decreases s.len(),
{
    if s.len() > 0 {
        let c = s[0];
        let rest = s.drop_first();
        assert(s =~= seq![c] + rest);
        lemma_escape_concat(seq![c], rest);
        assert(seq![c].drop_last() =~= Seq::<char>::empty());
        assert(escape_single_quoted(seq![c].drop_last()) =~= Seq::<char>::empty());
        lemma_quoting_roundtrip(rest);
        let e = escape_single_quoted(rest);
        let t = escape_single_quoted(s);
        if c == '\'' {
            assert(escape_single_quoted(seq![c]) =~= seq!['\'', '\'']);
            assert(t.skip(2) =~= e);
            assert(seq!['\''] + rest =~= s);
        } else {
            assert(escape_single_quoted(seq![c]) =~= seq![c]);
            assert(t.drop_first() =~= e);
            assert(seq![c] + rest =~= s);
        }
    }
}

/// The number of single quotes in `s`.
pub open spec fn count_quotes(s: Seq<char>) -> nat
    decreases s.len(),
{
    if s.len() == 0 {
        0
    } else {
        count_quotes(s.drop_last()) + if s.last() == '\'' {
            1nat
        } else {
            0nat
        }
    }
}

/// `t` with each `''` replaced by `'`, scanning from the left without
/// overlaps, as `str::replace` does.
pub open spec fn collapse_quote_pairs(t: Seq<char>) -> Seq<char>
    decreases t.len(),
{
    if t.len() == 0 {
        seq![]
    } else if t.len() >= 2 && t[0] == '\'' && t[1] == '\'' {
        seq!['\''] + collapse_quote_pairs(t.skip(2))
    } else {
        seq![t[0]] + collapse_quote_pairs(t.drop_first())
    }
}

/// The number of single quotes that `u` ends with.
pub open spec fn trailing_quotes(u: Seq<char>) -> nat
    decreases u.len(),
{
    if u.len() > 0 && u.last() == '\'' {
        trailing_quotes(u.drop_last()) + 1
    } else {
        0
    }
}

/// Every maximal run of single quotes in `t` is of even length: each run
/// ends before a character that is no quote, or at the end of `t`, and the
/// quotes just before that point are even in number.
pub open spec fn quote_runs_even(t: Seq<char>) -> bool {
    forall|k: int|
        0 <= k <= t.len() && (k == t.len() || t[k] != '\'') ==> #[trigger] trailing_quotes(t.take(k)) % 2
            == 0
}

proof fn lemma_unescape_collapses(t: Seq<char>)
    ensures
        unescape_single_quoted(t) matches Some(r) ==> collapse_quote_pairs(t) == r,
    decreases t.len(),
{
    if t.len() > 0 {
        if t[0] == '\'' {
            if t.len() >= 2 && t[1] == '\'' {
                lemma_unescape_collapses(t.skip(2));
            }
        } else {
            lemma_unescape_collapses(t.drop_first());
        }
    }
}

/// Escaping doubles each quote and changes nothing else: replacing each
/// `''` by `'` gives the value back, the result is one character longer
/// per quote, and every run of quotes in it is of even length.
pub proof fn lemma_escaping_doubles_quotes(s: Seq<char>)
    ensures
        collapse_quote_pairs(escape_single_quoted(s)) == s,
        escape_single_quoted(s).len() == s.len() + count_quotes(s),
        quote_runs_even(escape_single_quoted(s)),
    decreases s.len(),
{
    lemma_quoting_roundtrip(s);
    lemma_unescape_collapses(escape_single_quoted(s));
    let t = escape_single_quoted(s);
    if s.len() == 0 {
        assert forall|k: int|
            0 <= k <= t.len() && (k == t.len() || t[k] != '\'') implies #[trigger] trailing_quotes(t.take(k)) % 2
            == 0 by {
            assert(t.take(k).len() == 0);
        }
    } else {
        let d = s.drop_last();
        lemma_escaping_doubles_quotes(d);
        let td = escape_single_quoted(d);
        let q = s.last() == '\'';
        let tail = if q { seq!['\'', '\''] } else { seq![s.last()] };
        assert(t == td + tail);
        assert(trailing_quotes(td.take(td.len() as int)) % 2 == 0) by {
            assert(td.take(td.len() as int) =~= td);
        }
        assert(td.take(td.len() as int) =~= td);
        assert forall|k: int|
            0 <= k <= t.len() && (k == t.len() || t[k] != '\'') implies #[trigger] trailing_quotes(t.take(k)) % 2
            == 0 by {
            if k <= td.len() {
                assert(t.take(k) =~= td.take(k));
                if k < td.len() {
                    assert(t[k] == td[k]);
                } else {
                    assert(t[k] == tail[0]);
                }
            } else if !q {
                assert(t.take(k) =~= t);
                assert(t.last() == s.last());
            } else {
                assert(k == t.len());
                assert(t.take(k) =~= t);
                assert(t.drop_last() =~= td + seq!['\'']);
                assert((td + seq!['\'']).drop_last() =~= td);
                let u = td + seq!['\''];
                assert(u.last() == '\'');
                assert(trailing_quotes(u) == trailing_quotes(td) + 1);
                assert(t.last() == '\'');
                assert(trailing_quotes(t) == trailing_quotes(u) + 1);
            }
        }
    }
}

/// `value` made safe inside a PowerShell single-quoted string: each `'` doubled.
pub fn escape_powershell_single_quoted(value: &str) -> (r: String)
    ensures
        r@ == escape_single_quoted(value@),
{
    let c = chars_of(value);
    let mut out = String::new();
    let mut i: usize = 0;
    while i < c.len()
        invariant
            c@ == value@,
            i <= c.len(),
            out@ == escape_single_quoted(value@.take(i as int)),
        decreases c.len() - i,
    {
        assert(value@.take(i + 1).drop_last() =~= value@.take(i as int));
        if c[i] == '\'' {
            out.append("''");
            proof {
                reveal_strlit("''");
            }
            assert(out@ =~= escape_single_quoted(value@.take(i + 1)));
        } else {
            let one = value.substring_char(i, i + 1);
            out.append(one);
            assert(out@ =~= escape_single_quoted(value@.take(i + 1)));
        }
        i = i + 1;
    }
    assert(value@.take(c.len() as int) =~= value@);
    out
}

/// `'<escaped s>'`.
fn quote(s: &str) -> (r: String)
    ensures
        r@ == quoted(s@),
{
    let mut m = "'".to_string();
    let e = escape_powershell_single_quoted(s);
    m.append(e.as_str());
    m.append("'");
    m
}

/// A further server address in the PowerShell address list, if it is set and not empty.
pub open spec fn extra_address(a: Option<Seq<char>>) -> Seq<char> {
    match a {
        Some(x) => if x.len() > 0 {
            ","@ + quoted(x)
        } else {
            seq![]
        },
        None => seq![],
    }
}

/// The PowerShell script that sets the provider's servers on `iface`.
pub open spec fn set_dns_script(p: DnsProviderView, iface: Seq<char>) -> Seq<char> {
    "Set-DnsClientServerAddress -InterfaceAlias "@ + quoted(iface) + " -ServerAddresses ("@
        + quoted(p.primary_dns) + ","@ + quoted(p.secondary_dns) + extra_address(p.primary_dns_ipv6)
        + extra_address(p.secondary_dns_ipv6) + ")"@
}

fn push_extra_address(m: &mut String, a: &Option<String>)
    ensures
        final(m)@ == old(m)@ + extra_address(a.deep_view()),
{
    match a {
        Some(x) => {
            if !x.as_str().is_empty() {
                m.append(",");
                let q = quote(x.as_str());
                m.append(q.as_str());
            }
        },
        None => {},
    }
}

/// `powershell -NoProfile -ExecutionPolicy Bypass -Command <script>`.
pub fn powershell_command(script: String) -> (r: CommandLine)
    ensures
        r.runs(
            "powershell"@,
            seq!["-NoProfile"@, "-ExecutionPolicy"@, "Bypass"@, "-Command"@, script@],
        ),
{
    let mut args: Vec<String> = Vec::new();
    args.push("-NoProfile".to_string());
    args.push("-ExecutionPolicy".to_string());
    args.push("Bypass".to_string());
    args.push("-Command".to_string());
    let ghost sv = script@;
    args.push(script);
    assert(args.deep_view() =~= seq!["-NoProfile"@, "-ExecutionPolicy"@, "Bypass"@, "-Command"@, sv]);
    command("powershell", args)
}

/// The command that sets the provider's servers (and its IPv6 servers, if
/// given and not empty) on `iface`.
pub fn set_dns_command(provider: &DnsProvider, iface: &str) -> (r: CommandLine)
    ensures
        r.runs(
            "powershell"@,
            seq![
                "-NoProfile"@,
                "-ExecutionPolicy"@,
                "Bypass"@,
                "-Command"@,
                set_dns_script(provider@, iface@),
            ],
        ),
{
    let mut m = "Set-DnsClientServerAddress -InterfaceAlias ".to_string();
    let qi = quote(iface);
    m.append(qi.as_str());
    m.append(" -ServerAddresses (");
    let qp = quote(provider.primary_dns.as_str());
    m.append(qp.as_str());
    m.append(",");
    let qs = quote(provider.secondary_dns.as_str());
    m.append(qs.as_str());
    push_extra_address(&mut m, &provider.primary_dns_ipv6);
    push_extra_address(&mut m, &provider.secondary_dns_ipv6);
    m.append(")");
    assert(m@ =~= set_dns_script(provider@, iface@));
    powershell_command(m)
}

/// What a failed PowerShell run reported: its standard error, unless that is
/// blank, then its standard output.
pub open spec fn error_text(stderr: Seq<char>, stdout: Seq<char>) -> Seq<char> {
    if trim(stderr).len() > 0 {
        stderr
    } else {
        stdout
    }
}

/// The message for a failed PowerShell run: permission problems and a
/// missing cmdlet get messages of their own (matched without regard to
/// ASCII case), anything else is reported after `prefix`.
pub open spec fn powershell_failure(detail: Seq<char>, prefix: Seq<char>) -> Seq<char> {
    let lower = to_ascii_lowercase(detail);
    if contains(lower, "access is denied"@) || contains(lower, "requires elevation"@) {
        "Administrator privileges required. The Jetlag DNS Service should handle this automatically."@
    } else if contains(lower, "not recognized"@) {
        "PowerShell or Set-DnsClientServerAddress cmdlet not recognized. Check your PATH/installation."@
    } else {
        prefix + trim(detail)
    }
}

fn failure_text(out: &CommandOutput, prefix: &str) -> (r: String)
    ensures
        r@ == powershell_failure(error_text(out.stderr@, out.stdout@), prefix@),
{
    let err_trimmed = trim_string(out.stderr.as_str());
    let detail: &str = if !err_trimmed.as_str().is_empty() {
        out.stderr.as_str()
    } else {
        out.stdout.as_str()
    };
    if lowercase_contains(detail, "access is denied") || lowercase_contains(detail, "requires elevation") {
        "Administrator privileges required. The Jetlag DNS Service should handle this automatically.".to_string()
    } else if lowercase_contains(detail, "not recognized") {
        "PowerShell or Set-DnsClientServerAddress cmdlet not recognized. Check your PATH/installation.".to_string()
    } else {
        let t = trim_string(detail);
        text_then(prefix, t.as_str())
    }
}

/// What setting DNS on `iface` came to, from how `set_dns_command` ended.
pub fn set_dns_result(provider: &DnsProvider, iface: &str, outcome: Result<CommandOutput, String>) -> (r: DnsChangeResult)
    ensures
        match outcome {
            Err(e) => r.is_failure_with(DnsChangeMethod::WindowsApi, "Failed to execute PowerShell: "@ + e@),
            Ok(out) => if out.success {
                r.is_success_with(DnsChangeMethod::WindowsApi, dns_set_message(provider@, iface@))
            } else {
                r.is_failure_with(
                    DnsChangeMethod::WindowsApi,
                    powershell_failure(error_text(out.stderr@, out.stdout@), "PowerShell command failed: "@),
                )
            },
        },
{
    match outcome {
        Err(e) => {
            let m = text_then("Failed to execute PowerShell: ", e.as_str());
            DnsChangeResult::failure(DnsChangeMethod::WindowsApi, m.as_str())
        },
        Ok(out) => {
            if out.success {
                let m = dns_set_text(provider, iface);
                DnsChangeResult::success(DnsChangeMethod::WindowsApi, m.as_str())
            } else {
                let m = failure_text(&out, "PowerShell command failed: ");
                DnsChangeResult::failure(DnsChangeMethod::WindowsApi, m.as_str())
            }
        },
    }
}

/// The result when no interface was given and none could be detected.
pub fn without_interface() -> (r: DnsChangeResult)
    ensures
        r.is_failure_with(DnsChangeMethod::WindowsApi, "Could not detect active network interface."@),
{
    DnsChangeResult::failure(DnsChangeMethod::WindowsApi, "Could not detect active network interface.")
}

/// Where an operation gets its interface: the one named, or else the alias
/// printed by the default-interface script, read by `default_interface_from`.
pub fn interface_source(interface_name: Option<&str>) -> (r: InterfaceSource)
    ensures
        match interface_name {
            Some(n) => r matches InterfaceSource::Named(s) && s@ == n@,
            None => r matches InterfaceSource::Detect(c) && c.runs(
                "powershell"@,
                seq!["-NoProfile"@, "-ExecutionPolicy"@, "Bypass"@, "-Command"@, default_interface_script()],
            ),
        },
{
    match interface_name {
        Some(n) => InterfaceSource::Named(n.to_string()),
        None => InterfaceSource::Detect(default_interface_command()),
    }
}

/// The first step of setting DNS, once the interface is known (given, or
/// detected): with none, the change fails at once; with one, the command
/// that sets the servers on it runs.
pub fn set_dns_plan(provider: &DnsProvider, iface: Option<&str>) -> (r: Result<CommandLine, DnsChangeResult>)
    ensures
        match iface {
            None => r matches Err(f) && f.is_failure_with(
                DnsChangeMethod::WindowsApi,
                "Could not detect active network interface."@,
            ),
            Some(i) => r matches Ok(c) && c.runs(
                "powershell"@,
                seq![
                    "-NoProfile"@,
                    "-ExecutionPolicy"@,
                    "Bypass"@,
                    "-Command"@,
                    set_dns_script(provider@, i@),
                ],
            ),
        },
{
    match iface {
        None => Err(without_interface()),
        Some(i) => Ok(set_dns_command(provider, i)),
    }
}

/// The first step of resetting DNS, once the interface is known: with none,
/// the reset fails at once; with one, the command that resets it runs.
pub fn reset_dns_plan(iface: Option<&str>) -> (r: Result<CommandLine, DnsChangeResult>)
    ensures
        match iface {
            None => r matches Err(f) && f.is_failure_with(
                DnsChangeMethod::WindowsApi,
                "Could not detect active network interface."@,
            ),
            Some(i) => r matches Ok(c) && c.runs(
                "powershell"@,
                seq!["-NoProfile"@, "-ExecutionPolicy"@, "Bypass"@, "-Command"@, reset_dns_script(i@)],
            ),
        },
{
    match iface {
        None => Err(without_interface()),
        Some(i) => Ok(reset_dns_command(i)),
    }
}

/// What runs once a change (set or reset) came to `result`: the DNS cache
/// flush after a success, nothing after a failure.
pub fn after_change(result: &DnsChangeResult) -> (r: Vec<CommandLine>)
    ensures
        !result.success ==> r.len() == 0,
        result.success ==> r.len() == 1 && r[0].runs("ipconfig"@, seq!["/flushdns"@]),
{
    let mut r: Vec<CommandLine> = Vec::new();
    if result.success {
        r.push(flush_dns_command());
    }
    r
}

/// The PowerShell script that puts `iface` back on the DHCP servers.
pub open spec fn reset_dns_script(iface: Seq<char>) -> Seq<char> {
    "Set-DnsClientServerAddress -InterfaceAlias "@ + quoted(iface) + " -ResetServerAddresses"@
}

/// The command that puts `iface` back on the DHCP servers.
pub fn reset_dns_command(iface: &str) -> (r: CommandLine)
    ensures
        r.runs(
            "powershell"@,
            seq!["-NoProfile"@, "-ExecutionPolicy"@, "Bypass"@, "-Command"@, reset_dns_script(iface@)],
        ),
{
    let mut m = "Set-DnsClientServerAddress -InterfaceAlias ".to_string();
    let qi = quote(iface);
    m.append(qi.as_str());
    m.append(" -ResetServerAddresses");
    powershell_command(m)
}

/// What resetting DNS on `iface` came to, from how `reset_dns_command` ended.
pub fn reset_dns_result(iface: &str, outcome: Result<CommandOutput, String>) -> (r: DnsChangeResult)
    ensures
        match outcome {
            Err(e) => r.is_failure_with(DnsChangeMethod::WindowsApi, "Failed to execute PowerShell: "@ + e@),
            Ok(out) => if out.success {
                r.is_success_with(DnsChangeMethod::WindowsApi, "DNS reset to DHCP defaults on "@ + iface@)
            } else {
                r.is_failure_with(
                    DnsChangeMethod::WindowsApi,
                    powershell_failure(error_text(out.stderr@, out.stdout@), "DNS reset failed: "@),
                )
            },
        },
{
    match outcome {
        Err(e) => {
            let m = text_then("Failed to execute PowerShell: ", e.as_str());
            DnsChangeResult::failure(DnsChangeMethod::WindowsApi, m.as_str())
        },
        Ok(out) => {
            if out.success {
                let m = text_then("DNS reset to DHCP defaults on ", iface);
                DnsChangeResult::success(DnsChangeMethod::WindowsApi, m.as_str())
            } else {
                let m = failure_text(&out, "DNS reset failed: ");
                DnsChangeResult::failure(DnsChangeMethod::WindowsApi, m.as_str())
            }
        },
    }
}

/// The PowerShell script that prints the servers of `alias`, one per line.
pub open spec fn current_dns_script(alias: Seq<char>) -> Seq<char> {
    "Get-DnsClientServerAddress -InterfaceAlias "@ + quoted(alias)
        + " | Select-Object -ExpandProperty ServerAddresses"@
}

/// The command that prints the servers of `alias`.
pub fn current_dns_command(alias: &str) -> (r: CommandLine)
    ensures
        r.runs(
            "powershell"@,
            seq!["-NoProfile"@, "-ExecutionPolicy"@, "Bypass"@, "-Command"@, current_dns_script(alias@)],
        ),
{
    let mut m = "Get-DnsClientServerAddress -InterfaceAlias ".to_string();
    let qa = quote(alias);
    m.append(qa.as_str());
    m.append(" | Select-Object -ExpandProperty ServerAddresses");
    powershell_command(m)
}

/// The first step of reading the current servers, once the interface is
/// known: with none there is nothing to run, and no server to report.
pub fn current_dns_plan(alias: Option<&str>) -> (r: Result<CommandLine, Vec<String>>)
    ensures
        match alias {
            None => r matches Err(v) && v.len() == 0,
            Some(a) => r matches Ok(c) && c.runs(
                "powershell"@,
                seq!["-NoProfile"@, "-ExecutionPolicy"@, "Bypass"@, "-Command"@, current_dns_script(a@)],
            ),
        },
{
    match alias {
        None => Err(Vec::new()),
        Some(a) => Ok(current_dns_command(a)),
    }
}

/// The current DNS servers, from how `current_dns_command` ended: none
/// unless it succeeded, else each non-blank line of its output, trimmed.
pub fn current_dns_from(outcome: Result<CommandOutput, String>) -> (r: Vec<String>)
    ensures
        match outcome {
            Ok(out) => if out.success {
                r.deep_view() == trimmed_nonempty(lines(out.stdout@))
            } else {
                r.len() == 0
            },
            Err(_) => r.len() == 0,
        },
{
    match outcome {
        Err(_) => Vec::new(),
        Ok(out) => {
            if !out.success {
                Vec::new()
            } else {
                nonempty_trimmed_lines(out.stdout.as_str())
            }
        },
    }
}

/// The PowerShell script that prints `<name>|<index>` for each adapter that is up.
pub open spec fn active_adapters_script() -> Seq<char> {
    "Get-NetAdapter | Where-Object {$_.Status -eq 'Up'} | Select-Object -Property Name,ifIndex | ForEach-Object { \"$($_.Name)|$($_.ifIndex)\" }"@
}

/// The command that lists the adapters that are up.
pub fn active_interfaces_command() -> (r: CommandLine)
    ensures
        r.runs(
            "powershell"@,
            seq!["-NoProfile"@, "-ExecutionPolicy"@, "Bypass"@, "-Command"@, active_adapters_script()],
        ),
{
    powershell_command(
        "Get-NetAdapter | Where-Object {$_.Status -eq 'Up'} | Select-Object -Property Name,ifIndex | ForEach-Object { \"$($_.Name)|$($_.ifIndex)\" }".to_string(),
    )
}

/// The adapter that one `<name>|<index>` line describes.
pub open spec fn adapter_entry(line: Seq<char>) -> Option<NetworkInterfaceView> {
    let parts = split_on(trim(line), '|');
    if parts.len() == 2 {
        match parse_u32(trim(parts[1])) {
            Some(index) => Some(NetworkInterfaceView { name: trim(parts[0]), index, is_active: true }),
            None => None,
        }
    } else {
        None
    }
}

/// The adapters described by the lines `ls`, in order.
pub open spec fn adapter_entries(ls: Seq<Seq<char>>) -> Seq<NetworkInterfaceView>
    decreases ls.len(),
{
    if ls.len() == 0 {
        seq![]
    } else {
        opt_seq(adapter_entry(ls[0])) + adapter_entries(ls.drop_first())
    }
}

/// Parses one `<name>|<index>` line.
pub fn parse_adapter_line(line: &str) -> (r: Option<NetworkInterface>)
    ensures
        r.deep_view() == adapter_entry(line@),
{
    let t = trim_string(line);
    let parts = split_string(t.as_str(), '|');
    if parts.len() == 2 {
        let idx = trim_string(parts[1].as_str());
        match parse_u32_str(idx.as_str()) {
            Some(index) => {
                let name = trim_string(parts[0].as_str());
                Some(NetworkInterface { name, index, is_active: true })
            },
            None => None,
        }
    } else {
        None
    }
}

/// The active adapters, from how `active_interfaces_command` ended: none
/// unless it succeeded.
pub fn active_interfaces_from(outcome: Result<CommandOutput, String>) -> (r: Vec<NetworkInterface>)
    ensures
        match outcome {
            Ok(out) => if out.success {
                r.deep_view() == adapter_entries(lines(out.stdout@))
            } else {
                r.len() == 0
            },
            Err(_) => r.len() == 0,
        },
{
    match outcome {
        Err(_) => Vec::new(),
        Ok(out) => {
            if !out.success {
                Vec::new()
            } else {
                parse_adapters(out.stdout.as_str())
            }
        },
    }
}

/// The adapters listed in the output of the adapter script.
pub fn parse_adapters(output: &str) -> (r: Vec<NetworkInterface>)
    ensures
        r.deep_view() == adapter_entries(lines(output@)),
{
    let ls = split_lines(output);
    let ghost all = ls.deep_view();
    let mut res: Vec<NetworkInterface> = Vec::new();
    let mut i: usize = 0;
    assert(all.skip(0) =~= all);
    while i < ls.len()
        invariant
            all == ls.deep_view(),
            all == lines(output@),
            i <= ls.len(),
            adapter_entries(all) == res.deep_view() + adapter_entries(all.skip(i as int)),
        decreases ls.len() - i,
    {
        let ghost before = res.deep_view();
        let ghost rest = all.skip(i as int);
        assert(rest[0] == ls[i as int]@);
        assert(rest.drop_first() =~= all.skip(i + 1));
        match parse_adapter_line(ls[i].as_str()) {
            Some(e) => {
                res.push(e);
            },
            None => {},
        }
        assert(res.deep_view() =~= before + opt_seq(adapter_entry(rest[0])));
        i = i + 1;
    }
    assert(all.skip(i as int) =~= Seq::<Seq<char>>::empty());
    assert(res.deep_view() =~= adapter_entries(all));
    res
}

/// The PowerShell script that prints the alias of the interface with the
/// cheapest default route (IPv4 first, then IPv6).
pub open spec fn default_interface_script() -> Seq<char> {
    "$v4 = Get-NetRoute -AddressFamily IPv4 -DestinationPrefix '0.0.0.0/0' -ErrorAction SilentlyContinue | Where-Object { $_.NextHop -ne '' } | Sort-Object { $_.RouteMetric + $_.InterfaceMetric } | Select-Object -First 1 -ExpandProperty InterfaceAlias; $v6 = Get-NetRoute -AddressFamily IPv6 -DestinationPrefix '::/0' -ErrorAction SilentlyContinue | Where-Object { $_.NextHop -ne '' } | Sort-Object { $_.RouteMetric + $_.InterfaceMetric } | Select-Object -First 1 -ExpandProperty InterfaceAlias; if ($v4) { $v4 } elseif ($v6) { $v6 }"@
}

/// The command that finds the default interface.
pub fn default_interface_command() -> (r: CommandLine)
    ensures
        r.runs(
            "powershell"@,
            seq!["-NoProfile"@, "-ExecutionPolicy"@, "Bypass"@, "-Command"@, default_interface_script()],
        ),
{
    powershell_command(
        "$v4 = Get-NetRoute -AddressFamily IPv4 -DestinationPrefix '0.0.0.0/0' -ErrorAction SilentlyContinue | Where-Object { $_.NextHop -ne '' } | Sort-Object { $_.RouteMetric + $_.InterfaceMetric } | Select-Object -First 1 -ExpandProperty InterfaceAlias; $v6 = Get-NetRoute -AddressFamily IPv6 -DestinationPrefix '::/0' -ErrorAction SilentlyContinue | Where-Object { $_.NextHop -ne '' } | Sort-Object { $_.RouteMetric + $_.InterfaceMetric } | Select-Object -First 1 -ExpandProperty InterfaceAlias; if ($v4) { $v4 } elseif ($v6) { $v6 }".to_string(),
    )
}

/// The default interface, from how `default_interface_command` ended: its
/// trimmed output, when it succeeded and printed something.
pub fn default_interface_from(outcome: Result<CommandOutput, String>) -> (r: Option<String>)
    ensures
        match outcome {
            Ok(out) => if out.success && trim(out.stdout@).len() > 0 {
                r.deep_view() == Some(trim(out.stdout@))
            } else {
                r is None
            },
            Err(_) => r is None,
        },
{
    match outcome {
        Err(_) => None,
        Ok(out) => {
            if !out.success {
                return None;
            }
            let name = trim_string(out.stdout.as_str());
            if name.as_str().is_empty() {
                None
            } else {
                Some(name)
            }
        },
    }
}

/// `ipconfig /flushdns`: run after a successful change.
pub fn flush_dns_command() -> (r: CommandLine)
    ensures
        r.runs("ipconfig"@, seq!["/flushdns"@]),
{
    let mut args: Vec<String> = Vec::new();
    args.push("/flushdns".to_string());
    assert(args.deep_view() =~= seq!["/flushdns"@]);
    command("ipconfig", args)
}

} // verus!

verus! {

/// A `<name>|<index>` line describes the adapter named by the whole text
/// before the `|`, trimmed (spaces inside the name kept), with the index
/// read from the trimmed text after it; no adapter when that is no number.
pub proof fn lemma_adapter_line(n: Seq<char>, i: Seq<char>)
    requires
        forall|k: int| 0 <= k < n.len() ==> #[trigger] n[k] != '|',
        forall|k: int| 0 <= k < i.len() ==> #[trigger] i[k] != '|',
    ensures
        adapter_entry(n + seq!['|'] + i) == match parse_u32(trim(i)) {
            Some(x) => Some(NetworkInterfaceView { name: trim(n), index: x, is_active: true }),
            None => None,
        },
{
    let line = n + seq!['|'] + i;
    let x = trim_start(n);
    let y = trim_end(i);
    assert(line =~= n + (seq!['|'] + i));
    lemma_trim_start_concat(n, seq!['|'] + i);
    assert(trim_start(line) =~= (x + seq!['|']) + i);
    lemma_trim_end_concat(x + seq!['|'], i);
    assert(trim(line) =~= x + seq!['|'] + y);
    lemma_trim_start_suffix_chars(n);
    lemma_trim_end_prefix_chars(i);
    lemma_split_concat(x, y, '|');
    lemma_split_without_sep(x, '|');
    lemma_split_without_sep(y, '|');
    let parts = split_on(trim(line), '|');
    assert(parts =~= seq![x, y]);
    lemma_trim_of_trim_start(n);
    lemma_trim_of_trim_end(i);
}

proof fn lemma_trim_start_suffix_chars(n: Seq<char>)
    requires
        forall|k: int| 0 <= k < n.len() ==> #[trigger] n[k] != '|',
    ensures
        forall|k: int| 0 <= k < trim_start(n).len() ==> #[trigger] trim_start(n)[k] != '|',
    decreases n.len(),
{
    if n.len() > 0 && is_whitespace(n[0]) {
        let d = n.drop_first();
        assert forall|k: int| 0 <= k < d.len() implies #[trigger] d[k] != '|' by {
            assert(d[k] == n[k + 1]);
        }
        lemma_trim_start_suffix_chars(d);
        assert(trim_start(n) == trim_start(d));
    } else {
        assert(trim_start(n) == n);
        assert forall|k: int| 0 <= k < trim_start(n).len() implies #[trigger] trim_start(n)[k] != '|' by {
            assert(trim_start(n)[k] == n[k]);
        }
    }
}

proof fn lemma_trim_end_prefix_chars(n: Seq<char>)
    requires
        forall|k: int| 0 <= k < n.len() ==> #[trigger] n[k] != '|',
    ensures
        forall|k: int| 0 <= k < trim_end(n).len() ==> #[trigger] trim_end(n)[k] != '|',
    decreases n.len(),
{
    if n.len() > 0 && is_whitespace(n.last()) {
        let d = n.drop_last();
        assert forall|k: int| 0 <= k < d.len() implies #[trigger] d[k] != '|' by {
            assert(d[k] == n[k]);
        }
        lemma_trim_end_prefix_chars(d);
        assert(trim_end(n) == trim_end(d));
    } else {
        assert(trim_end(n) == n);
        assert forall|k: int| 0 <= k < trim_end(n).len() implies #[trigger] trim_end(n)[k] != '|' by {
            assert(trim_end(n)[k] == n[k]);
        }
    }
}

} // verus!
