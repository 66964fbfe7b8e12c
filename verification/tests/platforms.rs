use jetlag_core::command::{CommandOutput, InterfaceSource};
use jetlag_core::models::{DnsChangeMethod, NetworkInterface};
use jetlag_core::platform_linux::{
    after_set, current_dns_command, interface_source, default_interface_from, reset_dns_plan, set_dns_plan, parse_default_route, parse_ip_link,
    parse_resolvectl_dns, reset_dns_result, set_dns_command, set_dns_followups, set_dns_result,
    set_dns_without_interface,
};
use jetlag_core::platform_macos;
use jetlag_core::platform_windows;
use jetlag_core::providers::{cloudflare, opendns, opendns_family};

fn output(success: bool, stdout: &str, stderr: &str) -> CommandOutput {
    CommandOutput { success, stdout: stdout.to_string(), stderr: stderr.to_string(), code: Some(if success { 0 } else { 1 }) }
}

#[test]
fn test_parse_resolvectl_dns() {
    let output = r#"
Link 2 (eth0)
      Current Scopes: DNS
DefaultRoute setting: yes
       LLMNR setting: yes
MulticastDNS setting: no
  DNSOverTLS setting: no
      DNSSEC setting: no
    DNSSEC supported: no
  Current DNS Server: 1.1.1.1
         DNS Servers: 1.1.1.1
                      1.0.0.1
"#;
    let dns = parse_resolvectl_dns(output);
    assert!(dns.contains(&"1.1.1.1".to_string()));
    assert!(dns.contains(&"1.0.0.1".to_string()));
}

#[test]
fn resolvectl_parse_exact() {
    let out = "  Current DNS Server: 1.1.1.1\n         DNS Servers: 1.1.1.1\n                      1.0.0.1\nLink 3 (wlan0)\n                      9.9.9.9\n";
    assert_eq!(parse_resolvectl_dns(out), vec!["1.1.1.1", "1.1.1.1", "1.0.0.1"]);
    assert_eq!(parse_resolvectl_dns("DNS Servers:\n  8.8.8.8\r\n\n  8.8.4.4"), vec!["8.8.8.8"]);
    assert_eq!(parse_resolvectl_dns(""), Vec::<String>::new());
}

#[test]
fn resolvectl_keeps_whole_ipv6_header_address() {
    let out = "Link 2 (eth0)\n         DNS Servers: 2606:4700:4700::1111\n";
    assert_eq!(parse_resolvectl_dns(out), vec!["2606:4700:4700::1111"]);
    let more = "DNS Servers: 2606:4700:4700::1111\n             2606:4700:4700::1001\n";
    assert_eq!(parse_resolvectl_dns(more), vec!["2606:4700:4700::1111", "2606:4700:4700::1001"]);
}

#[test]
fn resolvectl_field_line_ends_server_list() {
    let out = "Link 2 (eth0)\n         DNS Servers: 1.1.1.1\n          DNS Domain: ~.\n";
    assert_eq!(parse_resolvectl_dns(out), vec!["1.1.1.1"]);
    let after = "DNS Servers: 1.1.1.1\n  DNS Domain: ~.\n  9.9.9.9\n";
    assert_eq!(parse_resolvectl_dns(after), vec!["1.1.1.1"]);
}

#[test]
fn linux_steps() {
    let p = cloudflare();
    let failed = set_dns_plan(&p, None).unwrap_err();
    assert!(!failed.success);
    assert_eq!(failed.message, "Could not detect active network interface. Please specify one.");
    assert_eq!(set_dns_plan(&p, Some("eth0")).unwrap().args, vec!["dns", "eth0", "1.1.1.1", "1.0.0.1"]);
    let ok = set_dns_result(&p, "eth0", Ok(output(true, "", "")));
    assert_eq!(after_set(&p, "eth0", &ok).len(), 2);
    let bad = set_dns_result(&p, "eth0", Ok(output(false, "", "x")));
    assert!(after_set(&p, "eth0", &bad).is_empty());
    assert_eq!(reset_dns_plan(None).unwrap_err().message, "Could not detect active network interface.");
    assert_eq!(reset_dns_plan(Some("eth0")).unwrap().args, vec!["revert", "eth0"]);
    assert_eq!(interface_source(Some("eth0")), InterfaceSource::Named("eth0".to_string()));
    match interface_source(None) {
        InterfaceSource::Detect(cmd) => assert_eq!(cmd.args, vec!["route", "show", "default"]),
        other => panic!("expected detection, got {:?}", other),
    }
    match platform_windows::interface_source(None) {
        InterfaceSource::Detect(cmd) => assert_eq!(cmd.program, "powershell"),
        other => panic!("expected detection, got {:?}", other),
    }
    assert_eq!(platform_windows::interface_source(Some("Eth")), InterfaceSource::Named("Eth".to_string()));
}

#[test]
fn macos_and_windows_after_change() {
    let p = cloudflare();
    let ok = platform_macos::set_dns_result(&p, "Wi-Fi", Ok(output(true, "", "")));
    let after = platform_macos::after_change(&ok);
    assert_eq!(after.len(), 2);
    assert_eq!(after[0].program, "dscacheutil");
    assert_eq!(after[1].args, vec!["-HUP", "mDNSResponder"]);
    let bad = platform_macos::set_dns_result(&p, "Wi-Fi", Err("gone".to_string()));
    assert!(platform_macos::after_change(&bad).is_empty());

    let wok = platform_windows::reset_dns_result("Eth", Ok(output(true, "", "")));
    let wafter = platform_windows::after_change(&wok);
    assert_eq!(wafter.len(), 1);
    assert_eq!(wafter[0].program, "ipconfig");
    assert_eq!(wafter[0].args, vec!["/flushdns"]);
    let wbad = platform_windows::reset_dns_result("Eth", Ok(output(false, "", "no")));
    assert!(platform_windows::after_change(&wbad).is_empty());
    assert_eq!(
        platform_windows::set_dns_plan(&p, None).unwrap_err().message,
        "Could not detect active network interface."
    );
    assert_eq!(platform_windows::reset_dns_plan(Some("Eth")).unwrap().program, "powershell");
    assert_eq!(platform_windows::current_dns_plan(None).unwrap_err(), Vec::<String>::new());
    assert_eq!(
        platform_windows::current_dns_plan(Some("Eth")).unwrap().args[4],
        "Get-DnsClientServerAddress -InterfaceAlias 'Eth' | Select-Object -ExpandProperty ServerAddresses"
    );
}

#[test]
fn linux_ip_link_parse() {
    let out = "1: lo: <LOOPBACK,UP,LOWER_UP> mtu 65536\n2: eth0: <BROADCAST,MULTICAST,UP,LOWER_UP> mtu 1500\nbad line\nx: wlan0: <UP>\n3: wlp2s0: <UP>\n";
    assert_eq!(
        parse_ip_link(out),
        vec![
            NetworkInterface { name: "eth0".to_string(), index: 2, is_active: true },
            NetworkInterface { name: "wlp2s0".to_string(), index: 3, is_active: true },
        ]
    );
}

#[test]
fn linux_default_route_parse() {
    assert_eq!(
        parse_default_route("default via 192.168.1.1 dev eth0 proto dhcp metric 100\n"),
        Some("eth0".to_string())
    );
    assert_eq!(parse_default_route("default dev\ndefault via 10.0.0.1 dev wlan0\n"), Some("wlan0".to_string()));
    assert_eq!(parse_default_route(""), None);
    assert_eq!(default_interface_from(Err("no ip".to_string())), None);
}

#[test]
fn linux_set_dns_flow() {
    let p = cloudflare();
    let cmd = set_dns_command(&p, "eth0");
    assert_eq!(cmd.program, "resolvectl");
    assert_eq!(cmd.args, vec!["dns", "eth0", "1.1.1.1", "1.0.0.1"]);
    let ok = set_dns_result(&p, "eth0", Ok(output(true, "", "")));
    assert!(ok.success);
    assert_eq!(ok.method, DnsChangeMethod::Resolvectl);
    assert_eq!(ok.message, "DNS set to Cloudflare (1.1.1.1, 1.0.0.1) on eth0");
    let failed = set_dns_result(&p, "eth0", Ok(output(false, "", "  Failed to set DNS\n")));
    assert!(!failed.success);
    assert_eq!(failed.message, "resolvectl dns failed on eth0: Failed to set DNS");
    let spawn = set_dns_result(&p, "eth0", Err("No such file or directory (os error 2)".to_string()));
    assert_eq!(spawn.message, "Failed to execute resolvectl: No such file or directory (os error 2)");
    let follow = set_dns_followups(&p, "eth0");
    assert_eq!(follow.len(), 2);
    assert_eq!(follow[0].args, vec!["dnstls", "eth0", "yes"]);
    assert_eq!(follow[1].args, vec!["domain", "eth0", "~."]);
    assert_eq!(set_dns_followups(&opendns(), "eth0").len(), 1);
    assert_eq!(
        set_dns_without_interface().message,
        "Could not detect active network interface. Please specify one."
    );
}

#[test]
fn linux_reset_and_status() {
    assert_eq!(reset_dns_result("eth0", Ok(output(true, "", ""))).message, "DNS reset to defaults on eth0");
    assert_eq!(
        reset_dns_result("eth0", Ok(output(false, "", "denied\n"))).message,
        "resolvectl revert failed: denied"
    );
    assert_eq!(current_dns_command(None).args, vec!["status"]);
    assert_eq!(current_dns_command(Some("eth0")).args, vec!["status", "eth0"]);
}

#[test]
fn macos_flow() {
    let p = cloudflare();
    let cmd = platform_macos::set_dns_command(&p, "Wi-Fi");
    assert_eq!(cmd.program, "networksetup");
    assert_eq!(
        cmd.args,
        vec!["-setdnsservers", "Wi-Fi", "1.1.1.1", "1.0.0.1", "2606:4700:4700::1111", "2606:4700:4700::1001"]
    );
    assert_eq!(platform_macos::set_dns_command(&opendns_family(), "Ethernet").args.len(), 4);
    assert_eq!(platform_macos::service_name(None), "Wi-Fi");
    assert_eq!(platform_macos::service_name(Some("USB LAN")), "USB LAN");
    let r = platform_macos::set_dns_result(&p, "Wi-Fi", Ok(output(false, "", "Error: bad\n")));
    assert_eq!(r.message, "networksetup failed: Error: bad");
    assert_eq!(
        platform_macos::reset_dns_result("Wi-Fi", Ok(output(true, "", ""))).message,
        "DNS reset to defaults on Wi-Fi"
    );
    assert_eq!(platform_macos::reset_dns_command("Wi-Fi").args, vec!["-setdnsservers", "Wi-Fi", "Empty"]);
}

#[test]
fn macos_parsers() {
    let none = platform_macos::current_dns_from(Ok(output(
        true,
        "There aren't any DNS Servers set on Wi-Fi.\n",
        "",
    )));
    assert!(none.is_empty());
    let some = platform_macos::current_dns_from(Ok(output(true, "1.1.1.1\n  1.0.0.1 \n\n", "")));
    assert_eq!(some, vec!["1.1.1.1", "1.0.0.1"]);
    let services = platform_macos::services_from(Ok(output(
        true,
        "An asterisk (*) denotes that a network service is disabled.\nWi-Fi\n*Bluetooth PAN\n  Thunderbolt Bridge \n\n",
        "",
    )));
    assert_eq!(services, vec!["Wi-Fi", "Thunderbolt Bridge"]);
    assert!(platform_macos::service_active_from(Ok(output(
        true,
        "DHCP Configuration\nIP address: 192.168.1.5\nSubnet mask: 255.255.255.0\n",
        "",
    ))));
    assert!(!platform_macos::service_active_from(Ok(output(true, "IP address: none\n", ""))));
    let ifs = platform_macos::interfaces_of_services(vec![
        ("LAN".to_string(), false),
        ("Wi-Fi".to_string(), true),
        ("USB".to_string(), true),
    ]);
    assert_eq!(
        ifs,
        vec![
            NetworkInterface { name: "Wi-Fi".to_string(), index: 1, is_active: true },
            NetworkInterface { name: "USB".to_string(), index: 2, is_active: true },
        ]
    );
    assert!(platform_macos::interfaces_of_services(vec![("LAN".to_string(), false)]).is_empty());
}

#[test]
fn windows_flow() {
    let p = cloudflare();
    let cmd = platform_windows::set_dns_command(&p, "Wi-Fi 'Home'");
    assert_eq!(cmd.program, "powershell");
    assert_eq!(
        cmd.args[4],
        "Set-DnsClientServerAddress -InterfaceAlias 'Wi-Fi ''Home''' -ServerAddresses ('1.1.1.1','1.0.0.1','2606:4700:4700::1111','2606:4700:4700::1001')"
    );
    let denied = platform_windows::set_dns_result(&p, "Ethernet", Ok(output(false, "", "Access is DENIED.\n")));
    assert_eq!(
        denied.message,
        "Administrator privileges required. The Jetlag DNS Service should handle this automatically."
    );
    let missing = platform_windows::set_dns_result(&p, "Ethernet", Ok(output(false, "term is not recognized", "  ")));
    assert_eq!(
        missing.message,
        "PowerShell or Set-DnsClientServerAddress cmdlet not recognized. Check your PATH/installation."
    );
    let other = platform_windows::reset_dns_result("Ethernet", Ok(output(false, "", " boom \n")));
    assert_eq!(other.message, "DNS reset failed: boom");
    assert_eq!(
        platform_windows::reset_dns_command("Eth").args[4],
        "Set-DnsClientServerAddress -InterfaceAlias 'Eth' -ResetServerAddresses"
    );
    let ok = platform_windows::reset_dns_result("Ethernet", Ok(output(true, "", "")));
    assert_eq!(ok.message, "DNS reset to DHCP defaults on Ethernet");
}

#[test]
fn windows_parsers() {
    let ifs = platform_windows::active_interfaces_from(Ok(output(true, "Ethernet|4\r\nWi-Fi | 12\r\nbad\r\nx|y\r\n", "")));
    assert_eq!(
        ifs,
        vec![
            NetworkInterface { name: "Ethernet".to_string(), index: 4, is_active: true },
            NetworkInterface { name: "Wi-Fi".to_string(), index: 12, is_active: true },
        ]
    );
    assert!(platform_windows::active_interfaces_from(Ok(output(false, "Ethernet|4", ""))).is_empty());
    assert_eq!(
        platform_windows::current_dns_from(Ok(output(true, "1.1.1.1\r\n\r\n1.0.0.1\r\n", ""))),
        vec!["1.1.1.1", "1.0.0.1"]
    );
    assert_eq!(
        platform_windows::default_interface_from(Ok(output(true, "  Ethernet 2\r\n", ""))),
        Some("Ethernet 2".to_string())
    );
    assert_eq!(platform_windows::default_interface_from(Ok(output(true, " \r\n", ""))), None);
}

#[test]
fn escaping_doubles_quotes() {
    let cmd = platform_windows::reset_dns_command("a''b'");
    assert_eq!(cmd.args[4], "Set-DnsClientServerAddress -InterfaceAlias 'a''''b''' -ResetServerAddresses");
}

#[test]
fn escaping_function_doubles_each_quote() {
    let value = "it's 'x''";
    let escaped = platform_windows::escape_powershell_single_quoted(value);
    assert_eq!(escaped, "it''s ''x''''");
    assert_eq!(escaped.replace("''", "'"), value);
    assert_eq!(escaped.len(), value.len() + value.matches('\'').count());
    assert_eq!(platform_windows::escape_powershell_single_quoted("plain"), "plain");
}
