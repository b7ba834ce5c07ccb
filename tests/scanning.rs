use wifi_proxy::scan::{rank_by_signal, read_scan_record, rescan_args, signal_to_bar, truncate_ssid, wifi_list_args};
use wifi_proxy::{scan_networks, CommandOutput, Network, WifiProxyError};

fn output(success: bool, stdout: &str, stderr: &str) -> CommandOutput {
    CommandOutput { success, stdout: stdout.to_string(), stderr: stderr.to_string() }
}

fn net(ssid: &str, signal: u8, security: &str) -> Network {
    Network { ssid: ssid.to_string(), signal, security: security.to_string() }
}

#[test]
fn scan_keeps_first_of_each_name_and_ranks() {
    let r = scan_networks(&output(true, "A:50:WPA2\nB:90:\nA:30:WPA2\n", "")).unwrap();
    assert_eq!(r, vec![net("B", 90, ""), net("A", 50, "WPA2")]);
}

#[test]
fn scan_drops_hidden_networks() {
    let r = scan_networks(&output(true, ":99:WPA2\nC:10:\n:100:\n", "")).unwrap();
    assert_eq!(r, vec![net("C", 10, "")]);
}

#[test]
fn scan_keeps_discovery_order_on_equal_signal() {
    let r = scan_networks(&output(true, "X:40:\nY:60:WPA3\nZ:40:WEP\n", "")).unwrap();
    assert_eq!(r, vec![net("Y", 60, "WPA3"), net("X", 40, ""), net("Z", 40, "WEP")]);
}

#[test]
fn scan_reads_bad_signal_as_zero() {
    let r = scan_networks(&output(true, "N:abc:WPA2\nM:5:\n", "")).unwrap();
    assert_eq!(r, vec![net("M", 5, ""), net("N", 0, "WPA2")]);
}

#[test]
fn scan_reassembles_security_with_colons() {
    let r = scan_networks(&output(true, "Corp:77:WPA1 WPA2:802.1X\n", "")).unwrap();
    assert_eq!(r, vec![net("Corp", 77, "WPA1 WPA2:802.1X")]);
}

#[test]
fn scan_of_empty_list_is_empty() {
    assert_eq!(scan_networks(&output(true, "", "")), Ok(vec![]));
}

#[test]
fn scan_failure_reports_stderr() {
    assert_eq!(
        scan_networks(&output(false, "", "Error: Device 'wlan9' not found.\n")),
        Err(WifiProxyError::NmcliExecution("Error: Device 'wlan9' not found.\n".to_string()))
    );
}

#[test]
fn ranking_is_stable_and_descending() {
    let found = vec![net("a", 10, ""), net("b", 255, ""), net("c", 10, ""), net("d", 0, ""), net("e", 200, "")];
    assert_eq!(
        rank_by_signal(&found),
        vec![net("b", 255, ""), net("e", 200, ""), net("a", 10, ""), net("c", 10, ""), net("d", 0, "")]
    );
}

#[test]
fn scan_arguments() {
    assert_eq!(rescan_args("wlan1"), vec!["device", "wifi", "rescan", "ifname", "wlan1"]);
    assert_eq!(
        wifi_list_args("wlan1"),
        vec!["-t", "-f", "SSID,SIGNAL,SECURITY", "device", "wifi", "list", "ifname", "wlan1"]
    );
}

#[test]
fn long_names_are_cut() {
    assert_eq!(truncate_ssid("Short", 10), "Short");
    assert_eq!(truncate_ssid("VeryLongNetworkName", 10), "VeryLon...");
    assert_eq!(truncate_ssid("ExactlyTen", 10), "ExactlyTen");
    assert_eq!(truncate_ssid("abcd", 3), "...");
}

#[test]
fn signal_bars() {
    assert_eq!(signal_to_bar(100), "████");
    assert_eq!(signal_to_bar(80), "████");
    assert_eq!(signal_to_bar(79), "███░");
    assert_eq!(signal_to_bar(60), "███░");
    assert_eq!(signal_to_bar(59), "██░░");
    assert_eq!(signal_to_bar(40), "██░░");
    assert_eq!(signal_to_bar(39), "█░░░");
    assert_eq!(signal_to_bar(20), "█░░░");
    assert_eq!(signal_to_bar(19), "░░░░");
    assert_eq!(signal_to_bar(0), "░░░░");
    assert_eq!(signal_to_bar(101), "░░░░");
}

#[test]
fn scan_reads_signal_outside_percent_as_zero() {
    let r = scan_networks(&output(true, "A:150:\nB:100:\nC:101:WPA2\nD:255:\n", "")).unwrap();
    assert_eq!(r, vec![net("B", 100, ""), net("A", 0, ""), net("C", 0, "WPA2"), net("D", 0, "")]);
}

#[test]
fn scan_treats_sentinel_name_as_hidden() {
    let r = scan_networks(&output(true, "--:50:\nE:20:WPA2\n", "")).unwrap();
    assert_eq!(r, vec![net("E", 20, "WPA2")]);
}

#[test]
fn scan_reads_sentinel_security_as_open() {
    let r = scan_networks(&output(true, "F:33:--\n", "")).unwrap();
    assert_eq!(r, vec![net("F", 33, "")]);
}

#[test]
fn scan_first_line_wins_over_stronger_duplicate() {
    let r = scan_networks(&output(true, "G:10:WEP\nH:50:\nG:95:WPA3\n", "")).unwrap();
    assert_eq!(r, vec![net("H", 50, ""), net("G", 10, "WEP")]);
}

#[test]
fn single_record_reading() {
    assert_eq!(read_scan_record("N:42:WPA2"), Some(net("N", 42, "WPA2")));
    assert_eq!(read_scan_record(":42:WPA2"), None);
    assert_eq!(read_scan_record("--:42:"), None);
    assert_eq!(read_scan_record("N:42"), None);
    assert_eq!(read_scan_record("N:+7:--"), Some(net("N", 7, "")));
}

#[test]
fn short_names_need_no_room_for_dots() {
    assert_eq!(truncate_ssid("ab", 2), "ab");
    assert_eq!(truncate_ssid("", 0), "");
}
