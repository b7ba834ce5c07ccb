use wifi_proxy::connection::{
    connect_args, delete_connection, delete_connection_args, disconnect_args, gateway_url,
    status_args, status_report,
};
use wifi_proxy::{connect, disconnect, status, CommandOutput, ConnectionStatus, WifiProxyError};

fn output(success: bool, stdout: &str, stderr: &str) -> CommandOutput {
    CommandOutput { success, stdout: stdout.to_string(), stderr: stderr.to_string() }
}

#[test]
fn status_reads_the_four_keys() {
    let text = "GENERAL.STATE:100 (connected)\nGENERAL.CONNECTION:RoboDog-AP\nIP4.ADDRESS[1]:192.168.4.2/24\nIP4.GATEWAY:192.168.4.1";
    let s = status("wlan1", &output(true, text, "")).unwrap();
    assert_eq!(s.interface, "wlan1");
    assert_eq!(s.state, "100 (connected)");
    assert_eq!(s.connection, Some("RoboDog-AP".to_string()));
    assert_eq!(s.ip_address, Some("192.168.4.2/24".to_string()));
    assert_eq!(s.gateway, Some("192.168.4.1".to_string()));
}

#[test]
fn status_sentinel_means_absent() {
    let text = "GENERAL.STATE:30 (disconnected)\nGENERAL.CONNECTION:--\nIP4.GATEWAY:--\nIP4.ADDRESS[1]:--\n";
    let s = status("wlan1", &output(true, text, "")).unwrap();
    assert_eq!(s.state, "30 (disconnected)");
    assert_eq!(s.connection, None);
    assert_eq!(s.gateway, None);
    assert_eq!(s.ip_address, None);
}

#[test]
fn status_empty_values_mean_absent() {
    let s = status("wlan1", &output(true, "GENERAL.CONNECTION:\nIP4.GATEWAY:\n", "")).unwrap();
    assert_eq!(s.connection, None);
    assert_eq!(s.gateway, None);
}

#[test]
fn status_without_state_is_unknown() {
    let text = "GENERAL.DEVICE:wlan1\nGENERAL.TYPE:wifi\nGENERAL.HWADDR:AA:BB:CC:DD:EE:FF\nmalformed\n";
    let s = status("wlan1", &output(true, text, "")).unwrap();
    assert_eq!(
        s,
        ConnectionStatus {
            interface: "wlan1".to_string(),
            state: "unknown".to_string(),
            connection: None,
            ip_address: None,
            gateway: None,
        }
    );
}

#[test]
fn status_values_may_hold_colons() {
    let s = status("wlan1", &output(true, "IP4.ADDRESS[1]:fe80::1/64\n", "")).unwrap();
    assert_eq!(s.ip_address, Some("fe80::1/64".to_string()));
}

#[test]
fn status_failure_reports_stderr() {
    assert_eq!(
        status("wlan9", &output(false, "", "Error: Device 'wlan9' not found.\n")),
        Err(WifiProxyError::NmcliExecution("Error: Device 'wlan9' not found.\n".to_string()))
    );
}

#[test]
fn connect_success() {
    assert_eq!(connect(&output(true, "Device 'wlan1' successfully activated.\n", "")), Ok(()));
}

#[test]
fn connect_failure_prefers_stderr() {
    assert_eq!(
        connect(&output(false, "out", "Error: Secrets were required.\n")),
        Err(WifiProxyError::ConnectionFailed("Error: Secrets were required.\n".to_string()))
    );
}

#[test]
fn connect_failure_falls_back_to_stdout() {
    assert_eq!(
        connect(&output(false, "Error: No network with SSID 'X' found.\n", "")),
        Err(WifiProxyError::ConnectionFailed("Error: No network with SSID 'X' found.\n".to_string()))
    );
}

#[test]
fn disconnect_and_delete_outcomes() {
    assert_eq!(disconnect(&output(true, "", "")), Ok(()));
    assert_eq!(
        disconnect(&output(false, "ignored", "Error: not active.\n")),
        Err(WifiProxyError::NmcliExecution("Error: not active.\n".to_string()))
    );
    assert_eq!(delete_connection(&output(true, "", "")), Ok(()));
    assert_eq!(
        delete_connection(&output(false, "", "Error: unknown connection 'X'.\n")),
        Err(WifiProxyError::NmcliExecution("Error: unknown connection 'X'.\n".to_string()))
    );
}

#[test]
fn connection_arguments() {
    assert_eq!(
        connect_args("wlan1", "RoboDog-AP", "secret123"),
        vec!["device", "wifi", "connect", "RoboDog-AP", "password", "secret123", "ifname", "wlan1"]
    );
    assert_eq!(disconnect_args("wlan1"), vec!["device", "disconnect", "wlan1"]);
    assert_eq!(status_args("wlan1"), vec!["-t", "device", "show", "wlan1"]);
    assert_eq!(delete_connection_args("RoboDog-AP"), vec!["connection", "delete", "RoboDog-AP"]);
}

#[test]
fn status_report_lines() {
    let full = ConnectionStatus {
        interface: "wlan1".to_string(),
        state: "100 (connected)".to_string(),
        connection: Some("RoboDog-AP".to_string()),
        ip_address: Some("192.168.4.2/24".to_string()),
        gateway: Some("192.168.4.1".to_string()),
    };
    assert_eq!(
        status_report(&full),
        vec![
            "Interface: wlan1",
            "State:     100 (connected)",
            "Connected: RoboDog-AP",
            "IP:        192.168.4.2/24",
            "Gateway:   192.168.4.1",
        ]
    );
    let bare = ConnectionStatus {
        interface: "wlan1".to_string(),
        state: "30 (disconnected)".to_string(),
        connection: None,
        ip_address: None,
        gateway: None,
    };
    assert_eq!(
        status_report(&bare),
        vec!["Interface: wlan1", "State:     30 (disconnected)", "Connected: (none)"]
    );
}

#[test]
fn gateway_page_address() {
    assert_eq!(gateway_url("192.168.4.1"), "http://192.168.4.1/");
}
