use wifi_proxy::server::{control_url, generate_html, stream_url};
use wifi_proxy::WifiProxyError;

#[test]
fn control_page_embeds_stream_address() {
    let page = generate_html("/stream");
    assert!(page.starts_with("<!DOCTYPE html>"));
    assert!(page.trim_end().ends_with("</html>"));
    assert!(page.contains("const STREAM_URL = \"/stream\";"));
    assert!(page.contains(".btn-press:active { transform: scale(0.95); }"));
    assert!(!page.contains("{{"));
}

#[test]
fn control_address_passes_query_on() {
    let params = vec![
        ("var".to_string(), "move".to_string()),
        ("val".to_string(), "1".to_string()),
        ("cmd".to_string(), "0".to_string()),
    ];
    assert_eq!(control_url("192.168.4.1", &params), "http://192.168.4.1/control?var=move&val=1&cmd=0");
    assert_eq!(control_url("192.168.4.1", &vec![]), "http://192.168.4.1/control?");
}

#[test]
fn stream_address() {
    assert_eq!(stream_url("192.168.4.1"), "http://192.168.4.1:81/stream");
}

#[test]
fn error_messages() {
    assert_eq!(WifiProxyError::NoUsbInterfaceFound.message(), "No USB WiFi interface found");
    assert_eq!(
        WifiProxyError::InterfaceNotFound("wlan9".to_string()).message(),
        "Interface 'wlan9' not found"
    );
    assert_eq!(
        WifiProxyError::NmcliExecution("boom".to_string()).message(),
        "Failed to execute nmcli: boom"
    );
    assert_eq!(
        WifiProxyError::NmcliParse("odd".to_string()).message(),
        "Failed to parse nmcli output: odd"
    );
    assert_eq!(
        WifiProxyError::ConnectionFailed("bad key".to_string()).message(),
        "Connection failed: bad key"
    );
    assert_eq!(
        WifiProxyError::NetworkNotFound("Cafe".to_string()).message(),
        "Network 'Cafe' not found"
    );
    assert_eq!(
        WifiProxyError::NotWifiInterface("eth0".to_string()).message(),
        "Interface 'eth0' is not a WiFi device"
    );
    assert_eq!(
        WifiProxyError::FetchFailed("timeout".to_string()).message(),
        "Failed to fetch URL: timeout"
    );
}
