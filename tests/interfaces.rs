use wifi_proxy::interface::{
    device_list_args, is_usb_interface, parse_device_list, WifiDevice,
};
use wifi_proxy::{
    find_usb_wifi_interface, get_interface, list_wifi_interfaces, resolve_interface,
    CommandOutput, UsbProbe, WifiInterface, WifiProxyError,
};

fn output(success: bool, stdout: &str, stderr: &str) -> CommandOutput {
    CommandOutput { success, stdout: stdout.to_string(), stderr: stderr.to_string() }
}

fn adapter(name: &str, state: &str, is_usb: bool) -> WifiInterface {
    WifiInterface { name: name.to_string(), state: state.to_string(), is_usb }
}

fn probe(link: Option<&str>, uevent: Option<&str>) -> UsbProbe {
    UsbProbe { link_target: link.map(String::from), uevent: uevent.map(String::from) }
}

const LISTING: &str = "wlan0:wifi:connected\neth0:ethernet:connected\nwlan1:wifi:disconnected\nlo:loopback:unmanaged (externally)\np2p-dev-wlan0:wifi-p2p:disconnected\n";

#[test]
fn device_listing_keeps_only_wireless_devices() {
    let devices = parse_device_list(&output(true, LISTING, "")).unwrap();
    assert_eq!(
        devices,
        vec![
            WifiDevice { name: "wlan0".to_string(), state: "connected".to_string() },
            WifiDevice { name: "wlan1".to_string(), state: "disconnected".to_string() },
        ]
    );
}

#[test]
fn device_listing_skips_short_lines() {
    let devices = parse_device_list(&output(true, "garbage\nwlan2:wifi\nwlan3:wifi:unavailable\n", "")).unwrap();
    assert_eq!(
        devices,
        vec![WifiDevice { name: "wlan3".to_string(), state: "unavailable".to_string() }]
    );
}

#[test]
fn device_listing_failure_reports_stderr() {
    let r = parse_device_list(&output(false, "", "Error: NetworkManager is not running.\n"));
    assert_eq!(
        r,
        Err(WifiProxyError::NmcliExecution("Error: NetworkManager is not running.\n".to_string()))
    );
}

#[test]
fn device_listing_arguments() {
    assert_eq!(device_list_args(), vec!["-t", "-f", "DEVICE,TYPE,STATE", "device"]);
}

#[test]
fn usb_link_path_marks_usb() {
    let p = probe(Some("../../../devices/pci0000:00/0000:00:14.0/usb1/1-2/1-2:1.0"), None);
    assert!(is_usb_interface(&p));
}

#[test]
fn non_usb_link_path_is_built_in() {
    let p = probe(Some("../../../devices/pci0000:00/0000:00:14.3"), None);
    assert!(!is_usb_interface(&p));
    // A readable link decides; the metadata file is not consulted.
    let q = probe(Some("../../../devices/pci0000:00/0000:00:14.3"), Some("DEVTYPE=usb_interface\n"));
    assert!(!is_usb_interface(&q));
}

#[test]
fn unreadable_link_falls_back_to_metadata() {
    let p = probe(None, Some("DEVTYPE=usb_interface\nDRIVER=rtl8xxxu\n"));
    assert!(is_usb_interface(&p));
    let q = probe(None, Some("DRIVER=iwlwifi\nPCI_CLASS=28000\n"));
    assert!(!is_usb_interface(&q));
}

#[test]
fn no_signal_means_not_usb() {
    assert!(!is_usb_interface(&probe(None, None)));
}

#[test]
fn listing_combines_devices_and_probes() {
    let devices = parse_device_list(&output(true, LISTING, "")).unwrap();
    let probes = vec![
        probe(Some("../../../devices/pci0000:00/0000:00:14.3"), None),
        probe(Some("../../../devices/pci0000:00/0000:00:14.0/usb1/1-2/1-2:1.0"), None),
    ];
    let list = list_wifi_interfaces(&devices, &probes);
    assert_eq!(
        list,
        vec![adapter("wlan0", "connected", false), adapter("wlan1", "disconnected", true)]
    );
}

#[test]
fn listing_twice_gives_identical_results() {
    let out = output(true, LISTING, "");
    let probes = vec![probe(None, Some("usb")), probe(None, None)];
    let first = list_wifi_interfaces(&parse_device_list(&out).unwrap(), &probes);
    let second = list_wifi_interfaces(&parse_device_list(&out).unwrap(), &probes);
    assert_eq!(first, second);
}

#[test]
fn first_usb_adapter_is_found() {
    let list = vec![
        adapter("wlan0", "connected", false),
        adapter("wlan1", "disconnected", true),
        adapter("wlan2", "disconnected", true),
    ];
    assert_eq!(find_usb_wifi_interface(&list), Ok(adapter("wlan1", "disconnected", true)));
}

#[test]
fn no_usb_adapter_fails() {
    let list = vec![adapter("wlan0", "connected", false)];
    assert_eq!(find_usb_wifi_interface(&list), Err(WifiProxyError::NoUsbInterfaceFound));
    assert_eq!(find_usb_wifi_interface(&Vec::new()), Err(WifiProxyError::NoUsbInterfaceFound));
}

#[test]
fn named_adapter_is_found() {
    let list = vec![adapter("wlan0", "connected", false), adapter("wlan1", "disconnected", true)];
    assert_eq!(get_interface(&list, "wlan0"), Ok(adapter("wlan0", "connected", false)));
}

#[test]
fn unknown_or_wired_name_is_not_found() {
    let devices = parse_device_list(&output(true, LISTING, "")).unwrap();
    let list = list_wifi_interfaces(&devices, &vec![probe(None, None), probe(None, None)]);
    assert_eq!(
        get_interface(&list, "eth0"),
        Err(WifiProxyError::InterfaceNotFound("eth0".to_string()))
    );
    assert_eq!(
        get_interface(&list, "wlan9"),
        Err(WifiProxyError::InterfaceNotFound("wlan9".to_string()))
    );
}

#[test]
fn resolve_by_name_or_by_usb() {
    let list = vec![adapter("wlan0", "connected", false), adapter("wlan1", "disconnected", true)];
    assert_eq!(resolve_interface(&list, Some("wlan0")), Ok(adapter("wlan0", "connected", false)));
    assert_eq!(resolve_interface(&list, None), Ok(adapter("wlan1", "disconnected", true)));
    assert_eq!(
        resolve_interface(&list, Some("wlan7")),
        Err(WifiProxyError::InterfaceNotFound("wlan7".to_string()))
    );
}

#[test]
fn resolve_without_usb_adapter_fails() {
    let list = vec![adapter("wlan0", "connected", false), adapter("wlan1", "disconnected", false)];
    assert_eq!(resolve_interface(&list, None), Err(WifiProxyError::NoUsbInterfaceFound));
}
