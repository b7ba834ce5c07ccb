use wifi_proxy::config::{mask_password, Config, NetworkConfig};

fn saved(ssid: &str, password: &str, interface: Option<&str>) -> NetworkConfig {
    NetworkConfig {
        ssid: ssid.to_string(),
        password: password.to_string(),
        interface: interface.map(String::from),
    }
}

#[test]
fn default_config_is_empty() {
    let c = Config::default();
    assert!(c.networks.is_empty());
    assert_eq!(c.default_interface, None);
}

#[test]
fn find_network_by_name() {
    let c = Config {
        networks: vec![saved("Home", "h0me", None), saved("RoboDog-AP", "secret123", Some("wlan1"))],
        default_interface: None,
    };
    assert_eq!(c.find_network("RoboDog-AP"), Some(&saved("RoboDog-AP", "secret123", Some("wlan1"))));
    assert_eq!(c.find_network("Cafe"), None);
}

#[test]
fn add_network_replaces_same_name() {
    let mut c = Config::default();
    c.add_network(saved("A", "one", None));
    c.add_network(saved("B", "two", Some("wlan1")));
    c.add_network(saved("A", "three", Some("wlan2")));
    assert_eq!(c.networks, vec![saved("B", "two", Some("wlan1")), saved("A", "three", Some("wlan2"))]);
}

#[test]
fn add_network_keeps_default_interface() {
    let mut c = Config { networks: vec![], default_interface: Some("wlan1".to_string()) };
    c.add_network(saved("A", "one", None));
    assert_eq!(c.default_interface, Some("wlan1".to_string()));
    assert_eq!(c.networks.len(), 1);
}

#[test]
fn password_given_or_saved() {
    let c = Config { networks: vec![saved("RoboDog-AP", "secret123", None)], default_interface: None };
    assert_eq!(c.password_for("RoboDog-AP", Some("typed")), Some("typed".to_string()));
    assert_eq!(c.password_for("RoboDog-AP", None), Some("secret123".to_string()));
    assert_eq!(c.password_for("Cafe", None), None);
}

#[test]
fn passwords_are_masked() {
    assert_eq!(mask_password("secret"), "******");
    assert_eq!(mask_password("averyveryverylongpassword"), "************");
    assert_eq!(mask_password(""), "");
}
