//! Management of a secondary wireless adapter through NetworkManager's
//! terse command-line protocol.
//!
//! The library holds the logic: it builds the commands to run, reads what
//! the daemon answered, classifies and selects adapters, and ranks scanned
//! networks. Running commands and reading the system is left to the caller,
//! which hands the results over as plain values (`CommandOutput`,
//! `UsbProbe`).

pub mod command;
pub mod config;
pub mod connection;
pub mod error;
pub mod interface;
pub mod scan;
pub mod server;
pub mod terse;

pub use command::CommandOutput;
pub use connection::{connect, disconnect, status, ConnectionStatus};
pub use error::WifiProxyError;
pub use interface::{
    find_usb_wifi_interface, get_interface, list_wifi_interfaces, resolve_interface, UsbProbe,
    WifiInterface,
};
pub use scan::{scan_networks, Network};
