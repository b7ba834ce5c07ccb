//! The errors that the library's operations report.

use vstd::prelude::*;

verus! {

/// Everything that can go wrong in the library's operations.
#[derive(Debug, Clone, PartialEq, Eq)]
pub enum WifiProxyError {
    /// Auto-detection found no USB wireless adapter.
    NoUsbInterfaceFound,
    /// No wireless adapter has the given name.
    InterfaceNotFound(String),
    /// The daemon ran but reported failure; holds its error output.
    NmcliExecution(String),
    /// The daemon's output could not be read.
    NmcliParse(String),
    /// The daemon could not join the network; holds its message.
    ConnectionFailed(String),
    /// No network with the given name was found.
    NetworkNotFound(String),
    /// The named device exists but is not a wireless adapter.
    NotWifiInterface(String),
    /// An HTTP request to the gateway failed.
    FetchFailed(String),
}

/// The content of a `WifiProxyError`, with texts as character sequences.
pub enum ErrorView {
    NoUsbInterfaceFound,
    InterfaceNotFound(Seq<char>),
    NmcliExecution(Seq<char>),
    NmcliParse(Seq<char>),
    ConnectionFailed(Seq<char>),
    NetworkNotFound(Seq<char>),
    NotWifiInterface(Seq<char>),
    FetchFailed(Seq<char>),
}

impl View for WifiProxyError {
    type V = ErrorView;

    open spec fn view(&self) -> ErrorView {
        match self {
            WifiProxyError::NoUsbInterfaceFound => ErrorView::NoUsbInterfaceFound,
            WifiProxyError::InterfaceNotFound(s) => ErrorView::InterfaceNotFound(s@),
            WifiProxyError::NmcliExecution(s) => ErrorView::NmcliExecution(s@),
            WifiProxyError::NmcliParse(s) => ErrorView::NmcliParse(s@),
            WifiProxyError::ConnectionFailed(s) => ErrorView::ConnectionFailed(s@),
            WifiProxyError::NetworkNotFound(s) => ErrorView::NetworkNotFound(s@),
            WifiProxyError::NotWifiInterface(s) => ErrorView::NotWifiInterface(s@),
            WifiProxyError::FetchFailed(s) => ErrorView::FetchFailed(s@),
        }
    }
}

/// A result of the library, with both sides seen through their views.
pub open spec fn result_view<T: View>(r: Result<T, WifiProxyError>) -> Result<T::V, ErrorView> {
    match r {
        Ok(t) => Ok(t@),
        Err(e) => Err(e@),
    }
}

/// The text that describes an error to a user.
pub open spec fn error_message(e: ErrorView) -> Seq<char> {
    match e {
        ErrorView::NoUsbInterfaceFound => "No USB WiFi interface found"@,
        ErrorView::InterfaceNotFound(s) => "Interface '"@ + s + "' not found"@,
        ErrorView::NmcliExecution(s) => "Failed to execute nmcli: "@ + s,
        ErrorView::NmcliParse(s) => "Failed to parse nmcli output: "@ + s,
        ErrorView::ConnectionFailed(s) => "Connection failed: "@ + s,
        ErrorView::NetworkNotFound(s) => "Network '"@ + s + "' not found"@,
        ErrorView::NotWifiInterface(s) => "Interface '"@ + s + "' is not a WiFi device"@,
        ErrorView::FetchFailed(s) => "Failed to fetch URL: "@ + s,
    }
}

impl WifiProxyError {
    /// The text that describes this error to a user.
    pub fn message(&self) -> (r: String)
        ensures
            r@ == error_message(self@),
    {
        match self {
            WifiProxyError::NoUsbInterfaceFound => String::from_str("No USB WiFi interface found"),
            WifiProxyError::InterfaceNotFound(s) => String::from_str("Interface '").concat(
                s.as_str(),
            ).concat("' not found"),
            WifiProxyError::NmcliExecution(s) => String::from_str(
                "Failed to execute nmcli: ",
            ).concat(s.as_str()),
            WifiProxyError::NmcliParse(s) => String::from_str(
                "Failed to parse nmcli output: ",
            ).concat(s.as_str()),
            WifiProxyError::ConnectionFailed(s) => String::from_str("Connection failed: ").concat(
                s.as_str(),
            ),
            WifiProxyError::NetworkNotFound(s) => String::from_str("Network '").concat(
                s.as_str(),
            ).concat("' not found"),
            WifiProxyError::NotWifiInterface(s) => String::from_str("Interface '").concat(
                s.as_str(),
            ).concat("' is not a WiFi device"),
            WifiProxyError::FetchFailed(s) => String::from_str("Failed to fetch URL: ").concat(
                s.as_str(),
            ),
        }
    }
}

} // verus!
