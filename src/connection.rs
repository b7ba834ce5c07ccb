//! Connecting, disconnecting and querying an adapter: the commands to run,
//! and what the daemon's answers mean.

use vstd::prelude::*;
use crate::command::{CommandOutput, OutputView, words_view, opt_text};
use crate::error::{WifiProxyError, ErrorView};
use crate::terse::{text_lines, split_once, split_lines, split_once_at, same_text};

verus! {

/// The connection state of an adapter as the daemon reports it.
#[derive(Debug, Clone, PartialEq, Eq)]
pub struct ConnectionStatus {
    /// The adapter's name.
    pub interface: String,
    /// The daemon's raw state token (e.g. "100 (connected)"); "unknown"
    /// where the daemon gave none.
    pub state: String,
    /// The active connection profile, if any.
    pub connection: Option<String>,
    /// The primary IPv4 address in CIDR notation, if any.
    pub ip_address: Option<String>,
    /// The IPv4 gateway, if any.
    pub gateway: Option<String>,
}

/// The content of a `ConnectionStatus`.
pub struct StatusView {
    pub interface: Seq<char>,
    pub state: Seq<char>,
    pub connection: Option<Seq<char>>,
    pub ip_address: Option<Seq<char>>,
    pub gateway: Option<Seq<char>>,
}

impl View for ConnectionStatus {
    type V = StatusView;

    open spec fn view(&self) -> StatusView {
        StatusView {
            interface: self.interface@,
            state: self.state@,
            connection: opt_text(self.connection),
            ip_address: opt_text(self.ip_address),
            gateway: opt_text(self.gateway),
        }
    }
}

/// A field value that stands for something: neither empty nor the daemon's
/// "--" for no value.
pub open spec fn has_value(v: Seq<char>) -> bool {
    v.len() > 0 && v != "--"@
}

/// The status before any line of the daemon's answer is read.
pub open spec fn initial_status(interface: Seq<char>) -> StatusView {
    StatusView { interface, state: "unknown"@, connection: None, ip_address: None, gateway: None }
}

/// The status after one KEY:VALUE line. The key ends at the first colon;
/// the value may hold more. Lines without a colon and unknown keys change
/// nothing, and an absent value ("" or "--") leaves an optional field as it
/// was.
pub open spec fn apply_status_line(st: StatusView, line: Seq<char>) -> StatusView {
    match split_once(line, ':') {
        None => st,
        Some((key, value)) => if key == "GENERAL.STATE"@ {
            StatusView { state: value, ..st }
        } else if key == "GENERAL.CONNECTION"@ {
            if has_value(value) {
                StatusView { connection: Some(value), ..st }
            } else {
                st
            }
        } else if key == "IP4.ADDRESS[1]"@ {
            if has_value(value) {
                StatusView { ip_address: Some(value), ..st }
            } else {
                st
            }
        } else if key == "IP4.GATEWAY"@ {
            if has_value(value) {
                StatusView { gateway: Some(value), ..st }
            } else {
                st
            }
        } else {
            st
        },
    }
}

/// The status after reading `lines` in order.
pub open spec fn status_after(st: StatusView, lines: Seq<Seq<char>>) -> StatusView
    decreases lines.len(),
{
    if lines.len() == 0 {
        st
    } else {
        apply_status_line(status_after(st, lines.drop_last()), lines.last())
    }
}

/// What a status query's output yields for the adapter `interface`.
pub open spec fn status_result(interface: Seq<char>, out: OutputView) -> Result<StatusView, ErrorView> {
    if out.success {
        Ok(status_after(initial_status(interface), text_lines(out.stdout)))
    } else {
        Err(ErrorView::NmcliExecution(out.stderr))
    }
}

/// What a connect command's output yields: the daemon's message on failure,
/// from its error output, or from its standard output where the error
/// output is empty.
pub open spec fn connect_result(out: OutputView) -> Result<(), ErrorView> {
    if out.success {
        Ok(())
    } else if out.stderr.len() == 0 {
        Err(ErrorView::ConnectionFailed(out.stdout))
    } else {
        Err(ErrorView::ConnectionFailed(out.stderr))
    }
}

/// What a command yields that reports nothing but success.
pub open spec fn plain_result(out: OutputView) -> Result<(), ErrorView> {
    if out.success {
        Ok(())
    } else {
        Err(ErrorView::NmcliExecution(out.stderr))
    }
}

pub open spec fn unit_result_view(r: Result<(), WifiProxyError>) -> Result<(), ErrorView> {
    match r {
        Ok(_) => Ok(()),
        Err(e) => Err(e@),
    }
}

/// The arguments that join `ssid` with `password` on `interface`.
pub fn connect_args(interface: &str, ssid: &str, password: &str) -> (r: Vec<String>)
    ensures
        words_view(r@) == seq![
            "device"@,
            "wifi"@,
            "connect"@,
            ssid@,
            "password"@,
            password@,
            "ifname"@,
            interface@,
        ],
{
    let r = vec![
        String::from_str("device"),
        String::from_str("wifi"),
        String::from_str("connect"),
        String::from_str(ssid),
        String::from_str("password"),
        String::from_str(password),
        String::from_str("ifname"),
        String::from_str(interface),
    ];
    assert(words_view(r@) == seq![
        "device"@,
        "wifi"@,
        "connect"@,
        ssid@,
        "password"@,
        password@,
        "ifname"@,
        interface@,
    ]);
    r
}

/// The outcome of a connect command (its arguments: `connect_args`).
pub fn connect(output: &CommandOutput) -> (r: Result<(), WifiProxyError>)
    ensures
        unit_result_view(r) == connect_result(output@),
{
    if output.success {
        Ok(())
    } else if output.stderr.as_str().is_empty() {
        Err(WifiProxyError::ConnectionFailed(output.stdout.clone()))
    } else {
        Err(WifiProxyError::ConnectionFailed(output.stderr.clone()))
    }
}

/// The arguments that disconnect `interface`.
pub fn disconnect_args(interface: &str) -> (r: Vec<String>)
    ensures
        words_view(r@) == seq!["device"@, "disconnect"@, interface@],
{
    let r = vec![String::from_str("device"), String::from_str("disconnect"), String::from_str(interface)];
    assert(words_view(r@) == seq!["device"@, "disconnect"@, interface@]);
    r
}

/// The outcome of a disconnect command (its arguments: `disconnect_args`).
pub fn disconnect(output: &CommandOutput) -> (r: Result<(), WifiProxyError>)
    ensures
        unit_result_view(r) == plain_result(output@),
{
    if output.success {
        Ok(())
    } else {
        Err(WifiProxyError::NmcliExecution(output.stderr.clone()))
    }
}

/// The arguments that delete the saved connection profile `name`.
pub fn delete_connection_args(name: &str) -> (r: Vec<String>)
    ensures
        words_view(r@) == seq!["connection"@, "delete"@, name@],
{
    let r = vec![String::from_str("connection"), String::from_str("delete"), String::from_str(name)];
    assert(words_view(r@) == seq!["connection"@, "delete"@, name@]);
    r
}

/// The outcome of a profile deletion (its arguments:
/// `delete_connection_args`).
pub fn delete_connection(output: &CommandOutput) -> (r: Result<(), WifiProxyError>)
    ensures
        unit_result_view(r) == plain_result(output@),
{
    if output.success {
        Ok(())
    } else {
        Err(WifiProxyError::NmcliExecution(output.stderr.clone()))
    }
}

/// The arguments that query the status of `interface` in terse form.
pub fn status_args(interface: &str) -> (r: Vec<String>)
    ensures
        words_view(r@) == seq!["-t"@, "device"@, "show"@, interface@],
{
    let r = vec![
        String::from_str("-t"),
        String::from_str("device"),
        String::from_str("show"),
        String::from_str(interface),
    ];
    assert(words_view(r@) == seq!["-t"@, "device"@, "show"@, interface@]);
    r
}

/// Whether a field value stands for something.
fn value_present(v: &str) -> (r: bool)
    ensures
        r == has_value(v@),
{
    !v.is_empty() && !same_text(v, "--")
}

/// The status after one KEY:VALUE line.
fn read_status_line(st: &mut ConnectionStatus, line: &str)
    ensures
        final(st)@ == apply_status_line(old(st)@, line@),
{
    match split_once_at(line, ':') {
        None => {},
        Some((key, value)) => {
            if same_text(key.as_str(), "GENERAL.STATE") {
                st.state = value;
            } else if same_text(key.as_str(), "GENERAL.CONNECTION") {
                if value_present(value.as_str()) {
                    st.connection = Some(value);
                }
            } else if same_text(key.as_str(), "IP4.ADDRESS[1]") {
                if value_present(value.as_str()) {
                    st.ip_address = Some(value);
                }
            } else if same_text(key.as_str(), "IP4.GATEWAY") {
                if value_present(value.as_str()) {
                    st.gateway = Some(value);
                }
            }
        },
    }
}

/// The status of `interface` that a status query reported (its arguments:
/// `status_args`): the four keys of interest read, all others ignored.
pub fn status(interface: &str, output: &CommandOutput) -> (r: Result<ConnectionStatus, WifiProxyError>)
    ensures
        match r {
            Ok(s) => status_result(interface@, output@) == Ok::<_, ErrorView>(s@),
            Err(e) => status_result(interface@, output@) == Err::<StatusView, _>(e@),
        },
        r is Ok ==> fields_have_values(r->Ok_0@),
{
    if !output.success {
        return Err(WifiProxyError::NmcliExecution(output.stderr.clone()));
    }
    let lines = split_lines(output.stdout.as_str());
    let ghost ls = text_lines(output.stdout@);
    let mut st = ConnectionStatus {
        interface: String::from_str(interface),
        state: String::from_str("unknown"),
        connection: None,
        ip_address: None,
        gateway: None,
    };
    let mut i: usize = 0;
    assert(ls.take(0) == Seq::<Seq<char>>::empty());
    while i < lines.len()
        invariant
            lines@.len() == ls.len(),
            forall|k: int| 0 <= k < lines@.len() ==> #[trigger] lines@[k]@ == ls[k],
            i <= lines@.len(),
            st@ == status_after(initial_status(interface@), ls.take(i as int)),
        decreases lines@.len() - i,
    {
        assert(ls.take(i + 1).drop_last() == ls.take(i as int));
        assert(ls.take(i + 1).last() == lines@[i as int]@);
        read_status_line(&mut st, lines[i].as_str());
        i = i + 1;
    }
    assert(ls.take(lines@.len() as int) == ls);
    proof {
        law_status_normalizes_sentinel(interface@, output@);
    }
    Ok(st)
}

/// No optional field of a parsed status is empty or the daemon's "--":
/// absent values are `None`.
pub open spec fn fields_have_values(st: StatusView) -> bool {
    &&& (st.connection matches Some(c) ==> has_value(c))
    &&& (st.ip_address matches Some(a) ==> has_value(a))
    &&& (st.gateway matches Some(g) ==> has_value(g))
}

proof fn lemma_status_after_values(st: StatusView, lines: Seq<Seq<char>>)
    requires
        fields_have_values(st),
    ensures
        fields_have_values(status_after(st, lines)),
    decreases lines.len(),
{
    if lines.len() > 0 {
        lemma_status_after_values(st, lines.drop_last());
    }
}

/// Whatever the daemon answers, a parsed status never holds an empty value
/// or the sentinel "--" in its connection, address or gateway: such a value
/// is absent.
pub proof fn law_status_normalizes_sentinel(interface: Seq<char>, out: OutputView)
    requires
        status_result(interface, out) is Ok,
    ensures
        fields_have_values(status_result(interface, out)->Ok_0),
        status_result(interface, out)->Ok_0.connection != Some("--"@),
        status_result(interface, out)->Ok_0.gateway != Some("--"@),
        status_result(interface, out)->Ok_0.ip_address != Some("--"@),
{
    lemma_status_after_values(initial_status(interface), text_lines(out.stdout));
}

/// The lines that show a status to a user.
pub open spec fn report_lines(s: StatusView) -> Seq<Seq<char>> {
    let head = seq![
        "Interface: "@ + s.interface,
        "State:     "@ + s.state,
        match s.connection {
            Some(c) => "Connected: "@ + c,
            None => "Connected: (none)"@,
        },
    ];
    let with_ip = match s.ip_address {
        Some(ip) => head.push("IP:        "@ + ip),
        None => head,
    };
    match s.gateway {
        Some(g) => with_ip.push("Gateway:   "@ + g),
        None => with_ip,
    }
}

/// The lines that show `status` to a user: adapter, state and connection
/// always, address and gateway where known.
pub fn status_report(status: &ConnectionStatus) -> (r: Vec<String>)
    ensures
        words_view(r@) == report_lines(status@),
{
    let mut r: Vec<String> = Vec::new();
    r.push(String::from_str("Interface: ").concat(status.interface.as_str()));
    r.push(String::from_str("State:     ").concat(status.state.as_str()));
    match &status.connection {
        Some(c) => r.push(String::from_str("Connected: ").concat(c.as_str())),
        None => r.push(String::from_str("Connected: (none)")),
    }
    let ghost head = words_view(r@);
    match &status.ip_address {
        Some(ip) => r.push(String::from_str("IP:        ").concat(ip.as_str())),
        None => {},
    }
    let ghost with_ip = words_view(r@);
    match &status.gateway {
        Some(g) => r.push(String::from_str("Gateway:   ").concat(g.as_str())),
        None => {},
    }
    proof {
        let s = status@;
        assert(head == seq![
            "Interface: "@ + s.interface,
            "State:     "@ + s.state,
            match s.connection {
                Some(c) => "Connected: "@ + c,
                None => "Connected: (none)"@,
            },
        ]);
    }
    assert(words_view(r@) == report_lines(status@));
    r
}

/// The address of the gateway's web page.
pub fn gateway_url(gateway: &str) -> (r: String)
    ensures
        r@ == "http://"@ + gateway@ + "/"@,
{
    String::from_str("http://").concat(gateway).concat("/")
}

} // verus!
