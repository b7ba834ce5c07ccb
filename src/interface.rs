//! Wireless adapters: reading the daemon's device listing, telling USB
//! adapters from built-in ones, and resolving which adapter to use.

use vstd::prelude::*;
use crate::command::{CommandOutput, OutputView, opt_text, words_view};
use crate::error::{WifiProxyError, ErrorView, result_view};
use crate::terse::{text_lines, record3, contains_seq, split_lines, split_record3, same_text, contains_text};

verus! {

/// A wireless adapter as one listing found it.
#[derive(Debug, Clone, PartialEq, Eq)]
pub struct WifiInterface {
    /// The operating system's name for it (e.g. "wlan1").
    pub name: String,
    /// The daemon's raw state token, passed on uninterpreted.
    pub state: String,
    /// Whether the adapter hangs off a USB bus.
    pub is_usb: bool,
}

/// The content of a `WifiInterface`.
pub struct AdapterView {
    pub name: Seq<char>,
    pub state: Seq<char>,
    pub is_usb: bool,
}

impl View for WifiInterface {
    type V = AdapterView;

    open spec fn view(&self) -> AdapterView {
        AdapterView { name: self.name@, state: self.state@, is_usb: self.is_usb }
    }
}

impl WifiInterface {
    /// A field-by-field copy.
    pub fn copy(&self) -> (r: WifiInterface)
        ensures
            r@ == self@,
    {
        WifiInterface { name: self.name.clone(), state: self.state.clone(), is_usb: self.is_usb }
    }
}

/// A wireless device of the daemon's listing, before USB classification.
#[derive(Debug, Clone, PartialEq, Eq)]
pub struct WifiDevice {
    pub name: String,
    pub state: String,
}

impl View for WifiDevice {
    type V = (Seq<char>, Seq<char>);

    open spec fn view(&self) -> (Seq<char>, Seq<char>) {
        (self.name@, self.state@)
    }
}

/// What the system shows of an adapter's hardware: where its device link
/// resolves to, and its device metadata file. `None` where it could not be
/// read.
#[derive(Debug, Clone, PartialEq, Eq)]
pub struct UsbProbe {
    pub link_target: Option<String>,
    pub uevent: Option<String>,
}

impl View for UsbProbe {
    type V = (Option<Seq<char>>, Option<Seq<char>>);

    open spec fn view(&self) -> (Option<Seq<char>>, Option<Seq<char>>) {
        (opt_text(self.link_target), opt_text(self.uevent))
    }
}

/// An adapter is on USB when its resolved device link names "usb"; where
/// the link cannot be read, when its metadata file does; else it is not.
pub open spec fn probe_is_usb(p: (Option<Seq<char>>, Option<Seq<char>>)) -> bool {
    match p.0 {
        Some(target) => contains_seq(target, "usb"@),
        None => match p.1 {
            Some(meta) => contains_seq(meta, "usb"@),
            None => false,
        },
    }
}

/// The wireless devices among listing lines of the form DEVICE:TYPE:STATE,
/// as (name, state), in listing order. Lines of fewer fields are skipped.
pub open spec fn wifi_entries(lines: Seq<Seq<char>>) -> Seq<(Seq<char>, Seq<char>)>
    decreases lines.len(),
{
    if lines.len() == 0 {
        Seq::empty()
    } else {
        let prev = wifi_entries(lines.drop_last());
        match record3(lines.last()) {
            Some((name, kind, state)) => if kind == "wifi"@ {
                prev.push((name, state))
            } else {
                prev
            },
            None => prev,
        }
    }
}

/// What a device-listing command's output yields.
pub open spec fn device_list_result(out: OutputView) -> Result<Seq<(Seq<char>, Seq<char>)>, ErrorView> {
    if out.success {
        Ok(wifi_entries(text_lines(out.stdout)))
    } else {
        Err(ErrorView::NmcliExecution(out.stderr))
    }
}

/// The adapters of a listing: each device with the classification of its
/// probe.
pub open spec fn adapters(
    devices: Seq<(Seq<char>, Seq<char>)>,
    probes: Seq<(Option<Seq<char>>, Option<Seq<char>>)>,
) -> Seq<AdapterView> {
    Seq::new(
        devices.len(),
        |i: int| AdapterView { name: devices[i].0, state: devices[i].1, is_usb: probe_is_usb(probes[i]) },
    )
}

/// The adapters that a device-listing output and the probes of its
/// devices give.
pub open spec fn listing_result(
    out: OutputView,
    probes: Seq<(Option<Seq<char>>, Option<Seq<char>>)>,
) -> Result<Seq<AdapterView>, ErrorView> {
    match device_list_result(out) {
        Ok(devices) => Ok(adapters(devices, probes)),
        Err(e) => Err(e),
    }
}

pub open spec fn adapter_views(v: Seq<WifiInterface>) -> Seq<AdapterView> {
    v.map_values(|a: WifiInterface| a@)
}

/// `i` is the first USB adapter of `s`.
pub open spec fn first_usb_at(s: Seq<AdapterView>, i: int) -> bool {
    &&& 0 <= i < s.len()
    &&& s[i].is_usb
    &&& forall|j: int| 0 <= j < i ==> !s[j].is_usb
}

/// `i` is the first adapter of `s` named `name`.
pub open spec fn first_named_at(s: Seq<AdapterView>, name: Seq<char>, i: int) -> bool {
    &&& 0 <= i < s.len()
    &&& s[i].name == name
    &&& forall|j: int| 0 <= j < i ==> s[j].name != name
}

/// The first USB adapter in listing order.
pub open spec fn find_usb_result(s: Seq<AdapterView>) -> Result<AdapterView, ErrorView> {
    if exists|i: int| first_usb_at(s, i) {
        Ok(s[choose|i: int| first_usb_at(s, i)])
    } else {
        Err(ErrorView::NoUsbInterfaceFound)
    }
}

/// The adapter named `name`.
pub open spec fn get_result(s: Seq<AdapterView>, name: Seq<char>) -> Result<AdapterView, ErrorView> {
    if exists|i: int| first_named_at(s, name, i) {
        Ok(s[choose|i: int| first_named_at(s, name, i)])
    } else {
        Err(ErrorView::InterfaceNotFound(name))
    }
}

/// The adapter that a selection names, or the first USB adapter where it
/// names none.
pub open spec fn resolve_result(s: Seq<AdapterView>, name: Option<Seq<char>>) -> Result<AdapterView, ErrorView> {
    match name {
        Some(n) => get_result(s, n),
        None => find_usb_result(s),
    }
}

pub open spec fn opt_str(o: Option<&str>) -> Option<Seq<char>> {
    match o {
        Some(s) => Some(s@),
        None => None,
    }
}

/// The arguments that make the daemon list its devices as
/// DEVICE:TYPE:STATE records.
pub fn device_list_args() -> (r: Vec<String>)
    ensures
        words_view(r@) == seq!["-t"@, "-f"@, "DEVICE,TYPE,STATE"@, "device"@],
{
    let r = vec![
        String::from_str("-t"),
        String::from_str("-f"),
        String::from_str("DEVICE,TYPE,STATE"),
        String::from_str("device"),
    ];
    assert(words_view(r@) == seq!["-t"@, "-f"@, "DEVICE,TYPE,STATE"@, "device"@]);
    r
}

/// The wireless devices that a device-listing command reported (its
/// command: `device_list_args`).
pub fn parse_device_list(output: &CommandOutput) -> (r: Result<Vec<WifiDevice>, WifiProxyError>)
    ensures
        match r {
            Ok(v) => device_list_result(output@) == Ok::<_, ErrorView>(v@.map_values(|d: WifiDevice| d@)),
            Err(e) => device_list_result(output@) == Err::<Seq<(Seq<char>, Seq<char>)>, _>(e@),
        },
{
    if !output.success {
        return Err(WifiProxyError::NmcliExecution(output.stderr.clone()));
    }
    let lines = split_lines(output.stdout.as_str());
    let ghost ls = text_lines(output.stdout@);
    let mut r: Vec<WifiDevice> = Vec::new();
    let mut i: usize = 0;
    while i < lines.len()
        invariant
            lines@.len() == ls.len(),
            forall|k: int| 0 <= k < lines@.len() ==> #[trigger] lines@[k]@ == ls[k],
            i <= lines@.len(),
            r@.map_values(|d: WifiDevice| d@) == wifi_entries(ls.take(i as int)),
        decreases lines@.len() - i,
    {
        let ghost before = r@.map_values(|d: WifiDevice| d@);
        assert(ls.take(i + 1).drop_last() == ls.take(i as int));
        assert(ls.take(i + 1).last() == lines@[i as int]@);
        match split_record3(lines[i].as_str()) {
            Some((name, kind, state)) => {
                if same_text(kind.as_str(), "wifi") {
                    r.push(WifiDevice { name, state });
                    assert(r@.map_values(|d: WifiDevice| d@) == before.push((name@, state@)));
                }
            },
            None => {},
        }
        i = i + 1;
    }
    assert(ls.take(lines@.len() as int) == ls);
    Ok(r)
}

/// Whether a probe shows a USB adapter.
pub fn is_usb_interface(probe: &UsbProbe) -> (r: bool)
    ensures
        r == probe_is_usb(probe@),
{
    match &probe.link_target {
        Some(target) => contains_text(target.as_str(), "usb"),
        None => match &probe.uevent {
            Some(meta) => contains_text(meta.as_str(), "usb"),
            None => false,
        },
    }
}

/// The adapters of a listing: each wireless device with the classification
/// of its probe, in listing order.
pub fn list_wifi_interfaces(devices: &Vec<WifiDevice>, probes: &Vec<UsbProbe>) -> (r: Vec<WifiInterface>)
    requires
        devices@.len() == probes@.len(),
    ensures
        adapter_views(r@) == adapters(
            devices@.map_values(|d: WifiDevice| d@),
            probes@.map_values(|p: UsbProbe| p@),
        ),
{
    let mut r: Vec<WifiInterface> = Vec::new();
    let mut i: usize = 0;
    while i < devices.len()
        invariant
            devices@.len() == probes@.len(),
            i <= devices@.len(),
            r@.len() == i,
            forall|k: int| 0 <= k < i ==> #[trigger] r@[k]@ == (AdapterView {
                name: devices@[k].name@,
                state: devices@[k].state@,
                is_usb: probe_is_usb(probes@[k]@),
            }),
        decreases devices@.len() - i,
    {
        let usb = is_usb_interface(&probes[i]);
        r.push(WifiInterface { name: devices[i].name.clone(), state: devices[i].state.clone(), is_usb: usb });
        i = i + 1;
    }
    assert(adapter_views(r@) == adapters(
        devices@.map_values(|d: WifiDevice| d@),
        probes@.map_values(|p: UsbProbe| p@),
    ));
    r
}

/// The first USB adapter of a listing.
pub fn find_usb_wifi_interface(interfaces: &Vec<WifiInterface>) -> (r: Result<WifiInterface, WifiProxyError>)
    ensures
        result_view(r) == find_usb_result(adapter_views(interfaces@)),
{
    let ghost s = adapter_views(interfaces@);
    let mut i: usize = 0;
    while i < interfaces.len()
        invariant
            s == adapter_views(interfaces@),
            i <= interfaces@.len(),
            forall|j: int| 0 <= j < i ==> !s[j].is_usb,
        decreases interfaces@.len() - i,
    {
        if interfaces[i].is_usb {
            proof {
                assert(first_usb_at(s, i as int));
                let k = choose|k: int| first_usb_at(s, k);
                assert(k == i);
            }
            return Ok(interfaces[i].copy());
        }
        i = i + 1;
    }
    proof {
        assert forall|k: int| !first_usb_at(s, k) by {
            if 0 <= k < s.len() {
                assert(!s[k].is_usb);
            }
        }
    }
    Err(WifiProxyError::NoUsbInterfaceFound)
}

/// The adapter of a listing that has the given name.
pub fn get_interface(interfaces: &Vec<WifiInterface>, name: &str) -> (r: Result<WifiInterface, WifiProxyError>)
    ensures
        result_view(r) == get_result(adapter_views(interfaces@), name@),
{
    let ghost s = adapter_views(interfaces@);
    let mut i: usize = 0;
    while i < interfaces.len()
        invariant
            s == adapter_views(interfaces@),
            i <= interfaces@.len(),
            forall|j: int| 0 <= j < i ==> s[j].name != name@,
        decreases interfaces@.len() - i,
    {
        if same_text(interfaces[i].name.as_str(), name) {
            proof {
                assert(first_named_at(s, name@, i as int));
                let k = choose|k: int| first_named_at(s, name@, k);
                assert(k == i);
            }
            return Ok(interfaces[i].copy());
        }
        i = i + 1;
    }
    proof {
        assert forall|k: int| !first_named_at(s, name@, k) by {
            if 0 <= k < s.len() {
                assert(s[k].name != name@);
            }
        }
    }
    Err(WifiProxyError::InterfaceNotFound(String::from_str(name)))
}

/// The adapter to use: the one named, or the first USB adapter where no
/// name is given.
pub fn resolve_interface(interfaces: &Vec<WifiInterface>, interface: Option<&str>) -> (r: Result<WifiInterface, WifiProxyError>)
    ensures
        result_view(r) == resolve_result(adapter_views(interfaces@), opt_str(interface)),
{
    match interface {
        Some(name) => get_interface(interfaces, name),
        None => find_usb_wifi_interface(interfaces),
    }
}

/// `line` is a listing record of a wireless device named `name`.
pub open spec fn wifi_line_named(line: Seq<char>, name: Seq<char>) -> bool {
    match record3(line) {
        Some((n, kind, _)) => n == name && kind == "wifi"@,
        None => false,
    }
}

/// A wireless device named `name` is among the listed entries exactly when
/// some listing line is a wireless record of that name.
pub proof fn lemma_wifi_entries_name(lines: Seq<Seq<char>>, name: Seq<char>)
    ensures
        (exists|i: int| 0 <= i < wifi_entries(lines).len() && #[trigger] wifi_entries(lines)[i].0 == name)
            <==> (exists|j: int| 0 <= j < lines.len() && wifi_line_named(#[trigger] lines[j], name)),
    decreases lines.len(),
{
    if lines.len() > 0 {
        let prev = lines.drop_last();
        lemma_wifi_entries_name(prev, name);
        let e = wifi_entries(lines);
        let pe = wifi_entries(prev);
        if exists|j: int| 0 <= j < lines.len() && wifi_line_named(#[trigger] lines[j], name) {
            let j = choose|j: int| 0 <= j < lines.len() && wifi_line_named(#[trigger] lines[j], name);
            if j < prev.len() {
                assert(wifi_line_named(prev[j], name));
                let i = choose|i: int| 0 <= i < pe.len() && #[trigger] pe[i].0 == name;
                assert(e[i] == pe[i]);
            } else {
                assert(e[pe.len() as int].0 == name);
            }
        }
        if exists|i: int| 0 <= i < e.len() && #[trigger] e[i].0 == name {
            let i = choose|i: int| 0 <= i < e.len() && #[trigger] e[i].0 == name;
            if i < pe.len() {
                assert(pe[i].0 == name);
                let j = choose|j: int| 0 <= j < prev.len() && wifi_line_named(#[trigger] prev[j], name);
                assert(lines[j] == prev[j]);
            } else {
                assert(wifi_line_named(lines[lines.len() - 1], name));
            }
        }
    }
}

/// Where some adapter has the name, a first one has.
pub proof fn lemma_first_named_exists(s: Seq<AdapterView>, name: Seq<char>, i: int)
    requires
        0 <= i < s.len(),
        s[i].name == name,
    ensures
        exists|k: int| first_named_at(s, name, k),
    decreases i,
{
    if exists|j: int| 0 <= j < i && s[j].name == name {
        let j = choose|j: int| 0 <= j < i && s[j].name == name;
        lemma_first_named_exists(s, name, j);
    } else {
        assert(first_named_at(s, name, i));
    }
}

/// Resolving a name against the adapters listed from a daemon output
/// succeeds exactly when some line of that output is a wireless device of
/// that name, and then yields an adapter of that name; otherwise it fails
/// with `InterfaceNotFound` for that name.
pub proof fn law_resolve_named(
    stdout: Seq<char>,
    probes: Seq<(Option<Seq<char>>, Option<Seq<char>>)>,
    name: Seq<char>,
)
    requires
        probes.len() == wifi_entries(text_lines(stdout)).len(),
    ensures
        ({
            let lines = text_lines(stdout);
            let r = resolve_result(adapters(wifi_entries(lines), probes), Some(name));
            &&& r is Ok <==> exists|j: int| 0 <= j < lines.len() && wifi_line_named(#[trigger] lines[j], name)
            &&& r is Ok ==> r->Ok_0.name == name
            &&& !(r is Ok) ==> r == Err::<AdapterView, _>(ErrorView::InterfaceNotFound(name))
        }),
{
    let lines = text_lines(stdout);
    let e = wifi_entries(lines);
    let s = adapters(e, probes);
    lemma_wifi_entries_name(lines, name);
    if exists|i: int| 0 <= i < e.len() && #[trigger] e[i].0 == name {
        let i = choose|i: int| 0 <= i < e.len() && #[trigger] e[i].0 == name;
        assert(s[i].name == name);
        lemma_first_named_exists(s, name, i);
    }
    if exists|k: int| first_named_at(s, name, k) {
        let k = choose|k: int| first_named_at(s, name, k);
        assert(e[k].0 == name);
    }
}

/// With no USB adapter in a listing, resolving without a name fails with
/// `NoUsbInterfaceFound`.
pub proof fn law_resolve_without_usb(s: Seq<AdapterView>)
    requires
        forall|i: int| 0 <= i < s.len() ==> !(#[trigger] s[i]).is_usb,
    ensures
        resolve_result(s, None) == Err::<AdapterView, _>(ErrorView::NoUsbInterfaceFound),
{
    assert(!exists|i: int| first_usb_at(s, i));
}

/// Listing the adapters keeps no state: two listings made from the same
/// daemon output and the same probes are identical.
pub proof fn law_listing_repeatable(
    out: OutputView,
    probes: Seq<(Option<Seq<char>>, Option<Seq<char>>)>,
    first: Result<Seq<AdapterView>, ErrorView>,
    second: Result<Seq<AdapterView>, ErrorView>,
)
    requires
        first == listing_result(out, probes),
        second == listing_result(out, probes),
    ensures
        first == second,
{
}

} // verus!
