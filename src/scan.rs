//! Nearby networks: reading the daemon's scan list, dropping hidden and
//! repeated networks, and ranking the rest by signal strength.

use vstd::prelude::*;
use vstd::utf8::*;
use vstd::string::StringSliceAdditionalSpecFns;
use crate::command::{CommandOutput, OutputView, words_view};
use crate::error::{WifiProxyError, ErrorView};
use crate::terse::{text_lines, record3, parse_u8, split_lines, split_record3, same_text, parse_byte};

verus! {

/// A network seen in a scan.
#[derive(Debug, Clone, PartialEq, Eq)]
pub struct Network {
    /// Its name; never empty in a scan result.
    pub ssid: String,
    /// Signal strength in percent.
    pub signal: u8,
    /// Its security descriptor; empty for an open network.
    pub security: String,
}

/// The content of a `Network`.
pub struct NetworkView {
    pub ssid: Seq<char>,
    pub signal: u8,
    pub security: Seq<char>,
}

impl View for Network {
    type V = NetworkView;

    open spec fn view(&self) -> NetworkView {
        NetworkView { ssid: self.ssid@, signal: self.signal, security: self.security@ }
    }
}

impl Network {
    /// A field-by-field copy.
    pub fn copy(&self) -> (r: Network)
        ensures
            r@ == self@,
    {
        Network { ssid: self.ssid.clone(), signal: self.signal, security: self.security.clone() }
    }
}

pub open spec fn network_views(v: Seq<Network>) -> Seq<NetworkView> {
    v.map_values(|n: Network| n@)
}

/// A signal field's value: an unsigned integer in 0..=100; any other field
/// counts as zero.
pub open spec fn signal_value(field: Seq<char>) -> u8 {
    match parse_u8(field) {
        Some(v) => if v <= 100 {
            v
        } else {
            0
        },
        None => 0,
    }
}

/// A field with the daemon's "--" for no value read as empty.
pub open spec fn field_value(f: Seq<char>) -> Seq<char> {
    if f == "--"@ {
        Seq::empty()
    } else {
        f
    }
}

pub open spec fn has_ssid(s: Seq<NetworkView>, ssid: Seq<char>) -> bool {
    exists|i: int| 0 <= i < s.len() && (#[trigger] s[i]).ssid == ssid
}

/// The network that one scan-list line SSID:SIGNAL:SECURITY shows; `None`
/// for a line of fewer fields and for a hidden network, whose name is empty
/// or the daemon's "--".
pub open spec fn visible_record(line: Seq<char>) -> Option<NetworkView> {
    match record3(line) {
        Some((ssid, signal, security)) => if field_value(ssid).len() > 0 {
            Some(NetworkView { ssid, signal: signal_value(signal), security: field_value(security) })
        } else {
            None
        },
        None => None,
    }
}

/// The networks of scan-list lines in discovery order: of several lines
/// with one name the first is kept.
pub open spec fn scan_candidates(lines: Seq<Seq<char>>) -> Seq<NetworkView>
    decreases lines.len(),
{
    if lines.len() == 0 {
        Seq::empty()
    } else {
        let prev = scan_candidates(lines.drop_last());
        match visible_record(lines.last()) {
            Some(n) => if !has_ssid(prev, n.ssid) {
                prev.push(n)
            } else {
                prev
            },
            None => prev,
        }
    }
}

/// What a scan result may hold: a visible name, no sentinel, a signal in
/// percent.
pub open spec fn well_formed_entry(n: NetworkView) -> bool {
    &&& n.ssid.len() > 0
    &&& n.ssid != "--"@
    &&& n.security != "--"@
    &&& n.signal <= 100
}

pub open spec fn signal_is(v: int) -> spec_fn(NetworkView) -> bool {
    |n: NetworkView| n.signal == v
}

/// The networks of `s` whose signal lies in `lo..=hi`, strongest first, and
/// in their order in `s` where signals are equal.
pub open spec fn ranked_between(s: Seq<NetworkView>, hi: int, lo: int) -> Seq<NetworkView>
    decreases hi - lo + 1,
{
    if hi < lo {
        Seq::empty()
    } else {
        s.filter(signal_is(hi)) + ranked_between(s, hi - 1, lo)
    }
}

/// `s` sorted by descending signal, stably.
pub open spec fn ranked(s: Seq<NetworkView>) -> Seq<NetworkView> {
    ranked_between(s, 255, 0)
}

/// What a scan-list command's output yields.
pub open spec fn scan_result(out: OutputView) -> Result<Seq<NetworkView>, ErrorView> {
    if out.success {
        Ok(ranked(scan_candidates(text_lines(out.stdout))))
    } else {
        Err(ErrorView::NmcliExecution(out.stderr))
    }
}

proof fn lemma_ranked_extend(s: Seq<NetworkView>, hi: int, lo: int)
    requires
        lo <= hi + 1,
    ensures
        ranked_between(s, hi, lo - 1) == ranked_between(s, hi, lo) + s.filter(signal_is(lo - 1)),
    decreases hi - lo + 1,
{
    if hi < lo {
        assert(ranked_between(s, hi - 1, lo - 1) == Seq::<NetworkView>::empty());
        assert(ranked_between(s, hi, lo - 1) == s.filter(signal_is(lo - 1)));
    } else {
        lemma_ranked_extend(s, hi - 1, lo);
        assert(ranked_between(s, hi, lo - 1) == s.filter(signal_is(hi)) + ranked_between(s, hi - 1, lo - 1));
    }
}

/// Every ranked network is one of the ranked ones.
pub proof fn lemma_ranked_members(s: Seq<NetworkView>, hi: int, lo: int, n: NetworkView)
    requires
        ranked_between(s, hi, lo).contains(n),
    ensures
        s.contains(n),
    decreases hi - lo + 1,
{
    if hi >= lo {
        let f = s.filter(signal_is(hi));
        let rest = ranked_between(s, hi - 1, lo);
        let k = choose|k: int| 0 <= k < (f + rest).len() && (f + rest)[k] == n;
        if k < f.len() {
            assert(f.contains(n));
            s.lemma_filter_contains_rev(signal_is(hi), n);
        } else {
            assert(rest[k - f.len()] == n);
            lemma_ranked_members(s, hi - 1, lo, n);
        }
    }
}

proof fn lemma_record_well_formed(line: Seq<char>)
    requires
        visible_record(line) is Some,
    ensures
        well_formed_entry(visible_record(line)->Some_0),
{
    let (ssid, signal, security) = record3(line)->Some_0;
    assert(ssid != "--"@);
    if security == "--"@ {
        assert(field_value(security) == Seq::<char>::empty());
        reveal_strlit("--");
    }
}

/// Candidates are well-formed entries.
pub proof fn lemma_candidates_well_formed(lines: Seq<Seq<char>>)
    ensures
        forall|i: int| 0 <= i < scan_candidates(lines).len() ==> well_formed_entry(#[trigger] scan_candidates(lines)[i]),
    decreases lines.len(),
{
    if lines.len() > 0 {
        let p = scan_candidates(lines.drop_last());
        let c = scan_candidates(lines);
        lemma_candidates_well_formed(lines.drop_last());
        if visible_record(lines.last()) is Some {
            lemma_record_well_formed(lines.last());
        }
        assert forall|i: int| 0 <= i < c.len() implies well_formed_entry(#[trigger] c[i]) by {
            if i < p.len() {
                assert(c[i] == p[i]);
            }
        }
    }
}

/// A hidden network (empty name or "--") never appears in a scan result,
/// whatever its signal; no field of a result is the sentinel "--", and
/// every signal lies in 0..=100.
pub proof fn law_scan_hides_hidden(out: OutputView)
    requires
        scan_result(out) is Ok,
    ensures
        forall|i: int| 0 <= i < scan_result(out)->Ok_0.len()
            ==> well_formed_entry(#[trigger] scan_result(out)->Ok_0[i]),
{
    let c = scan_candidates(text_lines(out.stdout));
    let r = ranked(c);
    lemma_candidates_well_formed(text_lines(out.stdout));
    assert forall|i: int| 0 <= i < r.len() implies well_formed_entry(#[trigger] r[i]) by {
        assert(r.contains(r[i]));
        lemma_ranked_members(c, 255, 0, r[i]);
    }
}

/// No two networks of `s` share a name.
pub open spec fn distinct_names(s: Seq<NetworkView>) -> bool {
    forall|i: int, j: int| 0 <= i < j < s.len() ==> (#[trigger] s[i]).ssid != (#[trigger] s[j]).ssid
}

proof fn lemma_candidates_distinct(lines: Seq<Seq<char>>)
    ensures
        distinct_names(scan_candidates(lines)),
    decreases lines.len(),
{
    if lines.len() > 0 {
        let p = scan_candidates(lines.drop_last());
        let c = scan_candidates(lines);
        lemma_candidates_distinct(lines.drop_last());
        if c.len() > p.len() {
            assert forall|i: int, j: int| 0 <= i < j < c.len() implies (#[trigger] c[i]).ssid != (#[trigger] c[j]).ssid by {
                assert(c[i] == p[i]);
                if j < p.len() {
                    assert(c[j] == p[j]);
                } else {
                    assert(!has_ssid(p, c[j].ssid));
                }
            }
        } else {
            assert(c == p);
        }
    }
}

proof fn lemma_filter_distinct(s: Seq<NetworkView>, p: spec_fn(NetworkView) -> bool)
    requires
        distinct_names(s),
    ensures
        distinct_names(s.filter(p)),
    decreases s.len(),
{
    if s.len() > 0 {
        let prefix = s.drop_last();
        let x = s.last();
        assert(distinct_names(prefix)) by {
            assert forall|i: int, j: int| 0 <= i < j < prefix.len() implies (#[trigger] prefix[i]).ssid != (#[trigger] prefix[j]).ssid by {
                assert(prefix[i] == s[i] && prefix[j] == s[j]);
            }
        }
        lemma_filter_distinct(prefix, p);
        assert(s == prefix.push(x));
        prefix.lemma_filter_push(x, p);
        let f = prefix.filter(p);
        if p(x) {
            let g = f.push(x);
            assert forall|i: int, j: int| 0 <= i < j < g.len() implies (#[trigger] g[i]).ssid != (#[trigger] g[j]).ssid by {
                if j == f.len() {
                    assert(f.contains(g[i]));
                    prefix.lemma_filter_contains_rev(p, g[i]);
                    let k = choose|k: int| 0 <= k < prefix.len() && prefix[k] == g[i];
                    assert(s[k] == g[i] && s[s.len() - 1] == x);
                } else {
                    assert(g[i] == f[i] && g[j] == f[j]);
                }
            }
        }
    }
}

proof fn lemma_ranked_distinct(s: Seq<NetworkView>, hi: int, lo: int)
    requires
        distinct_names(s),
    ensures
        distinct_names(ranked_between(s, hi, lo)),
        forall|k: int| 0 <= k < ranked_between(s, hi, lo).len()
            ==> lo <= (#[trigger] ranked_between(s, hi, lo)[k]).signal <= hi,
    decreases hi - lo + 1,
{
    if hi >= lo {
        let f = s.filter(signal_is(hi));
        let rest = ranked_between(s, hi - 1, lo);
        let r = ranked_between(s, hi, lo);
        lemma_ranked_distinct(s, hi - 1, lo);
        lemma_filter_distinct(s, signal_is(hi));
        assert(r == f + rest);
        assert forall|k: int| 0 <= k < r.len() implies lo <= (#[trigger] r[k]).signal <= hi by {
            if k < f.len() {
                s.lemma_filter_pred(signal_is(hi), k);
            } else {
                assert(r[k] == rest[k - f.len()]);
            }
        }
        assert forall|i: int, j: int| 0 <= i < j < r.len() implies (#[trigger] r[i]).ssid != (#[trigger] r[j]).ssid by {
            if j < f.len() {
                assert(r[i] == f[i] && r[j] == f[j]);
            } else if i >= f.len() {
                assert(r[i] == rest[i - f.len()] && r[j] == rest[j - f.len()]);
            } else {
                s.lemma_filter_pred(signal_is(hi), i);
                assert(r[i] == f[i] && r[j] == rest[j - f.len()]);
                assert(r[i].signal != r[j].signal);
                assert(f.contains(r[i]));
                s.lemma_filter_contains_rev(signal_is(hi), r[i]);
                assert(rest.contains(r[j]));
                lemma_ranked_members(s, hi - 1, lo, r[j]);
                let a = choose|a: int| 0 <= a < s.len() && s[a] == r[i];
                let b = choose|b: int| 0 <= b < s.len() && s[b] == r[j];
                assert(a != b);
                if a < b {
                    assert(s[a].ssid != s[b].ssid);
                } else {
                    assert(s[b].ssid != s[a].ssid);
                }
            }
        }
    }
}

/// A scan result never holds two networks of one name.
pub proof fn law_scan_names_distinct(out: OutputView)
    requires
        scan_result(out) is Ok,
    ensures
        distinct_names(scan_result(out)->Ok_0),
{
    lemma_candidates_distinct(text_lines(out.stdout));
    lemma_ranked_distinct(scan_candidates(text_lines(out.stdout)), 255, 0);
}

/// `line` shows a network named `ssid`.
pub open spec fn shows_name(line: Seq<char>, ssid: Seq<char>) -> bool {
    visible_record(line) is Some && visible_record(line)->Some_0.ssid == ssid
}

/// `j` is the first of `lines` that shows a network named `ssid`.
pub open spec fn first_shown_at(lines: Seq<Seq<char>>, ssid: Seq<char>, j: int) -> bool {
    &&& 0 <= j < lines.len()
    &&& shows_name(lines[j], ssid)
    &&& forall|k: int| 0 <= k < j ==> !shows_name(#[trigger] lines[k], ssid)
}

/// `n` is the network of the first line that shows its name.
pub open spec fn from_first_line(lines: Seq<Seq<char>>, n: NetworkView) -> bool {
    exists|j: int| first_shown_at(lines, n.ssid, j) && visible_record(lines[j]) == Some(n)
}

/// `x` stands before `y` in `s`.
pub open spec fn stands_before(s: Seq<NetworkView>, x: NetworkView, y: NetworkView) -> bool {
    exists|a: int, b: int| 0 <= a < b < s.len() && s[a] == x && s[b] == y
}

proof fn lemma_first_shown_unique(lines: Seq<Seq<char>>, ssid: Seq<char>, j: int, k: int)
    requires
        first_shown_at(lines, ssid, j),
        first_shown_at(lines, ssid, k),
    ensures
        j == k,
{
    if j < k {
        assert(!shows_name(lines[j], ssid));
    } else if k < j {
        assert(!shows_name(lines[k], ssid));
    }
}

proof fn lemma_first_shown_prefix(lines: Seq<Seq<char>>, ssid: Seq<char>, j: int)
    requires
        lines.len() > 0,
        first_shown_at(lines.drop_last(), ssid, j),
    ensures
        first_shown_at(lines, ssid, j),
{
    let l = lines.drop_last();
    assert forall|k: int| 0 <= k < j implies !shows_name(#[trigger] lines[k], ssid) by {
        assert(lines[k] == l[k]);
        assert(!shows_name(l[k], ssid));
    }
    assert(lines[j] == l[j]);
}

/// Each candidate is the network of the first line that shows its name;
/// every name that a line shows is among the candidates; and candidates
/// stand in the order of those first lines.
pub proof fn lemma_candidates_first(lines: Seq<Seq<char>>)
    ensures
        forall|i: int| 0 <= i < scan_candidates(lines).len() ==> from_first_line(lines, #[trigger] scan_candidates(lines)[i]),
        forall|j: int| 0 <= j < lines.len() && (#[trigger] visible_record(lines[j])) is Some
            ==> has_ssid(scan_candidates(lines), visible_record(lines[j])->Some_0.ssid),
        forall|a: int, b: int, ja: int, jb: int|
            0 <= a < b < scan_candidates(lines).len()
                && #[trigger] first_shown_at(lines, scan_candidates(lines)[a].ssid, ja)
                && #[trigger] first_shown_at(lines, scan_candidates(lines)[b].ssid, jb) ==> ja < jb,
    decreases lines.len(),
{
    if lines.len() > 0 {
        let l = lines.drop_last();
        let p = scan_candidates(l);
        let c = scan_candidates(lines);
        let last = lines.len() - 1;
        lemma_candidates_first(l);
        let pushed = c.len() > p.len();
        assert forall|i: int| 0 <= i < p.len() implies c[i] == p[i] by {}
        assert forall|i: int| 0 <= i < c.len() implies from_first_line(lines, #[trigger] c[i]) by {
            if i < p.len() {
                let j = choose|j: int| first_shown_at(l, p[i].ssid, j) && visible_record(l[j]) == Some(p[i]);
                lemma_first_shown_prefix(lines, p[i].ssid, j);
                assert(lines[j] == l[j]);
            } else {
                let x = c[i];
                assert(visible_record(lines[last]) == Some(x));
                assert forall|k: int| 0 <= k < last implies !shows_name(#[trigger] lines[k], x.ssid) by {
                    assert(lines[k] == l[k]);
                    if shows_name(l[k], x.ssid) {
                        assert(visible_record(l[k]) is Some);
                        assert(has_ssid(p, x.ssid));
                    }
                }
                assert(first_shown_at(lines, x.ssid, last));
            }
        }
        assert forall|j: int| 0 <= j < lines.len() && (#[trigger] visible_record(lines[j])) is Some
            implies has_ssid(c, visible_record(lines[j])->Some_0.ssid) by {
            let n = visible_record(lines[j])->Some_0;
            if j < last {
                assert(lines[j] == l[j]);
                assert(visible_record(l[j]) is Some);
                let i = choose|i: int| 0 <= i < p.len() && (#[trigger] p[i]).ssid == n.ssid;
                assert(c[i] == p[i]);
            } else if pushed {
                assert(c[p.len() as int] == n);
            } else {
                let i = choose|i: int| 0 <= i < p.len() && (#[trigger] p[i]).ssid == n.ssid;
                assert(c[i] == p[i]);
            }
        }
        assert forall|a: int, b: int, ja: int, jb: int|
            0 <= a < b < c.len() && #[trigger] first_shown_at(lines, c[a].ssid, ja)
                && #[trigger] first_shown_at(lines, c[b].ssid, jb) implies ja < jb by {
            let ka = choose|j: int| first_shown_at(l, p[a].ssid, j) && visible_record(l[j]) == Some(p[a]);
            lemma_first_shown_prefix(lines, p[a].ssid, ka);
            lemma_first_shown_unique(lines, c[a].ssid, ja, ka);
            if b < p.len() {
                let kb = choose|j: int| first_shown_at(l, p[b].ssid, j) && visible_record(l[j]) == Some(p[b]);
                lemma_first_shown_prefix(lines, p[b].ssid, kb);
                lemma_first_shown_unique(lines, c[b].ssid, jb, kb);
                assert(first_shown_at(l, p[a].ssid, ka));
                assert(first_shown_at(l, p[b].ssid, kb));
            } else {
                assert(ka < last);
                let x = c[b];
                assert(visible_record(lines[last]) == Some(x));
                assert forall|k: int| 0 <= k < last implies !shows_name(#[trigger] lines[k], x.ssid) by {
                    assert(lines[k] == l[k]);
                    if shows_name(l[k], x.ssid) {
                        assert(visible_record(l[k]) is Some);
                        assert(has_ssid(p, x.ssid));
                    }
                }
                assert(first_shown_at(lines, x.ssid, last));
                lemma_first_shown_unique(lines, x.ssid, jb, last);
            }
        }
    }
}

/// Of several lines with one name, the first decides: every network of a
/// scan result carries the signal and security of the first line that
/// shows its name, even where a later line shows a stronger signal.
pub proof fn law_scan_first_record_wins(out: OutputView)
    requires
        scan_result(out) is Ok,
    ensures
        forall|i: int| 0 <= i < scan_result(out)->Ok_0.len()
            ==> from_first_line(text_lines(out.stdout), #[trigger] scan_result(out)->Ok_0[i]),
{
    let lines = text_lines(out.stdout);
    let c = scan_candidates(lines);
    let r = ranked(c);
    lemma_candidates_first(lines);
    assert forall|i: int| 0 <= i < r.len() implies from_first_line(lines, #[trigger] r[i]) by {
        assert(r.contains(r[i]));
        lemma_ranked_members(c, 255, 0, r[i]);
        let k = choose|k: int| 0 <= k < c.len() && c[k] == r[i];
        assert(c[k] == r[i]);
    }
}

proof fn lemma_filter_order(s: Seq<NetworkView>, p: spec_fn(NetworkView) -> bool)
    ensures
        forall|i: int, j: int| 0 <= i < j < s.filter(p).len()
            ==> stands_before(s, #[trigger] s.filter(p)[i], #[trigger] s.filter(p)[j]),
    decreases s.len(),
{
    s.lemma_filter_len(p);
    if s.len() > 0 {
        let prefix = s.drop_last();
        let x = s.last();
        lemma_filter_order(prefix, p);
        assert(s == prefix.push(x));
        prefix.lemma_filter_push(x, p);
        let fp = prefix.filter(p);
        let f = s.filter(p);
        assert forall|i: int, j: int| 0 <= i < j < f.len() implies stands_before(s, #[trigger] f[i], #[trigger] f[j]) by {
            if j < fp.len() {
                assert(f[i] == fp[i] && f[j] == fp[j]);
                assert(stands_before(prefix, fp[i], fp[j]));
                let (a, b) = choose|a: int, b: int| 0 <= a < b < prefix.len() && prefix[a] == fp[i] && prefix[b] == fp[j];
                assert(s[a] == prefix[a] && s[b] == prefix[b]);
            } else {
                assert(f[i] == fp[i]);
                assert(fp.contains(fp[i]));
                prefix.lemma_filter_contains_rev(p, fp[i]);
                let a = choose|a: int| 0 <= a < prefix.len() && prefix[a] == fp[i];
                assert(s[a] == prefix[a]);
                assert(s[s.len() - 1] == f[j]);
                assert(s[a] == f[i]);
            }
        }
    }
}

proof fn lemma_ranked_order(s: Seq<NetworkView>, hi: int, lo: int)
    requires
        distinct_names(s),
    ensures
        forall|i: int, j: int| 0 <= i < j < ranked_between(s, hi, lo).len() ==> {
            &&& (#[trigger] ranked_between(s, hi, lo)[i]).signal >= (#[trigger] ranked_between(s, hi, lo)[j]).signal
            &&& ranked_between(s, hi, lo)[i].signal == ranked_between(s, hi, lo)[j].signal
                ==> stands_before(s, ranked_between(s, hi, lo)[i], ranked_between(s, hi, lo)[j])
        },
    decreases hi - lo + 1,
{
    if hi >= lo {
        let f = s.filter(signal_is(hi));
        let rest = ranked_between(s, hi - 1, lo);
        let r = ranked_between(s, hi, lo);
        lemma_ranked_order(s, hi - 1, lo);
        lemma_ranked_distinct(s, hi - 1, lo);
        lemma_filter_order(s, signal_is(hi));
        assert(r == f + rest);
        assert forall|i: int, j: int| 0 <= i < j < r.len() implies {
            &&& (#[trigger] r[i]).signal >= (#[trigger] r[j]).signal
            &&& r[i].signal == r[j].signal ==> stands_before(s, r[i], r[j])
        } by {
            if j < f.len() {
                assert(r[i] == f[i] && r[j] == f[j]);
                s.lemma_filter_pred(signal_is(hi), i);
                s.lemma_filter_pred(signal_is(hi), j);
                assert(stands_before(s, f[i], f[j]));
            } else if i >= f.len() {
                assert(r[i] == rest[i - f.len()] && r[j] == rest[j - f.len()]);
                assert(rest[i - f.len()].signal >= rest[j - f.len()].signal);
            } else {
                s.lemma_filter_pred(signal_is(hi), i);
                assert(r[i] == f[i] && r[j] == rest[j - f.len()]);
                assert(rest[j - f.len()].signal <= hi - 1);
            }
        }
    }
}

/// A scan result runs from the strongest signal down, and networks of equal
/// signal stand in the order in which their names were first seen.
pub proof fn law_scan_order(out: OutputView)
    requires
        scan_result(out) is Ok,
    ensures
        forall|i: int, j: int| 0 <= i < j < scan_result(out)->Ok_0.len() ==> {
            &&& (#[trigger] scan_result(out)->Ok_0[i]).signal >= (#[trigger] scan_result(out)->Ok_0[j]).signal
            &&& forall|ji: int, jj: int|
                scan_result(out)->Ok_0[i].signal == scan_result(out)->Ok_0[j].signal
                    && #[trigger] first_shown_at(text_lines(out.stdout), scan_result(out)->Ok_0[i].ssid, ji)
                    && #[trigger] first_shown_at(text_lines(out.stdout), scan_result(out)->Ok_0[j].ssid, jj) ==> ji < jj
        },
{
    let lines = text_lines(out.stdout);
    let c = scan_candidates(lines);
    let r = ranked(c);
    lemma_candidates_distinct(lines);
    lemma_candidates_first(lines);
    lemma_ranked_order(c, 255, 0);
    assert forall|i: int, j: int| 0 <= i < j < r.len() implies {
        &&& (#[trigger] r[i]).signal >= (#[trigger] r[j]).signal
        &&& forall|ji: int, jj: int|
            r[i].signal == r[j].signal && #[trigger] first_shown_at(lines, r[i].ssid, ji)
                && #[trigger] first_shown_at(lines, r[j].ssid, jj) ==> ji < jj
    } by {
        assert(r[i].signal >= r[j].signal);
        assert forall|ji: int, jj: int|
            r[i].signal == r[j].signal && #[trigger] first_shown_at(lines, r[i].ssid, ji)
                && #[trigger] first_shown_at(lines, r[j].ssid, jj) implies ji < jj by {
            assert(stands_before(c, r[i], r[j]));
            let (a, b) = choose|a: int, b: int| 0 <= a < b < c.len() && c[a] == r[i] && c[b] == r[j];
            assert(first_shown_at(lines, c[a].ssid, ji));
            assert(first_shown_at(lines, c[b].ssid, jj));
        }
    }
}

/// The arguments that make the daemon rescan on an adapter.
pub fn rescan_args(interface: &str) -> (r: Vec<String>)
    ensures
        words_view(r@) == seq!["device"@, "wifi"@, "rescan"@, "ifname"@, interface@],
{
    let r = vec![
        String::from_str("device"),
        String::from_str("wifi"),
        String::from_str("rescan"),
        String::from_str("ifname"),
        String::from_str(interface),
    ];
    assert(words_view(r@) == seq!["device"@, "wifi"@, "rescan"@, "ifname"@, interface@]);
    r
}

/// The arguments that make the daemon list the networks an adapter sees,
/// as SSID:SIGNAL:SECURITY records.
pub fn wifi_list_args(interface: &str) -> (r: Vec<String>)
    ensures
        words_view(r@) == seq![
            "-t"@,
            "-f"@,
            "SSID,SIGNAL,SECURITY"@,
            "device"@,
            "wifi"@,
            "list"@,
            "ifname"@,
            interface@,
        ],
{
    let r = vec![
        String::from_str("-t"),
        String::from_str("-f"),
        String::from_str("SSID,SIGNAL,SECURITY"),
        String::from_str("device"),
        String::from_str("wifi"),
        String::from_str("list"),
        String::from_str("ifname"),
        String::from_str(interface),
    ];
    assert(words_view(r@) == seq![
        "-t"@,
        "-f"@,
        "SSID,SIGNAL,SECURITY"@,
        "device"@,
        "wifi"@,
        "list"@,
        "ifname"@,
        interface@,
    ]);
    r
}

/// Whether a network of the given name is among `found`.
fn seen_ssid(found: &Vec<Network>, ssid: &str) -> (r: bool)
    ensures
        r == has_ssid(network_views(found@), ssid@),
{
    let ghost s = network_views(found@);
    let mut i: usize = 0;
    while i < found.len()
        invariant
            s == network_views(found@),
            i <= found@.len(),
            forall|j: int| 0 <= j < i ==> s[j].ssid != ssid@,
        decreases found@.len() - i,
    {
        if same_text(found[i].ssid.as_str(), ssid) {
            assert(s[i as int].ssid == ssid@);
            return true;
        }
        i = i + 1;
    }
    false
}

/// The network that one scan-list line shows, if any.
pub fn read_scan_record(line: &str) -> (r: Option<Network>)
    ensures
        match r {
            Some(n) => visible_record(line@) == Some(n@),
            None => visible_record(line@) is None,
        },
{
    match split_record3(line) {
        Some((ssid, signal, security)) => {
            if ssid.as_str().is_empty() || same_text(ssid.as_str(), "--") {
                return None;
            }
            let level = match parse_byte(signal.as_str()) {
                Some(v) => if v <= 100 {
                    v
                } else {
                    0
                },
                None => 0,
            };
            let security = if same_text(security.as_str(), "--") {
                String::new()
            } else {
                security
            };
            Some(Network { ssid, signal: level, security })
        },
        None => None,
    }
}

/// The distinct visible networks of scan-list lines, in discovery order.
fn collect_candidates(lines: &Vec<String>) -> (r: Vec<Network>)
    ensures
        network_views(r@) == scan_candidates(lines@.map_values(|l: String| l@)),
{
    let ghost ls = lines@.map_values(|l: String| l@);
    let mut r: Vec<Network> = Vec::new();
    let mut i: usize = 0;
    while i < lines.len()
        invariant
            ls == lines@.map_values(|l: String| l@),
            i <= lines@.len(),
            network_views(r@) == scan_candidates(ls.take(i as int)),
        decreases lines@.len() - i,
    {
        let ghost before = network_views(r@);
        assert(ls.take(i + 1).drop_last() == ls.take(i as int));
        assert(ls.take(i + 1).last() == lines@[i as int]@);
        match read_scan_record(lines[i].as_str()) {
            Some(n) => {
                if !seen_ssid(&r, n.ssid.as_str()) {
                    let ghost nv = n@;
                    r.push(n);
                    assert(network_views(r@) == before.push(nv));
                }
            },
            None => {},
        }
        i = i + 1;
    }
    assert(ls.take(lines@.len() as int) == ls);
    r
}

/// `found` sorted by descending signal, stably.
pub fn rank_by_signal(found: &Vec<Network>) -> (r: Vec<Network>)
    ensures
        network_views(r@) == ranked(network_views(found@)),
{
    let ghost s = network_views(found@);
    let mut r: Vec<Network> = Vec::new();
    // Each pass takes the networks of one signal value, from the strongest
    // down; a pass keeps the order of `found`.
    let mut level: u16 = 256;
    assert(ranked_between(s, 255, 256) == Seq::<NetworkView>::empty());
    while level > 0
        invariant
            s == network_views(found@),
            level <= 256,
            network_views(r@) == ranked_between(s, 255, level as int),
        decreases level,
    {
        let ghost base = network_views(r@);
        level = level - 1;
        let mut j: usize = 0;
        assert(s.take(0).filter(signal_is(level as int)) == Seq::<NetworkView>::empty());
        assert(base == base + s.take(0).filter(signal_is(level as int)));
        while j < found.len()
            invariant
                s == network_views(found@),
                level < 256,
                j <= found@.len(),
                network_views(r@) == base + s.take(j as int).filter(signal_is(level as int)),
            decreases found@.len() - j,
        {
            assert(s.take(j + 1) == s.take(j as int).push(s[j as int]));
            proof {
                s.take(j as int).lemma_filter_push(s[j as int], signal_is(level as int));
            }
            let ghost prev = network_views(r@);
            if found[j].signal as u16 == level {
                r.push(found[j].copy());
                assert(network_views(r@) == prev.push(s[j as int]));
            }
            j = j + 1;
        }
        assert(s.take(found@.len() as int) == s);
        proof {
            lemma_ranked_extend(s, 255, level + 1);
        }
    }
    r
}

/// The networks that a scan-list command reported (its command:
/// `wifi_list_args`): hidden networks dropped, the first line of each name
/// kept, strongest first and in discovery order where signals are equal.
pub fn scan_networks(output: &CommandOutput) -> (r: Result<Vec<Network>, WifiProxyError>)
    ensures
        match r {
            Ok(v) => scan_result(output@) == Ok::<_, ErrorView>(network_views(v@)),
            Err(e) => scan_result(output@) == Err::<Seq<NetworkView>, _>(e@),
        },
        r is Ok ==> forall|i: int| 0 <= i < r->Ok_0@.len() ==> well_formed_entry(#[trigger] network_views(r->Ok_0@)[i]),
        r is Ok ==> forall|i: int| 0 <= i < r->Ok_0@.len() ==> (#[trigger] r->Ok_0@[i]).signal <= 100,
        r is Ok ==> distinct_names(network_views(r->Ok_0@)),
{
    if !output.success {
        return Err(WifiProxyError::NmcliExecution(output.stderr.clone()));
    }
    let lines = split_lines(output.stdout.as_str());
    assert(lines@.map_values(|l: String| l@) == text_lines(output.stdout@));
    let found = collect_candidates(&lines);
    let r = rank_by_signal(&found);
    proof {
        assert(network_views(r@) == ranked(scan_candidates(text_lines(output.stdout@))));
        law_scan_hides_hidden(output@);
        law_scan_names_distinct(output@);
        let rv = scan_result(output@)->Ok_0;
        assert(rv == network_views(r@));
        assert forall|i: int| 0 <= i < r@.len() implies (#[trigger] r@[i]).signal <= 100 by {
            assert(well_formed_entry(rv[i]));
            assert(network_views(r@)[i].signal == r@[i].signal);
        }
    }
    Ok(r)
}

/// A name cut to at most `max_len` bytes, with "..." marking a cut.
pub open spec fn truncated(ssid: Seq<char>, max_len: int) -> Seq<char> {
    if encode_utf8(ssid).len() > max_len {
        decode_utf8(encode_utf8(ssid).subrange(0, max_len - 3)) + "..."@
    } else {
        ssid
    }
}

/// `ssid` as it fits a column of `max_len` bytes: unchanged where it fits,
/// else its first `max_len - 3` bytes followed by "...".
pub fn truncate_ssid(ssid: &str, max_len: usize) -> (r: String)
    requires
        ssid.spec_bytes().len() > max_len ==> max_len >= 3,
        ssid.spec_bytes().len() <= usize::MAX,
        ssid.spec_bytes().len() > max_len ==> is_char_boundary(ssid.spec_bytes(), max_len - 3),
    ensures
        r@ == truncated(ssid@, max_len as int),
{
    if ssid.len() > max_len {
        let (head, _) = ssid.split_at(max_len - 3);
        proof {
            encode_utf8_decode_utf8(head@);
            assert(head.spec_bytes() == ssid.spec_bytes().subrange(0, max_len - 3));
        }
        String::from_str(head).concat("...")
    } else {
        String::from_str(ssid)
    }
}

/// The four-cell bar that shows a signal strength.
pub open spec fn bar_of(signal: u8) -> Seq<char> {
    if 80 <= signal && signal <= 100 {
        "████"@
    } else if 60 <= signal && signal <= 79 {
        "███░"@
    } else if 40 <= signal && signal <= 59 {
        "██░░"@
    } else if 20 <= signal && signal <= 39 {
        "█░░░"@
    } else {
        "░░░░"@
    }
}

/// A bar of four cells that shows a signal strength: one filled cell for
/// each full 20 percent up to 80, all four from 80 to 100.
pub fn signal_to_bar(signal: u8) -> (r: &'static str)
    ensures
        r@ == bar_of(signal),
{
    if 80 <= signal && signal <= 100 {
        "████"
    } else if 60 <= signal && signal <= 79 {
        "███░"
    } else if 40 <= signal && signal <= 59 {
        "██░░"
    } else if 20 <= signal && signal <= 39 {
        "█░░░"
    } else {
        "░░░░"
    }
}

} // verus!
