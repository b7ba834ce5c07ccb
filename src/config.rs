//! Saved networks: looking credentials up by name and replacing them.
//! Reading and writing the file that holds them is the caller's part.

use vstd::prelude::*;
use vstd::string::StringSliceAdditionalSpecFns;
use crate::command::opt_text;
use crate::terse::same_text;

verus! {

/// The saved settings: known networks and an optional default adapter.
#[derive(Debug)]
pub struct Config {
    /// Saved networks, at most one per name.
    pub networks: Vec<NetworkConfig>,
    /// The adapter to use where none is named.
    pub default_interface: Option<String>,
}

/// A saved network.
#[derive(Debug, Clone, PartialEq, Eq)]
pub struct NetworkConfig {
    pub ssid: String,
    pub password: String,
    /// The adapter preferred for this network, if any.
    pub interface: Option<String>,
}

/// The content of a `NetworkConfig`.
pub struct NetworkConfigView {
    pub ssid: Seq<char>,
    pub password: Seq<char>,
    pub interface: Option<Seq<char>>,
}

impl View for NetworkConfig {
    type V = NetworkConfigView;

    open spec fn view(&self) -> NetworkConfigView {
        NetworkConfigView { ssid: self.ssid@, password: self.password@, interface: opt_text(self.interface) }
    }
}

impl NetworkConfig {
    /// A field-by-field copy.
    pub fn copy(&self) -> (r: NetworkConfig)
        ensures
            r@ == self@,
    {
        NetworkConfig { ssid: self.ssid.clone(), password: self.password.clone(), interface: self.interface.clone() }
    }
}

pub open spec fn config_views(v: Seq<NetworkConfig>) -> Seq<NetworkConfigView> {
    v.map_values(|n: NetworkConfig| n@)
}

/// `i` is the first saved network named `ssid`.
pub open spec fn first_saved_at(s: Seq<NetworkConfigView>, ssid: Seq<char>, i: int) -> bool {
    &&& 0 <= i < s.len()
    &&& s[i].ssid == ssid
    &&& forall|j: int| 0 <= j < i ==> s[j].ssid != ssid
}

/// The saved network named `ssid`, if there is one.
pub open spec fn saved_network(s: Seq<NetworkConfigView>, ssid: Seq<char>) -> Option<NetworkConfigView> {
    if exists|i: int| first_saved_at(s, ssid, i) {
        Some(s[choose|i: int| first_saved_at(s, ssid, i)])
    } else {
        None
    }
}

pub open spec fn other_name(ssid: Seq<char>) -> spec_fn(NetworkConfigView) -> bool {
    |n: NetworkConfigView| n.ssid != ssid
}

/// The saved networks after saving `n`: any entry of its name removed, the
/// others kept in order, `n` last.
pub open spec fn with_network(s: Seq<NetworkConfigView>, n: NetworkConfigView) -> Seq<NetworkConfigView> {
    s.filter(other_name(n.ssid)).push(n)
}

/// The password to use for `ssid`: the one given, else the saved one.
pub open spec fn chosen_password(
    s: Seq<NetworkConfigView>,
    ssid: Seq<char>,
    given: Option<Seq<char>>,
) -> Option<Seq<char>> {
    match given {
        Some(p) => Some(p),
        None => match saved_network(s, ssid) {
            Some(n) => Some(n.password),
            None => None,
        },
    }
}

/// A password as shown: one star per byte, twelve at most.
pub open spec fn masked(byte_len: nat) -> Seq<char> {
    Seq::new(if byte_len < 12 { byte_len } else { 12 }, |i: int| '*')
}

impl Default for Config {
    fn default() -> (r: Config)
        ensures
            r.networks@.len() == 0,
            r.default_interface is None,
    {
        Config { networks: Vec::new(), default_interface: None }
    }
}

impl Config {
    /// The saved network named `ssid`, if any.
    pub fn find_network(&self, ssid: &str) -> (r: Option<&NetworkConfig>)
        ensures
            match r {
                Some(n) => saved_network(config_views(self.networks@), ssid@) == Some(n@),
                None => saved_network(config_views(self.networks@), ssid@) is None,
            },
    {
        let ghost s = config_views(self.networks@);
        let mut i: usize = 0;
        while i < self.networks.len()
            invariant
                s == config_views(self.networks@),
                i <= self.networks@.len(),
                forall|j: int| 0 <= j < i ==> s[j].ssid != ssid@,
            decreases self.networks@.len() - i,
        {
            if same_text(self.networks[i].ssid.as_str(), ssid) {
                proof {
                    assert(first_saved_at(s, ssid@, i as int));
                    let k = choose|k: int| first_saved_at(s, ssid@, k);
                    assert(k == i);
                }
                return Some(&self.networks[i]);
            }
            i = i + 1;
        }
        proof {
            assert forall|k: int| !first_saved_at(s, ssid@, k) by {
                if 0 <= k < s.len() {
                    assert(s[k].ssid != ssid@);
                }
            }
        }
        None
    }

    /// Saves `network`, replacing any entry of the same name.
    pub fn add_network(&mut self, network: NetworkConfig)
        ensures
            config_views(final(self).networks@) == with_network(config_views(old(self).networks@), network@),
            final(self).default_interface == old(self).default_interface,
    {
        let ghost s = config_views(self.networks@);
        let ghost keep = other_name(network.ssid@);
        let mut kept: Vec<NetworkConfig> = Vec::new();
        let mut i: usize = 0;
        assert(s.take(0).filter(keep) == Seq::<NetworkConfigView>::empty());
        while i < self.networks.len()
            invariant
                s == config_views(self.networks@),
                keep == other_name(network.ssid@),
                i <= self.networks@.len(),
                config_views(kept@) == s.take(i as int).filter(keep),
            decreases self.networks@.len() - i,
        {
            assert(s.take(i + 1) == s.take(i as int).push(s[i as int]));
            proof {
                s.take(i as int).lemma_filter_push(s[i as int], keep);
            }
            let ghost prev = config_views(kept@);
            if !same_text(self.networks[i].ssid.as_str(), network.ssid.as_str()) {
                kept.push(self.networks[i].copy());
                assert(config_views(kept@) == prev.push(s[i as int]));
            }
            i = i + 1;
        }
        assert(s.take(s.len() as int) == s);
        let ghost prev = config_views(kept@);
        kept.push(network);
        assert(config_views(kept@) == prev.push(network@));
        self.networks = kept;
    }

    /// The password to join `ssid` with: `given` where there is one, else
    /// the saved network's; `None` where neither exists.
    pub fn password_for(&self, ssid: &str, given: Option<&str>) -> (r: Option<String>)
        ensures
            opt_text(r) == chosen_password(
                config_views(self.networks@),
                ssid@,
                match given {
                    Some(p) => Some(p@),
                    None => None,
                },
            ),
    {
        match given {
            Some(p) => Some(String::from_str(p)),
            None => match self.find_network(ssid) {
                Some(n) => Some(n.password.clone()),
                None => None,
            },
        }
    }
}

/// `password` as shown to a user: a star for each of its bytes, twelve at
/// most.
pub fn mask_password(password: &str) -> (r: String)
    requires
        password.spec_bytes().len() <= usize::MAX,
    ensures
        r@ == masked(password.spec_bytes().len()),
{
    let len = password.len();
    let count: usize = if len < 12 {
        len
    } else {
        12
    };
    let mut r = String::new();
    let mut i: usize = 0;
    while i < count
        invariant
            i <= count,
            r@ == Seq::new(i as nat, |k: int| '*'),
        decreases count - i,
    {
        r = r.concat("*");
        proof {
            reveal_strlit("*");
        }
        assert(r@ == Seq::new((i + 1) as nat, |k: int| '*'));
        i = i + 1;
    }
    r
}

} // verus!
