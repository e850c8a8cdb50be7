//! Network state model: interfaces, their addresses and WiFi association,
//! network events and how they change the state, and link-state change
//! detection between two snapshots of the kernel's link table.

use vstd::prelude::*;
use vstd::string::StringExecFns;
use crate::net::{Cidr, IpAddress};
use crate::strmap::{StrMap, seq_get, seq_has_key, seq_index, keys_unique};
use crate::text::{decimal, decimal_string};
use vstd::string::StrSliceExecFns;

verus! {

/// Interface type as seen by the monitor.
#[derive(Debug, Clone, Copy, PartialEq, Eq, Structural)]
pub enum InterfaceType {
    /// Wired LAN
    Lan,
    /// Wireless WLAN
    Wlan,
    /// VPN tunnel
    Vpn,
}

/// Interface state change types.
#[derive(Debug, Clone, Copy, PartialEq, Eq, Structural)]
pub enum InterfaceChange {
    /// Interface came up
    Up,
    /// Interface went down
    Down,
    /// Interface was added
    Added,
    /// Interface was removed
    Removed,
}

/// Network events the daemon reacts to.
#[derive(Debug)]
#[allow(inconsistent_fields)]
pub enum NetworkEvent {
    /// Interface state changed
    InterfaceChanged { interface: String, change: InterfaceChange },
    /// WiFi connected to a network
    WifiConnected { interface: String, ssid: String },
    /// WiFi disconnected
    WifiDisconnected { interface: String, last_ssid: Option<String> },
    /// IP addresses changed on an interface
    AddressChanged { interface: String, added: Vec<Cidr>, removed: Vec<Cidr> },
    /// Route changed
    RouteChanged { interface: Option<String>, destination: Cidr, gateway: Option<IpAddress>, added: bool },
}

/// The interface an event is about, if any.
pub open spec fn event_interface(e: NetworkEvent) -> Option<Seq<char>> {
    match e {
        NetworkEvent::InterfaceChanged { interface, .. } => Some(interface@),
        NetworkEvent::WifiConnected { interface, .. } => Some(interface@),
        NetworkEvent::WifiDisconnected { interface, .. } => Some(interface@),
        NetworkEvent::AddressChanged { interface, .. } => Some(interface@),
        NetworkEvent::RouteChanged { interface, .. } => match interface {
            Some(i) => Some(i@),
            None => None,
        },
    }
}

impl NetworkEvent {
    /// The interface name associated with this event (if any).
    pub fn interface(&self) -> (r: Option<&str>)
        ensures
            r is Some <==> event_interface(*self) is Some,
            r matches Some(s) ==> Some(s@) == event_interface(*self),
    {
        match self {
            NetworkEvent::InterfaceChanged { interface, .. } => Some(interface.as_str()),
            NetworkEvent::WifiConnected { interface, .. } => Some(interface.as_str()),
            NetworkEvent::WifiDisconnected { interface, .. } => Some(interface.as_str()),
            NetworkEvent::AddressChanged { interface, .. } => Some(interface.as_str()),
            NetworkEvent::RouteChanged { interface, .. } => match interface {
                Some(i) => Some(i.as_str()),
                None => None,
            },
        }
    }

    /// Whether this event requires route recalculation: every event except a
    /// route change (which has already happened).
    pub fn requires_route_update(&self) -> (r: bool)
        ensures
            r == !(*self is RouteChanged),
    {
        match self {
            NetworkEvent::RouteChanged { .. } => false,
            _ => true,
        }
    }
}

/// Interface information.
#[derive(Debug)]
pub struct InterfaceInfo {
    /// Interface name (e.g., "eth0", "wlan0")
    pub name: String,
    /// Interface type
    pub interface_type: InterfaceType,
    /// IP networks assigned to this interface
    pub addresses: Vec<Cidr>,
    /// Whether interface is up
    pub is_up: bool,
    /// Current SSID (for WLAN interfaces)
    pub ssid: Option<String>,
}

impl Clone for InterfaceInfo {
    fn clone(&self) -> (r: Self)
        ensures
            r.name == self.name,
            r.interface_type == self.interface_type,
            r.addresses@ == self.addresses@,
            r.is_up == self.is_up,
            r.ssid == self.ssid,
    {
        let addresses = self.addresses.clone();
        assert(addresses@ =~= self.addresses@);
        let ssid = match &self.ssid {
            Some(s) => Some(s.clone()),
            None => None,
        };
        InterfaceInfo { name: self.name.clone(), interface_type: self.interface_type, addresses, is_up: self.is_up, ssid }
    }
}

/// The addresses of family IPv4 (`v4 == true`) or IPv6, in order.
pub open spec fn family_filter(s: Seq<Cidr>, v4: bool) -> Seq<Cidr>
    decreases s.len(),
{
    if s.len() == 0 {
        s
    } else {
        let t = family_filter(s.drop_last(), v4);
        if (s.last().spec_ip() is V4) == v4 { t.push(s.last()) } else { t }
    }
}

impl InterfaceInfo {
    /// A new interface: down, no addresses, no SSID.
    pub fn new(name: String, interface_type: InterfaceType) -> (r: Self)
        ensures
            r.name == name,
            r.interface_type == interface_type,
            r.addresses@.len() == 0,
            !r.is_up,
            r.ssid is None,
    {
        InterfaceInfo { name, interface_type, addresses: Vec::new(), is_up: false, ssid: None }
    }

    /// Whether the interface has an IPv4 address.
    pub fn has_ipv4(&self) -> (r: bool)
        ensures
            r == exists|i: int| 0 <= i < self.addresses@.len() && self.addresses@[i].spec_ip() is V4,
    {
        let n = self.addresses.len();
        let mut i: usize = 0;
        while i < n
            invariant
                n == self.addresses@.len(),
                i <= n,
                forall|j: int| 0 <= j < i ==> !(self.addresses@[j].spec_ip() is V4),
            decreases n - i,
        {
            if self.addresses[i].is_ipv4() {
                return true;
            }
            i = i + 1;
        }
        false
    }

    /// Whether the interface has an IPv6 address.
    pub fn has_ipv6(&self) -> (r: bool)
        ensures
            r == exists|i: int| 0 <= i < self.addresses@.len() && self.addresses@[i].spec_ip() is V6,
    {
        let n = self.addresses.len();
        let mut i: usize = 0;
        while i < n
            invariant
                n == self.addresses@.len(),
                i <= n,
                forall|j: int| 0 <= j < i ==> !(self.addresses@[j].spec_ip() is V6),
            decreases n - i,
        {
            if self.addresses[i].is_ipv6() {
                return true;
            }
            i = i + 1;
        }
        false
    }

    fn addresses_of_family(&self, v4: bool) -> (r: Vec<Cidr>)
        ensures
            r@ == family_filter(self.addresses@, v4),
    {
        let mut out: Vec<Cidr> = Vec::new();
        let n = self.addresses.len();
        let mut i: usize = 0;
        while i < n
            invariant
                n == self.addresses@.len(),
                i <= n,
                out@ == family_filter(self.addresses@.take(i as int), v4),
            decreases n - i,
        {
            assert(self.addresses@.take(i + 1).drop_last() =~= self.addresses@.take(i as int));
            let a = self.addresses[i];
            if a.is_ipv4() == v4 {
                out.push(a);
            }
            i = i + 1;
        }
        assert(self.addresses@.take(n as int) =~= self.addresses@);
        out
    }

    /// The IPv4 networks of the interface, in order.
    pub fn ipv4_addresses(&self) -> (r: Vec<Cidr>)
        ensures
            r@ == family_filter(self.addresses@, true),
    {
        self.addresses_of_family(true)
    }

    /// The IPv6 networks of the interface, in order.
    pub fn ipv6_addresses(&self) -> (r: Vec<Cidr>)
        ensures
            r@ == family_filter(self.addresses@, false),
    {
        self.addresses_of_family(false)
    }
}

} // verus!

verus! {

/// `s` without the entries that occur in `removed`, order kept.
pub open spec fn without_addresses(s: Seq<Cidr>, removed: Seq<Cidr>) -> Seq<Cidr>
    decreases s.len(),
{
    if s.len() == 0 {
        s
    } else {
        let t = without_addresses(s.drop_last(), removed);
        if removed.contains(s.last()) { t } else { t.push(s.last()) }
    }
}

/// `s` followed by the entries of `added` (in order) that are not present
/// yet when their turn comes.
pub open spec fn with_addresses(s: Seq<Cidr>, added: Seq<Cidr>) -> Seq<Cidr>
    decreases added.len(),
{
    if added.len() == 0 {
        s
    } else {
        let t = with_addresses(s, added.drop_last());
        if t.contains(added.last()) { t } else { t.push(added.last()) }
    }
}

/// Addresses of an interface after an address change event: removed ones
/// dropped first, then new ones appended without duplicates.
pub open spec fn merged_addresses(current: Seq<Cidr>, added: Seq<Cidr>, removed: Seq<Cidr>) -> Seq<Cidr> {
    with_addresses(without_addresses(current, removed), added)
}

/// The entry of `k` in `before` (when present) replaced by `info`; `before`
/// unchanged otherwise.
pub open spec fn replace_entry(
    before: Seq<(Seq<char>, InterfaceInfo)>,
    k: Seq<char>,
    info: InterfaceInfo,
) -> Seq<(Seq<char>, InterfaceInfo)> {
    if seq_has_key(before, k) {
        before.update(seq_index(before, k), (k, info))
    } else {
        before
    }
}

/// How an event changes the interface table `before` into `after`.
pub open spec fn event_applied(
    before: Seq<(Seq<char>, InterfaceInfo)>,
    after: Seq<(Seq<char>, InterfaceInfo)>,
    e: NetworkEvent,
) -> bool {
    match e {
        NetworkEvent::InterfaceChanged { interface, change } => {
            let k = interface@;
            let cur = seq_get(before, k)->0;
            match change {
                InterfaceChange::Up => after == replace_entry(before, k, InterfaceInfo { is_up: true, ..cur }),
                InterfaceChange::Down => after == replace_entry(before, k, InterfaceInfo { is_up: false, ..cur }),
                InterfaceChange::Added => after == before,
                InterfaceChange::Removed => after == if seq_has_key(before, k) {
                    before.remove(seq_index(before, k))
                } else {
                    before
                },
            }
        },
        NetworkEvent::WifiConnected { interface, ssid } => {
            let cur = seq_get(before, interface@)->0;
            after == replace_entry(before, interface@, InterfaceInfo { ssid: Some(ssid), is_up: true, ..cur })
        },
        NetworkEvent::WifiDisconnected { interface, .. } => {
            let cur = seq_get(before, interface@)->0;
            after == replace_entry(before, interface@, InterfaceInfo { ssid: None, ..cur })
        },
        NetworkEvent::AddressChanged { interface, added, removed } => {
            let k = interface@;
            if seq_has_key(before, k) {
                let i = seq_index(before, k);
                let cur = before[i].1;
                &&& after.len() == before.len()
                &&& forall|j: int| 0 <= j < before.len() && j != i ==> after[j] == before[j]
                &&& after[i].0 == k
                &&& after[i].1.name == cur.name
                &&& after[i].1.interface_type == cur.interface_type
                &&& after[i].1.is_up == cur.is_up
                &&& after[i].1.ssid == cur.ssid
                &&& after[i].1.addresses@ == merged_addresses(cur.addresses@, added@, removed@)
            } else {
                after == before
            }
        },
        NetworkEvent::RouteChanged { .. } => after == before,
    }
}

/// Which interfaces a listing selects.
pub enum InterfaceFilter {
    /// Interfaces that are up
    Active,
    /// WLAN interfaces
    Wlan,
    /// LAN interfaces
    Lan,
}

/// Whether an interface is selected by a listing.
pub open spec fn selected(f: InterfaceFilter, info: InterfaceInfo) -> bool {
    match f {
        InterfaceFilter::Active => info.is_up,
        InterfaceFilter::Wlan => info.interface_type == InterfaceType::Wlan,
        InterfaceFilter::Lan => info.interface_type == InterfaceType::Lan,
    }
}

/// The interfaces of a table selected by `f`, in table order.
pub open spec fn select_interfaces(s: Seq<(Seq<char>, InterfaceInfo)>, f: InterfaceFilter) -> Seq<InterfaceInfo>
    decreases s.len(),
{
    if s.len() == 0 {
        Seq::empty()
    } else {
        let t = select_interfaces(s.drop_last(), f);
        if selected(f, s.last().1) { t.push(s.last().1) } else { t }
    }
}

/// Network state: the known interfaces, keyed by name, in the order they
/// were first recorded.
#[derive(Debug)]
pub struct NetworkState {
    interfaces: StrMap<InterfaceInfo>,
}

impl View for NetworkState {
    type V = Seq<(Seq<char>, InterfaceInfo)>;

    closed spec fn view(&self) -> Seq<(Seq<char>, InterfaceInfo)> {
        self.interfaces@
    }
}

impl Default for NetworkState {
    fn default() -> (r: Self)
        ensures
            r@.len() == 0,
    {
        NetworkState::new()
    }
}

fn vec_contains(v: &Vec<Cidr>, x: Cidr) -> (r: bool)
    ensures
        r == v@.contains(x),
{
    let n = v.len();
    let mut i: usize = 0;
    while i < n
        invariant
            n == v@.len(),
            i <= n,
            forall|j: int| 0 <= j < i ==> v@[j] != x,
        decreases n - i,
    {
        if v[i] == x {
            return true;
        }
        i = i + 1;
    }
    false
}

fn merge_addresses(current: &Vec<Cidr>, added: &Vec<Cidr>, removed: &Vec<Cidr>) -> (r: Vec<Cidr>)
    ensures
        r@ == merged_addresses(current@, added@, removed@),
{
    let mut out: Vec<Cidr> = Vec::new();
    let n = current.len();
    let mut i: usize = 0;
    while i < n
        invariant
            n == current@.len(),
            i <= n,
            out@ == without_addresses(current@.take(i as int), removed@),
        decreases n - i,
    {
        assert(current@.take(i + 1).drop_last() =~= current@.take(i as int));
        let a = current[i];
        if !vec_contains(removed, a) {
            out.push(a);
        }
        i = i + 1;
    }
    assert(current@.take(n as int) =~= current@);
    let ghost base = out@;
    let m = added.len();
    let mut j: usize = 0;
    while j < m
        invariant
            m == added@.len(),
            j <= m,
            out@ == with_addresses(base, added@.take(j as int)),
        decreases m - j,
    {
        assert(added@.take(j + 1).drop_last() =~= added@.take(j as int));
        let a = added[j];
        if !vec_contains(&out, a) {
            out.push(a);
        }
        j = j + 1;
    }
    assert(added@.take(m as int) =~= added@);
    out
}

impl NetworkState {
    /// An empty network state.
    pub fn new() -> (r: Self)
        ensures
            r@.len() == 0,
    {
        NetworkState { interfaces: StrMap::new() }
    }

    /// All interfaces.
    pub fn interfaces(&self) -> (r: &StrMap<InterfaceInfo>)
        ensures
            r@ == self@,
    {
        &self.interfaces
    }

    /// The interface with the given name, if known.
    pub fn get_interface(&self, name: &str) -> (r: Option<&InterfaceInfo>)
        ensures
            r is Some <==> seq_has_key(self@, name@),
            r matches Some(v) ==> seq_get(self@, name@) == Some(*v),
    {
        self.interfaces.get(name)
    }

    /// Whether an interface with the given name is known.
    pub fn has_interface(&self, name: &str) -> (r: bool)
        ensures
            r == seq_has_key(self@, name@),
    {
        self.interfaces.contains_key(name)
    }

    /// Adds an interface, or replaces the one with the same name.
    pub fn update_interface(&mut self, info: InterfaceInfo)
        ensures
            final(self)@ == if seq_has_key(old(self)@, info.name@) {
                old(self)@.update(seq_index(old(self)@, info.name@), (info.name@, info))
            } else {
                old(self)@.push((info.name@, info))
            },
            forall|q: Seq<char>| #[trigger] seq_get(final(self)@, q) == if q == info.name@ { Some(info) } else { seq_get(old(self)@, q) },
    {
        let key = info.name.clone();
        self.interfaces.insert(key, info);
    }

    /// Removes the interface with the given name; returns it, if known.
    pub fn remove_interface(&mut self, name: &str) -> (r: Option<InterfaceInfo>)
        ensures
            r == seq_get(old(self)@, name@),
            final(self)@ == if seq_has_key(old(self)@, name@) {
                old(self)@.remove(seq_index(old(self)@, name@))
            } else {
                old(self)@
            },
            forall|q: Seq<char>| #[trigger] seq_get(final(self)@, q) == if q == name@ { None } else { seq_get(old(self)@, q) },
    {
        self.interfaces.remove(name)
    }

    fn select(&self, f: InterfaceFilter) -> (r: Vec<&InterfaceInfo>)
        ensures
            r@.map_values(|x: &InterfaceInfo| *x) == select_interfaces(self@, f),
    {
        let mut out: Vec<&InterfaceInfo> = Vec::new();
        let n = self.interfaces.len();
        let mut i: usize = 0;
        while i < n
            invariant
                n == self@.len(),
                i <= n,
                out@.map_values(|x: &InterfaceInfo| *x) == select_interfaces(self@.take(i as int), f),
            decreases n - i,
        {
            assert(self@.take(i + 1).drop_last() =~= self@.take(i as int));
            let info = self.interfaces.value_at(i);
            let keep = match f {
                InterfaceFilter::Active => info.is_up,
                InterfaceFilter::Wlan => info.interface_type == InterfaceType::Wlan,
                InterfaceFilter::Lan => info.interface_type == InterfaceType::Lan,
            };
            if keep {
                out.push(info);
            }
            i = i + 1;
        }
        assert(self@.take(n as int) =~= self@);
        out
    }

    /// All interfaces that are up, in table order.
    pub fn active_interfaces(&self) -> (r: Vec<&InterfaceInfo>)
        ensures
            r@.map_values(|x: &InterfaceInfo| *x) == select_interfaces(self@, InterfaceFilter::Active),
    {
        self.select(InterfaceFilter::Active)
    }

    /// All WLAN interfaces, in table order.
    pub fn wlan_interfaces(&self) -> (r: Vec<&InterfaceInfo>)
        ensures
            r@.map_values(|x: &InterfaceInfo| *x) == select_interfaces(self@, InterfaceFilter::Wlan),
    {
        self.select(InterfaceFilter::Wlan)
    }

    /// All LAN interfaces, in table order.
    pub fn lan_interfaces(&self) -> (r: Vec<&InterfaceInfo>)
        ensures
            r@.map_values(|x: &InterfaceInfo| *x) == select_interfaces(self@, InterfaceFilter::Lan),
    {
        self.select(InterfaceFilter::Lan)
    }

    fn take_entry(&mut self, i: usize) -> (r: InterfaceInfo)
        requires
            i < old(self)@.len(),
        ensures
            r == old(self)@[i as int].1,
            final(self)@.len() == old(self)@.len(),
            final(self)@[i as int].0 == old(self)@[i as int].0,
            forall|j: int| 0 <= j < old(self)@.len() && j != i ==> final(self)@[j] == old(self)@[j],
    {
        let placeholder = InterfaceInfo::new(String::new(), InterfaceType::Lan);
        self.interfaces.replace_value_at(i, placeholder)
    }

    /// Applies a network event to the state. Events about unknown interfaces
    /// leave it unchanged; the call always succeeds.
    pub fn apply_event(&mut self, event: &NetworkEvent) -> (r: crate::error::Result<()>)
        ensures
            r is Ok,
            event_applied(old(self)@, final(self)@, *event),
    {
        match event {
            NetworkEvent::InterfaceChanged { interface, change } => {
                match change {
                    InterfaceChange::Removed => {
                        self.interfaces.remove(interface.as_str());
                    },
                    InterfaceChange::Added => {},
                    _ => {
                        if let Some(i) = self.interfaces.index_of(interface.as_str()) {
                            let mut info = self.take_entry(i);
                            info.is_up = match change {
                                InterfaceChange::Up => true,
                                _ => false,
                            };
                            self.interfaces.replace_value_at(i, info);
                            assert(final(self)@ =~= replace_entry(old(self)@, interface@, info));
                        }
                    },
                }
            },
            NetworkEvent::WifiConnected { interface, ssid } => {
                if let Some(i) = self.interfaces.index_of(interface.as_str()) {
                    let mut info = self.take_entry(i);
                    info.ssid = Some(ssid.clone());
                    info.is_up = true;
                    self.interfaces.replace_value_at(i, info);
                    assert(final(self)@ =~= replace_entry(old(self)@, interface@, info));
                }
            },
            NetworkEvent::WifiDisconnected { interface, .. } => {
                if let Some(i) = self.interfaces.index_of(interface.as_str()) {
                    let mut info = self.take_entry(i);
                    info.ssid = None;
                    self.interfaces.replace_value_at(i, info);
                    assert(final(self)@ =~= replace_entry(old(self)@, interface@, info));
                }
            },
            NetworkEvent::AddressChanged { interface, added, removed } => {
                if let Some(i) = self.interfaces.index_of(interface.as_str()) {
                    let mut info = self.take_entry(i);
                    info.addresses = merge_addresses(&info.addresses, added, removed);
                    self.interfaces.replace_value_at(i, info);
                }
            },
            NetworkEvent::RouteChanged { .. } => {},
        }
        Ok(())
    }
}

} // verus!

verus! {

/// State of one kernel link at one moment.
#[derive(Debug)]
pub struct LinkSnapshot {
    /// Kernel interface index
    pub index: u32,
    /// Interface name
    pub name: String,
    /// Whether the link is up and running
    pub is_up: bool,
}

/// The name a link without a name attribute is known by: "if" and its index.
pub open spec fn fallback_link_name(index: u32) -> Seq<char> {
    "if"@ + decimal(index as nat)
}

fn link_name(index: u32, name: Option<String>) -> (r: String)
    ensures
        r@ == match name {
            Some(n) => n@,
            None => fallback_link_name(index),
        },
{
    match name {
        Some(n) => n,
        None => {
            let mut s = String::from_str("if");
            let d = decimal_string(index as u64);
            s.append(d.as_str());
            s
        },
    }
}

/// A link's snapshot from its kernel attributes: it counts as up only when
/// both the UP and RUNNING flags are set.
pub fn link_snapshot(index: u32, name: Option<String>, flag_up: bool, flag_running: bool) -> (r: LinkSnapshot)
    ensures
        r.index == index,
        r.is_up == (flag_up && flag_running),
        r.name@ == match name {
            Some(n) => n@,
            None => fallback_link_name(index),
        },
{
    LinkSnapshot { index, name: link_name(index, name), is_up: flag_up && flag_running }
}

/// Interface type guessed from the name: names starting with "wl" are WLAN,
/// everything else LAN.
pub open spec fn guessed_type(name: Seq<char>) -> InterfaceType {
    if name.len() >= 2 && name[0] == 'w' && name[1] == 'l' {
        InterfaceType::Wlan
    } else {
        InterfaceType::Lan
    }
}

fn starts_with_wl(s: &str) -> (r: bool)
    ensures
        r == (s@.len() >= 2 && s@[0] == 'w' && s@[1] == 'l'),
{
    let n = s.unicode_len();
    if n < 2 {
        false
    } else {
        s.get_char(0) == 'w' && s.get_char(1) == 'l'
    }
}

/// Interface information for a kernel link: up when the UP flag is set, no
/// addresses, no SSID, type guessed from the name.
pub fn link_to_interface_info(index: u32, name: Option<String>, flag_up: bool) -> (r: InterfaceInfo)
    ensures
        r.name@ == match name {
            Some(n) => n@,
            None => fallback_link_name(index),
        },
        r.interface_type == guessed_type(r.name@),
        r.is_up == flag_up,
        r.addresses@.len() == 0,
        r.ssid is None,
{
    let name = link_name(index, name);
    let interface_type = if starts_with_wl(name.as_str()) { InterfaceType::Wlan } else { InterfaceType::Lan };
    let mut info = InterfaceInfo::new(name, interface_type);
    info.is_up = flag_up;
    info
}

/// The last snapshot in `s` with the given index.
pub open spec fn find_link(s: Seq<LinkSnapshot>, index: u32) -> Option<LinkSnapshot>
    decreases s.len(),
{
    if s.len() == 0 {
        None
    } else if s.last().index == index {
        Some(s.last())
    } else {
        find_link(s.drop_last(), index)
    }
}

/// The change reported for a current link: a state flip of a known link, or
/// a new link that is up.
pub open spec fn current_link_change(prev: Seq<LinkSnapshot>, cur: LinkSnapshot) -> Option<(Seq<char>, InterfaceChange)> {
    match find_link(prev, cur.index) {
        Some(p) => if p.is_up != cur.is_up {
            Some((cur.name@, if cur.is_up { InterfaceChange::Up } else { InterfaceChange::Down }))
        } else {
            None
        },
        None => if cur.is_up { Some((cur.name@, InterfaceChange::Up)) } else { None },
    }
}

/// The change reported for a previous link: removal when it is gone.
pub open spec fn vanished_link_change(cur: Seq<LinkSnapshot>, p: LinkSnapshot) -> Option<(Seq<char>, InterfaceChange)> {
    if find_link(cur, p.index) is None { Some((p.name@, InterfaceChange::Removed)) } else { None }
}

/// The reported changes of the elements of `s`, in order.
pub open spec fn collect_changes(s: Seq<LinkSnapshot>, f: spec_fn(LinkSnapshot) -> Option<(Seq<char>, InterfaceChange)>) -> Seq<(Seq<char>, InterfaceChange)>
    decreases s.len(),
{
    if s.len() == 0 {
        Seq::empty()
    } else {
        let t = collect_changes(s.drop_last(), f);
        match f(s.last()) {
            Some(c) => t.push(c),
            None => t,
        }
    }
}

/// All changes between two link tables: those of current links in order,
/// then removals in the order of the previous table.
pub open spec fn link_changes(prev: Seq<LinkSnapshot>, cur: Seq<LinkSnapshot>) -> Seq<(Seq<char>, InterfaceChange)> {
    collect_changes(cur, |c: LinkSnapshot| current_link_change(prev, c))
        + collect_changes(prev, |p: LinkSnapshot| vanished_link_change(cur, p))
}

/// The (interface, change) pair of an interface change event.
pub open spec fn change_of(e: NetworkEvent) -> (Seq<char>, InterfaceChange) {
    match e {
        NetworkEvent::InterfaceChanged { interface, change } => (interface@, change),
        _ => (Seq::empty(), InterfaceChange::Added),
    }
}

fn find_link_exec(s: &Vec<LinkSnapshot>, index: u32) -> (r: Option<usize>)
    ensures
        r is None <==> find_link(s@, index) is None,
        r matches Some(i) ==> i < s@.len() && find_link(s@, index) == Some(s@[i as int]),
{
    let mut i = s.len();
    assert(s@.take(i as int) =~= s@);
    while i > 0
        invariant
            i <= s@.len(),
            find_link(s@, index) == find_link(s@.take(i as int), index),
        decreases i,
    {
        assert(s@.take(i as int).drop_last() =~= s@.take(i - 1));
        if s[i - 1].index == index {
            return Some(i - 1);
        }
        i = i - 1;
    }
    assert(s@.take(0) =~= Seq::<LinkSnapshot>::empty());
    None
}

fn change_event(name: &String, change: InterfaceChange) -> (r: NetworkEvent)
    ensures
        r is InterfaceChanged,
        change_of(r) == (name@, change),
{
    NetworkEvent::InterfaceChanged { interface: name.clone(), change }
}

/// Each link index is listed once, as in the kernel's link table.
pub open spec fn link_indices_unique(s: Seq<LinkSnapshot>) -> bool {
    forall|i: int, j: int| 0 <= i < s.len() && 0 <= j < s.len() && i != j ==> s[i].index != s[j].index
}

pub proof fn lemma_find_link_member(s: Seq<LinkSnapshot>, j: int)
    requires
        link_indices_unique(s),
        0 <= j < s.len(),
    ensures
        find_link(s, s[j].index) == Some(s[j]),
    decreases s.len(),
{
    if j != s.len() - 1 {
        let t = s.drop_last();
        assert(s.last().index != s[j].index);
        assert(t[j] == s[j]);
        assert(link_indices_unique(t)) by {
            assert forall|a: int, b: int| 0 <= a < t.len() && 0 <= b < t.len() && a != b implies t[a].index != t[b].index by {
                assert(t[a] == s[a] && t[b] == s[b]);
            }
        }
        lemma_find_link_member(t, j);
    }
}

pub proof fn lemma_collect_nothing(s: Seq<LinkSnapshot>, f: spec_fn(LinkSnapshot) -> Option<(Seq<char>, InterfaceChange)>)
    requires
        forall|i: int| 0 <= i < s.len() ==> f(#[trigger] s[i]) is None,
    ensures
        collect_changes(s, f).len() == 0,
    decreases s.len(),
{
    if s.len() > 0 {
        let t = s.drop_last();
        assert forall|i: int| 0 <= i < t.len() implies f(#[trigger] t[i]) is None by {
            assert(t[i] == s[i]);
        }
        lemma_collect_nothing(t, f);
        assert(f(s[s.len() - 1]) is None);
    }
}

/// With each index listed once, comparing a link list with itself finds no
/// change.
pub proof fn lemma_unchanged_links(p: Seq<LinkSnapshot>)
    requires
        link_indices_unique(p),
    ensures
        link_changes(p, p).len() == 0,
{
    let f = |c: LinkSnapshot| current_link_change(p, c);
    let g = |q: LinkSnapshot| vanished_link_change(p, q);
    assert forall|i: int| 0 <= i < p.len() implies f(#[trigger] p[i]) is None && g(p[i]) is None by {
        lemma_find_link_member(p, i);
    }
    lemma_collect_nothing(p, f);
    lemma_collect_nothing(p, g);
    assert(link_changes(p, p) == collect_changes(p, f) + collect_changes(p, g));
}

/// Whether each link index of a listing appears once.
pub fn links_distinct(links: &Vec<LinkSnapshot>) -> (r: bool)
    ensures
        r == link_indices_unique(links@),
{
    let n = links.len();
    let mut i: usize = 0;
    while i < n
        invariant
            n == links@.len(),
            i <= n,
            forall|a: int, b: int| 0 <= a < i && 0 <= b < n && a != b ==> links@[a].index != links@[b].index,
        decreases n - i,
    {
        let mut j: usize = 0;
        while j < n
            invariant
                n == links@.len(),
                i < n,
                j <= n,
                forall|a: int, b: int| 0 <= a < i && 0 <= b < n && a != b ==> links@[a].index != links@[b].index,
                forall|b: int| 0 <= b < j && b != i ==> links@[i as int].index != links@[b].index,
            decreases n - j,
        {
            if j != i && links[i].index == links[j].index {
                assert(!link_indices_unique(links@)) by {
                    assert(links@[i as int].index == links@[j as int].index);
                }
                return false;
            }
            j = j + 1;
        }
        i = i + 1;
    }
    true
}

/// Link-state change detection between polls of the kernel link table.
#[derive(Debug)]
pub struct LinkTracker {
    /// Snapshot taken at the previous poll
    prev_state: Vec<LinkSnapshot>,
    /// Events detected but not handed out yet
    pending: Vec<NetworkEvent>,
}

/// Every event of a sequence is an interface change event.
pub open spec fn all_interface_changes(s: Seq<NetworkEvent>) -> bool {
    forall|i: int| 0 <= i < s.len() ==> (#[trigger] s[i]) is InterfaceChanged
}

impl LinkTracker {
    /// The previous snapshot lists each link index once, as the kernel's link
    /// table does.
    #[verifier::type_invariant]
    spec fn indices_unique(self) -> bool {
        link_indices_unique(self.prev_state@)
    }

    /// A tracker whose previous snapshot is `initial`.
    pub fn new(initial: Vec<LinkSnapshot>) -> (r: Self)
        requires
            link_indices_unique(initial@),
        ensures
            r.previous() == initial@,
            r.pending_events().len() == 0,
    {
        LinkTracker { prev_state: initial, pending: Vec::new() }
    }

    /// The snapshot of the previous poll.
    pub closed spec fn previous(&self) -> Seq<LinkSnapshot> {
        self.prev_state@
    }

    /// Events not handed out yet.
    pub closed spec fn pending_events(&self) -> Seq<NetworkEvent> {
        self.pending@
    }

    /// Compares `current` with the previous snapshot and reports the changes
    /// (see `link_changes`); the events are also queued for `next_event`,
    /// and `current` becomes the previous snapshot.
    pub fn poll_changes(&mut self, current: Vec<LinkSnapshot>) -> (r: Vec<NetworkEvent>)
        requires
            link_indices_unique(current@),
        ensures
            current@ == old(self).previous() ==> r@.len() == 0 && final(self).pending_events() == old(self).pending_events(),
            all_interface_changes(r@),
            r@.map_values(|e: NetworkEvent| change_of(e)) == link_changes(old(self).previous(), current@),
            final(self).previous() == current@,
            final(self).pending_events().len() == old(self).pending_events().len() + r@.len(),
            forall|i: int| 0 <= i < old(self).pending_events().len()
                ==> final(self).pending_events()[i] == old(self).pending_events()[i],
            forall|i: int| 0 <= i < r@.len()
                ==> change_of(#[trigger] final(self).pending_events()[old(self).pending_events().len() + i]) == change_of(r@[i])
                    && final(self).pending_events()[old(self).pending_events().len() + i] is InterfaceChanged,
    {
        proof { use_type_invariant(&*self); }
        let ghost prev = self.prev_state@;
        let ghost old_pending = self.pending@;
        let mut events: Vec<NetworkEvent> = Vec::new();
        let n = current.len();
        let mut i: usize = 0;
        while i < n
            invariant
                n == current@.len(),
                i <= n,
                prev == self.prev_state@,
                all_interface_changes(events@),
                events@.map_values(|e: NetworkEvent| change_of(e))
                    == collect_changes(current@.take(i as int), |c: LinkSnapshot| current_link_change(prev, c)),
            decreases n - i,
        {
            assert(current@.take(i + 1).drop_last() =~= current@.take(i as int));
            let cur = &current[i];
            match find_link_exec(&self.prev_state, cur.index) {
                Some(j) => {
                    let p = &self.prev_state[j];
                    if p.is_up != cur.is_up {
                        let change = if cur.is_up { InterfaceChange::Up } else { InterfaceChange::Down };
                        events.push(change_event(&cur.name, change));
                    }
                },
                None => {
                    if cur.is_up {
                        events.push(change_event(&cur.name, InterfaceChange::Up));
                    }
                },
            }
            assert(events@.map_values(|e: NetworkEvent| change_of(e))
                =~= collect_changes(current@.take(i + 1), |c: LinkSnapshot| current_link_change(prev, c)));
            i = i + 1;
        }
        assert(current@.take(n as int) =~= current@);
        let ghost first = events@.map_values(|e: NetworkEvent| change_of(e));
        let m = self.prev_state.len();
        let mut k: usize = 0;
        while k < m
            invariant
                m == self.prev_state@.len(),
                prev == self.prev_state@,
                k <= m,
                all_interface_changes(events@),
                events@.map_values(|e: NetworkEvent| change_of(e))
                    == first + collect_changes(prev.take(k as int), |p: LinkSnapshot| vanished_link_change(current@, p)),
            decreases m - k,
        {
            assert(prev.take(k + 1).drop_last() =~= prev.take(k as int));
            let p = &self.prev_state[k];
            let ghost before = events@.map_values(|e: NetworkEvent| change_of(e));
            let ghost rest = collect_changes(prev.take(k as int), |p: LinkSnapshot| vanished_link_change(current@, p));
            if find_link_exec(&current, p.index).is_none() {
                events.push(change_event(&p.name, InterfaceChange::Removed));
                assert(events@.map_values(|e: NetworkEvent| change_of(e)) =~= before.push((p.name@, InterfaceChange::Removed)));
                assert(collect_changes(prev.take(k + 1), |p: LinkSnapshot| vanished_link_change(current@, p)) == rest.push((p.name@, InterfaceChange::Removed)));
                assert(first + rest.push((p.name@, InterfaceChange::Removed)) =~= (first + rest).push((p.name@, InterfaceChange::Removed)));
            } else {
                assert(collect_changes(prev.take(k + 1), |p: LinkSnapshot| vanished_link_change(current@, p)) == rest);
            }
            k = k + 1;
        }
        assert(prev.take(m as int) =~= prev);
        proof {
            if current@ == prev {
                lemma_unchanged_links(prev);
            }
        }
        let mut pending: Vec<NetworkEvent> = Vec::new();
        std::mem::swap(&mut pending, &mut self.pending);
        let cnt = events.len();
        let mut t: usize = 0;
        while t < cnt
            invariant
                cnt == events@.len(),
                t <= cnt,
                all_interface_changes(events@),
                pending@.len() == old_pending.len() + t,
                forall|x: int| 0 <= x < old_pending.len() ==> pending@[x] == old_pending[x],
                forall|x: int| 0 <= x < t ==> change_of(#[trigger] pending@[old_pending.len() + x]) == change_of(events@[x])
                    && pending@[old_pending.len() + x] is InterfaceChanged,
            decreases cnt - t,
        {
            let (name, change) = match &events[t] {
                NetworkEvent::InterfaceChanged { interface, change } => (interface, *change),
                _ => {
                    assert(false);
                    return events;
                },
            };
            pending.push(change_event(name, change));
            t = t + 1;
        }
        assert(cnt == 0 ==> pending@ =~= old_pending);
        self.pending = pending;
        self.prev_state = current;
        events
    }

    /// Hands out the oldest queued event, if any.
    pub fn next_event(&mut self) -> (r: Option<NetworkEvent>)
        ensures
            old(self).pending_events().len() == 0 ==> r is None && final(self).pending_events().len() == 0,
            old(self).pending_events().len() > 0 ==> r == Some(old(self).pending_events()[0])
                && final(self).pending_events() == old(self).pending_events().drop_first(),
            final(self).previous() == old(self).previous(),
    {
        proof { use_type_invariant(&*self); }
        if self.pending.len() == 0 {
            None
        } else {
            let mut pending: Vec<NetworkEvent> = Vec::new();
            std::mem::swap(&mut pending, &mut self.pending);
            let e = pending.remove(0);
            assert(pending@ =~= old(self).pending@.drop_first());
            self.pending = pending;
            Some(e)
        }
    }
}

/// NetworkManager monitoring of WiFi associations. No D-Bus query is made:
/// the monitor reports NetworkManager as unavailable and knows no SSID.
#[derive(Debug)]
pub struct NetworkManagerMonitor {
    available: bool,
}

impl NetworkManagerMonitor {
    /// A monitor; NetworkManager is not probed and counts as unavailable.
    pub fn new() -> (r: Self)
        ensures
            !r.spec_available(),
    {
        NetworkManagerMonitor { available: false }
    }

    /// Whether NetworkManager is available.
    pub closed spec fn spec_available(&self) -> bool {
        self.available
    }

    /// Whether NetworkManager is available.
    pub fn is_available(&self) -> (r: bool)
        ensures
            r == self.spec_available(),
    {
        self.available
    }

    /// The SSID of the given interface: none is known.
    pub fn get_ssid(&self, interface: &str) -> (r: crate::error::Result<Option<String>>)
        ensures
            r matches Ok(s) && s is None,
    {
        Ok(None)
    }
}

} // verus!
