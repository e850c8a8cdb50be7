//! Event dispatcher: reacts to network events by deciding which route rules
//! to apply or remove.
//!
//! Each event is turned into route actions that are queued and carried out
//! in order. An action that needs no kernel work is carried out at once;
//! the first one that does stays at the front of the queue until the caller
//! has carried out its operations (`pending_work`) and reported the outcome
//! (`complete_action`).

use vstd::prelude::*;
use crate::config::{Config, RouteRule, WifiProfile, MatchOn};
use crate::engine::executor::{
    ActiveRoute, RuleExecutor, RouteView, apply_succeeds, remove_succeeds, applied_route, rule_fails_check,
};
use crate::monitor::{
    InterfaceChange, InterfaceInfo, InterfaceType, NetworkEvent, NetworkState, event_applied,
};
use crate::router::{
    RouteManager, RouteOp, destination_error, MAX_TABLE_ID, add_policy_rule_op, add_route_op, remove_policy_rule_op,
    remove_route_op, flush_table_op, is_rule_destination, stale_tables,
};
use crate::net::Cidr;
use crate::strmap::{StrMap, seq_get, seq_has_key, seq_index, keys_unique};

verus! {

/// Event dispatcher state.
#[derive(Debug, Clone, Copy, PartialEq, Eq, Structural)]
pub enum DispatcherState {
    /// Dispatcher is initializing
    Initializing,
    /// Dispatcher is running
    Running,
    /// Dispatcher is stopping
    Stopping,
    /// Dispatcher is stopped
    Stopped,
}

/// Work for the rule executor.
#[derive(Debug)]
pub enum RouteAction {
    /// Apply a rule to a table; with `skip_if_active`, nothing is done when a
    /// rule of that name is already active
    Apply { rule: RouteRule, table_id: u32, skip_if_active: bool },
    /// Remove a rule from a table
    Remove { rule: RouteRule, table_id: u32 },
    /// Flush a table left over by an earlier run (failures are ignored)
    FlushTable { table_id: u32 },
}

/// Whether carrying out the action needs kernel work.
pub open spec fn action_needs_kernel(rm: RouteManager, routes: Map<Seq<char>, RouteView>, a: RouteAction) -> bool {
    &&& !rm.spec_dry_run()
    &&& rm.spec_connected()
    &&& match a {
        RouteAction::Apply { rule, table_id, skip_if_active } => !(skip_if_active && routes.dom().contains(rule.name@))
            && !rule_fails_check(rule) && destination_error(rule) is None,
        RouteAction::Remove { rule, table_id } => destination_error(rule) is None && table_id <= MAX_TABLE_ID,
        RouteAction::FlushTable { table_id } => table_id <= MAX_TABLE_ID,
    }
}

/// The active routes after carrying out the action, `kernel_ok` telling
/// whether its kernel work (if any) succeeded.
pub open spec fn action_result(rm: RouteManager, routes: Map<Seq<char>, RouteView>, a: RouteAction, kernel_ok: bool) -> Map<Seq<char>, RouteView> {
    match a {
        RouteAction::Apply { rule, table_id, skip_if_active } => if skip_if_active && routes.dom().contains(rule.name@) {
            routes
        } else if apply_succeeds(rm, rule, kernel_ok) {
            routes.insert(rule.name@, applied_route(rule, table_id))
        } else {
            routes
        },
        RouteAction::Remove { rule, table_id } => if remove_succeeds(rm, rule, table_id, kernel_ok) {
            routes.remove(rule.name@)
        } else {
            routes
        },
        RouteAction::FlushTable { .. } => routes,
    }
}

/// Carrying out queued actions from the front while they need no kernel
/// work: the routes then, and the actions still queued.
pub open spec fn drain(rm: RouteManager, routes: Map<Seq<char>, RouteView>, q: Seq<RouteAction>) -> (Map<Seq<char>, RouteView>, Seq<RouteAction>)
    decreases q.len(),
{
    if q.len() == 0 || action_needs_kernel(rm, routes, q[0]) {
        (routes, q)
    } else {
        drain(rm, action_result(rm, routes, q[0], true), q.drop_first())
    }
}

/// The index a new interface gets: the number of interfaces seen so far,
/// modulo 256.
pub open spec fn next_index(indices: Seq<(Seq<char>, u8)>) -> u8 {
    (indices.len() % 256) as u8
}

/// The index of an interface: its recorded one, or the next one.
pub open spec fn index_of_interface(indices: Seq<(Seq<char>, u8)>, iface: Seq<char>) -> u8 {
    match seq_get(indices, iface) {
        Some(i) => i,
        None => next_index(indices),
    }
}

/// The indices once the interface has one.
pub open spec fn indices_with(indices: Seq<(Seq<char>, u8)>, iface: Seq<char>) -> Seq<(Seq<char>, u8)> {
    if seq_has_key(indices, iface) {
        indices
    } else {
        indices.push((iface, next_index(indices)))
    }
}

/// The IPv4 table of an interface: the base table plus its index.
pub open spec fn table_for(rm: RouteManager, indices: Seq<(Seq<char>, u8)>, iface: Seq<char>) -> u32 {
    (rm.spec_base_table_id() + index_of_interface(indices, iface)) as u32
}

/// Apply actions for a list of rules, in order.
pub open spec fn apply_actions(rules: Seq<RouteRule>, table_id: u32, skip_if_active: bool) -> Seq<RouteAction> {
    rules.map_values(|r: RouteRule| RouteAction::Apply { rule: r, table_id, skip_if_active })
}

/// Applying the default rules for an interface: none when there are no
/// default rules; otherwise each default rule, skipped when already active,
/// in the interface's table.
pub open spec fn default_plan(cfg: Config, rm: RouteManager, indices: Seq<(Seq<char>, u8)>, iface: Seq<char>) -> (Seq<RouteAction>, Seq<(Seq<char>, u8)>) {
    if cfg.routing.default_rules@.len() == 0 {
        (Seq::empty(), indices)
    } else {
        (apply_actions(cfg.routing.default_rules@, table_for(rm, indices, iface), true), indices_with(indices, iface))
    }
}

/// Applying the rules for an interface on a network: the rules of the WiFi
/// profile of the SSID, when there is one, in the interface's table; the
/// default rules otherwise.
pub open spec fn interface_plan(cfg: Config, rm: RouteManager, indices: Seq<(Seq<char>, u8)>, iface: Seq<char>, ssid: Option<Seq<char>>) -> (Seq<RouteAction>, Seq<(Seq<char>, u8)>) {
    match ssid {
        Some(s) => match cfg.wifi_profiles.spec_get(s) {
            Some(p) => (apply_actions(p.rules@, table_for(rm, indices, iface), false), indices_with(indices, iface)),
            None => default_plan(cfg, rm, indices, iface),
        },
        None => default_plan(cfg, rm, indices, iface),
    }
}

/// The rules of the WiFi profiles, profile after profile.
pub open spec fn profile_rules(s: Seq<(Seq<char>, WifiProfile)>) -> Seq<RouteRule>
    decreases s.len(),
{
    if s.len() == 0 {
        Seq::empty()
    } else {
        profile_rules(s.drop_last()) + s.last().1.rules@
    }
}

/// Every configured rule: the default rules, then the rules of each WiFi
/// profile.
pub open spec fn all_rules(cfg: Config) -> Seq<RouteRule> {
    cfg.routing.default_rules@ + profile_rules(cfg.wifi_profiles@)
}

/// No later rule has the same name: this is the rule the name stands for.
pub open spec fn last_with_name(rules: Seq<RouteRule>, i: int) -> bool {
    forall|j: int| i < j < rules.len() ==> #[trigger] rules[j].name@ != rules[i].name@
}

/// Removing the active routes through an interface: for each rule name that
/// a configured rule stands for (in configuration order), when its route is
/// active through the interface, that rule is removed from the route's
/// table.
pub open spec fn down_plan(rules: Seq<RouteRule>, routes: Map<Seq<char>, RouteView>, iface: Seq<char>, n: int) -> Seq<RouteAction>
    decreases n,
{
    if n <= 0 {
        Seq::empty()
    } else {
        let p = down_plan(rules, routes, iface, n - 1);
        let rule = rules[n - 1];
        if last_with_name(rules, n - 1) && routes.dom().contains(rule.name@) && routes[rule.name@].1 == iface {
            p.push(RouteAction::Remove { rule, table_id: routes[rule.name@].2 })
        } else {
            p
        }
    }
}

/// The SSIDs by interface.
pub open spec fn ssids_view(s: Seq<(Seq<char>, String)>) -> Map<Seq<char>, Seq<char>> {
    Map::new(|k: Seq<char>| seq_has_key(s, k), |k: Seq<char>| (seq_get(s, k)->0)@)
}

/// SSIDs after storing `v` under `k`.
proof fn lemma_ssids_insert(s: Seq<(Seq<char>, String)>, t: Seq<(Seq<char>, String)>, k: Seq<char>, v: String)
    requires
        forall|q: Seq<char>| #[trigger] seq_get(t, q) == if q == k { Some(v) } else { seq_get(s, q) },
    ensures
        ssids_view(t) == ssids_view(s).insert(k, v@),
{
    assert forall|q: Seq<char>| #![auto] ssids_view(t).dom().contains(q) == ssids_view(s).insert(k, v@).dom().contains(q) by {
        assert(seq_get(t, q) == if q == k { Some(v) } else { seq_get(s, q) });
    }
    assert forall|q: Seq<char>| #![auto] ssids_view(t).dom().contains(q) implies ssids_view(t)[q] == ssids_view(s).insert(k, v@)[q] by {
        assert(seq_get(t, q) == if q == k { Some(v) } else { seq_get(s, q) });
    }
    assert(ssids_view(t) =~= ssids_view(s).insert(k, v@));
}

/// SSIDs after dropping the entry of `k`.
proof fn lemma_ssids_remove(s: Seq<(Seq<char>, String)>, t: Seq<(Seq<char>, String)>, k: Seq<char>)
    requires
        forall|q: Seq<char>| #[trigger] seq_get(t, q) == if q == k { None } else { seq_get(s, q) },
    ensures
        ssids_view(t) == ssids_view(s).remove(k),
{
    assert forall|q: Seq<char>| #![auto] ssids_view(t).dom().contains(q) == ssids_view(s).remove(k).dom().contains(q) by {
        assert(seq_get(t, q) == if q == k { None } else { seq_get(s, q) });
    }
    assert forall|q: Seq<char>| #![auto] ssids_view(t).dom().contains(q) implies ssids_view(t)[q] == ssids_view(s).remove(k)[q] by {
        assert(seq_get(t, q) == if q == k { None } else { seq_get(s, q) });
    }
    assert(ssids_view(t) =~= ssids_view(s).remove(k));
}

/// The SSID of an interface, if connected.
pub open spec fn ssid_of(m: Map<Seq<char>, Seq<char>>, iface: Seq<char>) -> Option<Seq<char>> {
    if m.dom().contains(iface) {
        Some(m[iface])
    } else {
        None
    }
}

/// What an event leads to: the actions to queue, the SSIDs and the
/// interface indices afterwards. `net` is the network state once the event
/// is applied to it.
pub open spec fn event_plan(
    cfg: Config,
    rm: RouteManager,
    routes: Map<Seq<char>, RouteView>,
    ssids: Map<Seq<char>, Seq<char>>,
    indices: Seq<(Seq<char>, u8)>,
    net: Seq<(Seq<char>, InterfaceInfo)>,
    event: NetworkEvent,
) -> (Seq<RouteAction>, Map<Seq<char>, Seq<char>>, Seq<(Seq<char>, u8)>) {
    match event {
        NetworkEvent::InterfaceChanged { interface, change } => match change {
            InterfaceChange::Down | InterfaceChange::Removed => (
                down_plan(all_rules(cfg), routes, interface@, all_rules(cfg).len() as int),
                ssids,
                indices,
            ),
            InterfaceChange::Up => match seq_get(net, interface@) {
                Some(info) => if info.is_up && !ssids.dom().contains(interface@) {
                    let (p, ind) = default_plan(cfg, rm, indices, interface@);
                    (p, ssids, ind)
                } else {
                    (Seq::empty(), ssids, indices)
                },
                None => (Seq::empty(), ssids, indices),
            },
            InterfaceChange::Added => (Seq::empty(), ssids, indices),
        },
        NetworkEvent::WifiConnected { interface, ssid } => {
            let (p, ind) = interface_plan(cfg, rm, indices, interface@, Some(ssid@));
            (p, ssids.insert(interface@, ssid@), ind)
        },
        NetworkEvent::WifiDisconnected { interface, .. } => {
            let (p, ind) = default_plan(cfg, rm, indices, interface@);
            (p, ssids.remove(interface@), ind)
        },
        NetworkEvent::AddressChanged { interface, .. } => {
            let (p, ind) = interface_plan(cfg, rm, indices, interface@, ssid_of(ssids, interface@));
            (p, ssids, ind)
        },
        NetworkEvent::RouteChanged { .. } => (Seq::empty(), ssids, indices),
    }
}

/// The indices given to the configured interfaces at creation: the `i`-th
/// gets `i`, for the first 255.
pub open spec fn initial_indices(keys: Seq<Seq<char>>) -> Seq<(Seq<char>, u8)> {
    Seq::new(if keys.len() < 255 { keys.len() } else { 255 }, |i: int| (keys[i], i as u8))
}

/// The indices after a configuration change, over the first `n` configured
/// interfaces, and the next free index: an interface keeps its index; a new
/// one gets the next index while it is below 255. The next index starts at
/// the number of interfaces indexed before (modulo 256).
pub open spec fn rebuilt_indices(existing: Seq<(Seq<char>, u8)>, keys: Seq<Seq<char>>, n: int) -> (Seq<(Seq<char>, u8)>, int)
    decreases n,
{
    if n <= 0 {
        (Seq::empty(), existing.len() as int % 256)
    } else {
        let (acc, next) = rebuilt_indices(existing, keys, n - 1);
        match seq_get(existing, keys[n - 1]) {
            Some(i) => (acc.push((keys[n - 1], i)), next),
            None => if next < 255 {
                (acc.push((keys[n - 1], next as u8)), next + 1)
            } else {
                (acc, next)
            },
        }
    }
}

/// Flushing each of the given tables.
pub open spec fn flush_actions(tables: Seq<u32>) -> Seq<RouteAction> {
    tables.map_values(|t: u32| RouteAction::FlushTable { table_id: t })
}

/// The default rules for each of the first `n` interfaces that is up and
/// configured, in order, and the indices afterwards.
pub open spec fn initial_plan(cfg: Config, rm: RouteManager, infos: Seq<InterfaceInfo>, indices: Seq<(Seq<char>, u8)>, n: int) -> (Seq<RouteAction>, Seq<(Seq<char>, u8)>)
    decreases n,
{
    if n <= 0 {
        (Seq::empty(), indices)
    } else {
        let (p, ind) = initial_plan(cfg, rm, infos, indices, n - 1);
        let info = infos[n - 1];
        if info.is_up && cfg.interfaces.spec_contains(info.name@) {
            let (p2, ind2) = default_plan(cfg, rm, ind, info.name@);
            (p + p2, ind2)
        } else {
            (p, ind)
        }
    }
}

/// Two interface records agree on every field.
pub open spec fn same_info(a: InterfaceInfo, b: InterfaceInfo) -> bool {
    &&& a.name == b.name
    &&& a.interface_type == b.interface_type
    &&& a.addresses@ == b.addresses@
    &&& a.is_up == b.is_up
    &&& a.ssid == b.ssid
}

/// Position of the last of the first `n` records named `q`.
pub open spec fn last_info_index(infos: Seq<InterfaceInfo>, q: Seq<char>, n: int) -> Option<int>
    decreases n,
{
    if n <= 0 {
        None
    } else if infos[n - 1].name@ == q {
        Some(n - 1)
    } else {
        last_info_index(infos, q, n - 1)
    }
}

/// The network state `t` is `s` with each record of `infos` stored in turn.
pub open spec fn recorded_infos(s: Seq<(Seq<char>, InterfaceInfo)>, t: Seq<(Seq<char>, InterfaceInfo)>, infos: Seq<InterfaceInfo>, n: int) -> bool {
    forall|q: Seq<char>| #![trigger seq_get(t, q)] match last_info_index(infos, q, n) {
        Some(i) => seq_get(t, q) matches Some(x) && same_info(x, infos[i]),
        None => seq_get(t, q) == seq_get(s, q),
    }
}

/// Event dispatcher: configuration, network state, rule executor, current
/// SSIDs, interface indices, state, and the queue of route actions.
#[derive(Debug)]
pub struct EventDispatcher {
    config: Config,
    network_state: NetworkState,
    executor: RuleExecutor,
    current_ssids: StrMap<String>,
    interface_indices: StrMap<u8>,
    state: DispatcherState,
    queue: Vec<RouteAction>,
}

impl EventDispatcher {
    /// Configuration in use.
    pub closed spec fn spec_config(self) -> Config {
        self.config
    }

    /// Network state.
    pub closed spec fn spec_network(self) -> Seq<(Seq<char>, InterfaceInfo)> {
        self.network_state@
    }

    /// Route manager in use.
    pub closed spec fn spec_rm(self) -> RouteManager {
        self.executor.spec_route_manager()
    }

    /// Active routes.
    pub closed spec fn spec_routes(self) -> Map<Seq<char>, RouteView> {
        self.executor.spec_routes()
    }

    /// Current SSIDs by interface.
    pub closed spec fn spec_ssids(self) -> Map<Seq<char>, Seq<char>> {
        ssids_view(self.current_ssids@)
    }

    /// Interface indices, in the order they were assigned.
    pub closed spec fn spec_indices(self) -> Seq<(Seq<char>, u8)> {
        self.interface_indices@
    }

    /// Dispatcher state.
    pub closed spec fn spec_state(self) -> DispatcherState {
        self.state
    }

    /// Route actions waiting for kernel work, front first.
    pub closed spec fn spec_queue(self) -> Seq<RouteAction> {
        self.queue@
    }

    /// The current state.
    pub fn state(&self) -> (r: DispatcherState)
        ensures
            r == self.spec_state(),
    {
        self.state
    }

    /// Starts the dispatcher (nothing changes when already running).
    pub fn start(&mut self)
        ensures
            final(self).spec_state() == DispatcherState::Running,
            final(self).spec_config() == old(self).spec_config(),
            final(self).spec_network() == old(self).spec_network(),
            final(self).spec_rm() == old(self).spec_rm(),
            final(self).spec_routes() == old(self).spec_routes(),
            final(self).spec_ssids() == old(self).spec_ssids(),
            final(self).spec_indices() == old(self).spec_indices(),
            final(self).spec_queue() == old(self).spec_queue(),
    {
        if self.state == DispatcherState::Running {
            return;
        }
        self.state = DispatcherState::Running;
    }

    /// Stops the dispatcher: forgets every active route and drops the
    /// queued actions.
    pub fn stop(&mut self)
        ensures
            final(self).spec_state() == DispatcherState::Stopped,
            final(self).spec_routes() == Map::<Seq<char>, RouteView>::empty(),
            final(self).spec_queue() == Seq::<RouteAction>::empty(),
            final(self).spec_config() == old(self).spec_config(),
            final(self).spec_network() == old(self).spec_network(),
            final(self).spec_rm() == old(self).spec_rm(),
            final(self).spec_ssids() == old(self).spec_ssids(),
            final(self).spec_indices() == old(self).spec_indices(),
    {
        self.state = DispatcherState::Stopping;
        self.executor.clear_active_routes();
        self.queue = Vec::new();
        self.state = DispatcherState::Stopped;
    }

    /// Whether the action needs kernel work now.
    fn needs_kernel(&self, a: &RouteAction) -> (r: bool)
        ensures
            r == action_needs_kernel(self.spec_rm(), self.spec_routes(), *a),
    {
        let rm = self.executor.route_manager();
        if rm.is_dry_run() || !rm.is_connected() {
            return false;
        }
        match a {
            RouteAction::Apply { rule, table_id, skip_if_active } => {
                if *skip_if_active && self.executor.is_route_active(rule.name.as_str()) {
                    false
                } else {
                    passes_checks(rule) && has_destination(rule)
                }
            },
            RouteAction::Remove { rule, table_id } => has_destination(rule) && *table_id <= MAX_TABLE_ID,
            RouteAction::FlushTable { table_id } => *table_id <= MAX_TABLE_ID,
        }
    }

    /// Carries out an action; `kernel` is the outcome of its kernel work.
    fn run_action(&mut self, a: &RouteAction, kernel: &crate::error::Result<()>)
        ensures
            final(self).spec_routes() == action_result(old(self).spec_rm(), old(self).spec_routes(), *a, kernel is Ok),
            final(self).spec_rm() == old(self).spec_rm(),
            final(self).spec_config() == old(self).spec_config(),
            final(self).spec_network() == old(self).spec_network(),
            final(self).spec_ssids() == old(self).spec_ssids(),
            final(self).spec_indices() == old(self).spec_indices(),
            final(self).spec_state() == old(self).spec_state(),
            final(self).spec_queue() == old(self).spec_queue(),
    {
        match a {
            RouteAction::Apply { rule, table_id, skip_if_active } => {
                if *skip_if_active && self.executor.is_route_active(rule.name.as_str()) {
                } else {
                    let _ = self.executor.apply_rule(rule, 0, *table_id, kernel);
                }
            },
            RouteAction::Remove { rule, table_id } => {
                let _ = self.executor.remove_rule(rule, *table_id, kernel);
            },
            RouteAction::FlushTable { .. } => {},
        }
    }

    /// Carries out queued actions from the front while they need no kernel
    /// work.
    fn drain_queue(&mut self)
        ensures
            (final(self).spec_routes(), final(self).spec_queue()) == drain(old(self).spec_rm(), old(self).spec_routes(), old(self).spec_queue()),
            final(self).spec_rm() == old(self).spec_rm(),
            final(self).spec_config() == old(self).spec_config(),
            final(self).spec_network() == old(self).spec_network(),
            final(self).spec_ssids() == old(self).spec_ssids(),
            final(self).spec_indices() == old(self).spec_indices(),
            final(self).spec_state() == old(self).spec_state(),
    {
        let ghost rm = self.spec_rm();
        let ghost goal = drain(rm, self.spec_routes(), self.spec_queue());
        let ghost cfg = self.spec_config();
        let ghost net = self.spec_network();
        let ghost ssids = self.spec_ssids();
        let ghost indices = self.spec_indices();
        let ghost st = self.spec_state();
        loop
            invariant
                self.spec_rm() == rm,
                drain(rm, self.spec_routes(), self.spec_queue()) == goal,
                self.spec_config() == cfg,
                self.spec_network() == net,
                self.spec_ssids() == ssids,
                self.spec_indices() == indices,
                self.spec_state() == st,
            ensures
                (self.spec_routes(), self.spec_queue()) == goal,
                self.spec_rm() == rm,
                self.spec_config() == cfg,
                self.spec_network() == net,
                self.spec_ssids() == ssids,
                self.spec_indices() == indices,
                self.spec_state() == st,
            decreases self.spec_queue().len(),
        {
            if self.queue.len() == 0 {
                break;
            }
            if self.needs_kernel(&self.queue[0]) {
                break;
            }
            let ghost q = self.spec_queue();
            let ghost routes = self.spec_routes();
            let a = self.queue.remove(0);
            assert(self.spec_queue() =~= q.drop_first());
            self.run_action(&a, &Ok(()));
        }
    }

    /// The IPv4 table of an interface, assigning it the next index when it
    /// has none.
    fn table_id_for_interface(&mut self, interface: &str) -> (r: u32)
        ensures
            r == table_for(old(self).spec_rm(), old(self).spec_indices(), interface@),
            final(self).spec_indices() == indices_with(old(self).spec_indices(), interface@),
            final(self).spec_config() == old(self).spec_config(),
            final(self).spec_network() == old(self).spec_network(),
            final(self).spec_rm() == old(self).spec_rm(),
            final(self).spec_routes() == old(self).spec_routes(),
            final(self).spec_ssids() == old(self).spec_ssids(),
            final(self).spec_state() == old(self).spec_state(),
            final(self).spec_queue() == old(self).spec_queue(),
    {
        let idx: u8 = match self.interface_indices.get(interface) {
            Some(i) => *i,
            None => {
                let i: u8 = (self.interface_indices.len() % 256) as u8;
                self.interface_indices.insert(String::from_str(interface), i);
                i
            },
        };
        self.executor.table_id_v4(idx)
    }

    /// Apply actions for `rules`, in order.
    fn apply_actions_for(rules: &Vec<RouteRule>, table_id: u32, skip_if_active: bool) -> (r: Vec<RouteAction>)
        ensures
            r@ == apply_actions(rules@, table_id, skip_if_active),
    {
        let n = rules.len();
        let mut out: Vec<RouteAction> = Vec::new();
        let mut i: usize = 0;
        while i < n
            invariant
                n == rules@.len(),
                i <= n,
                out@.len() == i,
                forall|j: int| 0 <= j < i ==> #[trigger] out@[j] == (RouteAction::Apply { rule: rules@[j], table_id, skip_if_active }),
            decreases n - i,
        {
            out.push(RouteAction::Apply { rule: rules[i].clone(), table_id, skip_if_active });
            i = i + 1;
        }
        assert(out@ =~= apply_actions(rules@, table_id, skip_if_active));
        out
    }

    /// Actions applying the default rules for an interface.
    fn plan_default_rules(&mut self, interface: &str) -> (r: Vec<RouteAction>)
        ensures
            (r@, final(self).spec_indices()) == default_plan(old(self).spec_config(), old(self).spec_rm(), old(self).spec_indices(), interface@),
            final(self).spec_config() == old(self).spec_config(),
            final(self).spec_network() == old(self).spec_network(),
            final(self).spec_rm() == old(self).spec_rm(),
            final(self).spec_routes() == old(self).spec_routes(),
            final(self).spec_ssids() == old(self).spec_ssids(),
            final(self).spec_state() == old(self).spec_state(),
            final(self).spec_queue() == old(self).spec_queue(),
    {
        if self.config.routing.default_rules.len() == 0 {
            return Vec::new();
        }
        let table_id = self.table_id_for_interface(interface);
        Self::apply_actions_for(&self.config.routing.default_rules, table_id, true)
    }

    /// Actions applying the rules for an interface on the network `ssid`.
    fn plan_rules_for_interface(&mut self, interface: &str, ssid: Option<&str>) -> (r: Vec<RouteAction>)
        ensures
            (r@, final(self).spec_indices()) == interface_plan(old(self).spec_config(), old(self).spec_rm(), old(self).spec_indices(),
                interface@, match ssid { Some(s) => Some(s@), None => None }),
            final(self).spec_config() == old(self).spec_config(),
            final(self).spec_network() == old(self).spec_network(),
            final(self).spec_rm() == old(self).spec_rm(),
            final(self).spec_routes() == old(self).spec_routes(),
            final(self).spec_ssids() == old(self).spec_ssids(),
            final(self).spec_state() == old(self).spec_state(),
            final(self).spec_queue() == old(self).spec_queue(),
    {
        if let Some(s) = ssid {
            if let Some(i) = self.config.wifi_profiles.index_of(s) {
                let table_id = self.table_id_for_interface(interface);
                let profile = self.config.wifi_profiles.value_at(i);
                return Self::apply_actions_for(&profile.rules, table_id, false);
            }
        }
        self.plan_default_rules(interface)
    }

    /// Every configured rule (see `all_rules`).
    fn all_rules_vec(&self) -> (r: Vec<RouteRule>)
        ensures
            r@ == all_rules(self.spec_config()),
    {
        let defaults = &self.config.routing.default_rules;
        let mut out: Vec<RouteRule> = Vec::new();
        let n = defaults.len();
        let mut i: usize = 0;
        while i < n
            invariant
                n == defaults@.len(),
                i <= n,
                out@ == defaults@.take(i as int),
            decreases n - i,
        {
            out.push(defaults[i].clone());
            assert(out@ =~= defaults@.take(i + 1));
            i = i + 1;
        }
        assert(defaults@.take(n as int) =~= defaults@);
        let profiles = &self.config.wifi_profiles;
        let ghost ps = profiles@;
        let m = profiles.len();
        let mut k: usize = 0;
        assert(ps.take(0) =~= Seq::<(Seq<char>, WifiProfile)>::empty());
        assert(out@ =~= defaults@ + profile_rules(ps.take(0)));
        while k < m
            invariant
                m == ps.len(),
                ps == profiles@,
                k <= m,
                out@ == defaults@ + profile_rules(ps.take(k as int)),
            decreases m - k,
        {
            let rules = &profiles.value_at(k).rules;
            let ghost before = out@;
            let r = rules.len();
            let mut j: usize = 0;
            while j < r
                invariant
                    r == rules@.len(),
                    j <= r,
                    out@ == before + rules@.take(j as int),
                decreases r - j,
            {
                out.push(rules[j].clone());
                assert(out@ =~= before + rules@.take(j + 1));
                j = j + 1;
            }
            proof {
                assert(rules@.take(r as int) =~= rules@);
                assert(ps.take(k + 1).drop_last() =~= ps.take(k as int));
                assert(ps.take(k + 1).last() == ps[k as int]);
                assert(out@ =~= defaults@ + profile_rules(ps.take(k + 1)));
            }
            k = k + 1;
        }
        assert(ps.take(m as int) =~= ps);
        out
    }

    /// Whether no later rule has the same name as rule `i`.
    fn is_last_with_name(rules: &Vec<RouteRule>, i: usize) -> (r: bool)
        requires
            i < rules@.len(),
        ensures
            r == last_with_name(rules@, i as int),
    {
        let n = rules.len();
        let mut j: usize = i + 1;
        while j < n
            invariant
                n == rules@.len(),
                i < j <= n,
                forall|q: int| i < q < j ==> #[trigger] rules@[q].name@ != rules@[i as int].name@,
            decreases n - j,
        {
            if crate::text::str_eq(rules[j].name.as_str(), rules[i].name.as_str()) {
                return false;
            }
            j = j + 1;
        }
        true
    }

    /// Actions removing the active routes through an interface.
    fn plan_interface_down(&self, interface: &str) -> (r: Vec<RouteAction>)
        ensures
            r@ == down_plan(all_rules(self.spec_config()), self.spec_routes(), interface@, all_rules(self.spec_config()).len() as int),
    {
        let rules = self.all_rules_vec();
        let n = rules.len();
        let mut out: Vec<RouteAction> = Vec::new();
        let mut i: usize = 0;
        while i < n
            invariant
                n == rules@.len(),
                rules@ == all_rules(self.spec_config()),
                i <= n,
                out@ == down_plan(rules@, self.spec_routes(), interface@, i as int),
            decreases n - i,
        {
            if Self::is_last_with_name(&rules, i) {
                match self.executor.active_route(rules[i].name.as_str()) {
                    Some(route) => {
                        if crate::text::str_eq(route.interface.as_str(), interface) {
                            out.push(RouteAction::Remove { rule: rules[i].clone(), table_id: route.table_id });
                        }
                    },
                    None => {},
                }
            }
            i = i + 1;
        }
        out
    }

    /// Queues actions and carries out those that need no kernel work.
    fn enqueue_and_drain(&mut self, plan: Vec<RouteAction>)
        ensures
            (final(self).spec_routes(), final(self).spec_queue())
                == drain(old(self).spec_rm(), old(self).spec_routes(), old(self).spec_queue() + plan@),
            final(self).spec_rm() == old(self).spec_rm(),
            final(self).spec_config() == old(self).spec_config(),
            final(self).spec_network() == old(self).spec_network(),
            final(self).spec_ssids() == old(self).spec_ssids(),
            final(self).spec_indices() == old(self).spec_indices(),
            final(self).spec_state() == old(self).spec_state(),
    {
        let mut plan = plan;
        let ghost q0 = self.queue@;
        let ghost p0 = plan@;
        self.queue.append(&mut plan);
        assert(self.queue@ =~= q0 + p0);
        self.drain_queue();
    }

    /// Handles a network event: nothing happens unless the dispatcher is
    /// running; otherwise the event is applied to the network state and the
    /// route actions it leads to (see `event_plan`) are queued and carried
    /// out as far as no kernel work is needed. Always succeeds.
    pub fn handle_event(&mut self, event: &NetworkEvent) -> (r: crate::error::Result<()>)
        ensures
            r is Ok,
            final(self).spec_config() == old(self).spec_config(),
            final(self).spec_rm() == old(self).spec_rm(),
            final(self).spec_state() == old(self).spec_state(),
            old(self).spec_state() != DispatcherState::Running ==> {
                &&& final(self).spec_network() == old(self).spec_network()
                &&& final(self).spec_routes() == old(self).spec_routes()
                &&& final(self).spec_ssids() == old(self).spec_ssids()
                &&& final(self).spec_indices() == old(self).spec_indices()
                &&& final(self).spec_queue() == old(self).spec_queue()
            },
            old(self).spec_state() == DispatcherState::Running ==> {
                let (plan, ssids, indices) = event_plan(old(self).spec_config(), old(self).spec_rm(), old(self).spec_routes(),
                    old(self).spec_ssids(), old(self).spec_indices(), final(self).spec_network(), *event);
                &&& event_applied(old(self).spec_network(), final(self).spec_network(), *event)
                &&& final(self).spec_ssids() == ssids
                &&& final(self).spec_indices() == indices
                &&& (final(self).spec_routes(), final(self).spec_queue())
                    == drain(old(self).spec_rm(), old(self).spec_routes(), old(self).spec_queue() + plan)
            },
    {
        if self.state != DispatcherState::Running {
            return Ok(());
        }
        self.network_state.apply_event(event)?;
        let plan: Vec<RouteAction> = match event {
            NetworkEvent::InterfaceChanged { interface, change } => match change {
                InterfaceChange::Down | InterfaceChange::Removed => self.plan_interface_down(interface.as_str()),
                InterfaceChange::Up => {
                    let apply = match self.network_state.get_interface(interface.as_str()) {
                        Some(info) => info.is_up && !self.current_ssids.contains_key(interface.as_str()),
                        None => false,
                    };
                    if apply {
                        self.plan_default_rules(interface.as_str())
                    } else {
                        Vec::new()
                    }
                },
                InterfaceChange::Added => Vec::new(),
            },
            NetworkEvent::WifiConnected { interface, ssid } => {
                let ghost before = self.current_ssids@;
                let value = String::from_str(ssid.as_str());
                let ghost v = value;
                self.current_ssids.insert(String::from_str(interface.as_str()), value);
                proof { lemma_ssids_insert(before, self.current_ssids@, interface@, v); }
                self.plan_rules_for_interface(interface.as_str(), Some(ssid.as_str()))
            },
            NetworkEvent::WifiDisconnected { interface, .. } => {
                let ghost before = self.current_ssids@;
                self.current_ssids.remove(interface.as_str());
                proof { lemma_ssids_remove(before, self.current_ssids@, interface@); }
                self.plan_default_rules(interface.as_str())
            },
            NetworkEvent::AddressChanged { interface, .. } => {
                let current: Option<String> = match self.current_ssids.get(interface.as_str()) {
                    Some(s) => Some(s.clone()),
                    None => None,
                };
                match current {
                    Some(s) => self.plan_rules_for_interface(interface.as_str(), Some(s.as_str())),
                    None => self.plan_rules_for_interface(interface.as_str(), None),
                }
            },
            NetworkEvent::RouteChanged { .. } => Vec::new(),
        };
        self.enqueue_and_drain(plan);
        Ok(())
    }

    /// A dispatcher for a configuration: each configured interface gets its
    /// position as index (the first 255 of them).
    pub fn new(config: Config, route_manager: RouteManager) -> (r: Self)
        ensures
            r.spec_config() == config,
            r.spec_network().len() == 0,
            r.spec_rm() == route_manager,
            r.spec_routes() == Map::<Seq<char>, RouteView>::empty(),
            r.spec_ssids() == Map::<Seq<char>, Seq<char>>::empty(),
            r.spec_indices() == initial_indices(crate::engine::executor::entry_keys(config.interfaces@)),
            r.spec_state() == DispatcherState::Initializing,
            r.spec_queue() == Seq::<RouteAction>::empty(),
    {
        config.interfaces.keys_distinct();
        let ghost keys = crate::engine::executor::entry_keys(config.interfaces@);
        let mut indices: StrMap<u8> = StrMap::new();
        let n = config.interfaces.len();
        let mut i: usize = 0;
        while i < n && i < 255
            invariant
                n == config.interfaces@.len(),
                keys == crate::engine::executor::entry_keys(config.interfaces@),
                keys_unique(config.interfaces@),
                i <= n,
                i <= 255,
                indices@ == Seq::new(i as nat, |j: int| (keys[j], j as u8)),
            decreases n - i,
        {
            let key = config.interfaces.key_at(i);
            proof {
                assert(!seq_has_key(indices@, keys[i as int])) by {
                    if seq_has_key(indices@, keys[i as int]) {
                        let j = choose|j: int| 0 <= j < indices@.len() && indices@[j].0 == keys[i as int];
                        assert(config.interfaces@[j].0 == config.interfaces@[i as int].0);
                    }
                }
            }
            indices.insert(key.clone(), i as u8);
            assert(indices@ =~= Seq::new((i + 1) as nat, |j: int| (keys[j], j as u8)));
            i = i + 1;
        }
        assert(indices@ =~= initial_indices(keys));
        let d = EventDispatcher {
            config,
            network_state: NetworkState::new(),
            executor: RuleExecutor::new(route_manager),
            current_ssids: StrMap::new(),
            interface_indices: indices,
            state: DispatcherState::Initializing,
            queue: Vec::new(),
        };
        assert(d.spec_ssids() =~= Map::<Seq<char>, Seq<char>>::empty());
        d
    }

    /// Replaces the configuration; interfaces keep their index, new ones get
    /// the next free index (see `rebuilt_indices`), and interfaces no longer
    /// configured lose theirs.
    pub fn update_config(&mut self, config: Config)
        ensures
            final(self).spec_config() == config,
            final(self).spec_indices() == rebuilt_indices(old(self).spec_indices(),
                crate::engine::executor::entry_keys(config.interfaces@), config.interfaces@.len() as int).0,
            final(self).spec_network() == old(self).spec_network(),
            final(self).spec_rm() == old(self).spec_rm(),
            final(self).spec_routes() == old(self).spec_routes(),
            final(self).spec_ssids() == old(self).spec_ssids(),
            final(self).spec_state() == old(self).spec_state(),
            final(self).spec_queue() == old(self).spec_queue(),
    {
        config.interfaces.keys_distinct();
        let ghost keys = crate::engine::executor::entry_keys(config.interfaces@);
        let ghost existing = self.interface_indices@;
        let mut new_indices: StrMap<u8> = StrMap::new();
        let mut next_idx: u8 = (self.interface_indices.len() % 256) as u8;
        let n = config.interfaces.len();
        let mut i: usize = 0;
        while i < n
            invariant
                n == config.interfaces@.len(),
                keys == crate::engine::executor::entry_keys(config.interfaces@),
                keys_unique(config.interfaces@),
                existing == self.interface_indices@,
                i <= n,
                new_indices@ == rebuilt_indices(existing, keys, i as int).0,
                next_idx as int == rebuilt_indices(existing, keys, i as int).1,
                forall|j: int| 0 <= j < new_indices@.len() ==> exists|k: int| 0 <= k < i && #[trigger] new_indices@[j].0 == keys[k],
            decreases n - i,
        {
            let key = config.interfaces.key_at(i);
            proof {
                assert(!seq_has_key(new_indices@, keys[i as int])) by {
                    if seq_has_key(new_indices@, keys[i as int]) {
                        let j = choose|j: int| 0 <= j < new_indices@.len() && new_indices@[j].0 == keys[i as int];
                        let k = choose|k: int| 0 <= k < i && new_indices@[j].0 == keys[k];
                        assert(config.interfaces@[k].0 == config.interfaces@[i as int].0);
                    }
                }
            }
            let ghost before = new_indices@;
            match self.interface_indices.get(key.as_str()) {
                Some(idx) => {
                    new_indices.insert(key.clone(), *idx);
                },
                None => {
                    if next_idx < 255 {
                        new_indices.insert(key.clone(), next_idx);
                        next_idx = next_idx + 1;
                    }
                },
            }
            proof {
                assert forall|j: int| 0 <= j < new_indices@.len() implies exists|k: int| 0 <= k < i + 1 && #[trigger] new_indices@[j].0 == keys[k] by {
                    if j < before.len() {
                        assert(new_indices@[j] == before[j]);
                        let k = choose|k: int| 0 <= k < i && before[j].0 == keys[k];
                        assert(new_indices@[j].0 == keys[k]);
                    } else {
                        assert(new_indices@[j].0 == keys[i as int]);
                    }
                }
            }
            i = i + 1;
        }
        self.interface_indices = new_indices;
        self.config = config;
    }

    /// Replaces the route manager of the executor.
    pub fn set_route_manager(&mut self, rm: RouteManager)
        ensures
            final(self).spec_rm() == rm,
            final(self).spec_routes() == old(self).spec_routes(),
            final(self).spec_config() == old(self).spec_config(),
            final(self).spec_network() == old(self).spec_network(),
            final(self).spec_ssids() == old(self).spec_ssids(),
            final(self).spec_indices() == old(self).spec_indices(),
            final(self).spec_state() == old(self).spec_state(),
            final(self).spec_queue() == old(self).spec_queue(),
    {
        self.executor.set_route_manager(rm);
    }

    /// The route manager of the executor.
    pub fn route_manager(&self) -> (r: RouteManager)
        ensures
            r == self.spec_rm(),
    {
        self.executor.route_manager()
    }

    /// The SSID an interface is connected to, if any.
    pub fn current_ssid(&self, interface: &str) -> (r: Option<String>)
        ensures
            r is Some <==> self.spec_ssids().dom().contains(interface@),
            r matches Some(s) ==> s@ == self.spec_ssids()[interface@],
    {
        match self.current_ssids.get(interface) {
            Some(s) => Some(s.clone()),
            None => None,
        }
    }

    /// Records the SSID an interface is connected to.
    pub fn record_ssid(&mut self, interface: &str, ssid: &str)
        ensures
            final(self).spec_ssids() == old(self).spec_ssids().insert(interface@, ssid@),
            final(self).spec_config() == old(self).spec_config(),
            final(self).spec_network() == old(self).spec_network(),
            final(self).spec_rm() == old(self).spec_rm(),
            final(self).spec_routes() == old(self).spec_routes(),
            final(self).spec_indices() == old(self).spec_indices(),
            final(self).spec_state() == old(self).spec_state(),
            final(self).spec_queue() == old(self).spec_queue(),
    {
        let ghost before = self.current_ssids@;
        let value = String::from_str(ssid);
        let ghost v = value;
        self.current_ssids.insert(String::from_str(interface), value);
        proof { lemma_ssids_insert(before, self.current_ssids@, interface@, v); }
    }

    /// The network state.
    pub fn network_state(&self) -> (r: &NetworkState)
        ensures
            r@ == self.spec_network(),
    {
        &self.network_state
    }

    /// Replaces the network state.
    pub fn replace_network_state(&mut self, state: NetworkState)
        ensures
            final(self).spec_network() == state@,
            final(self).spec_config() == old(self).spec_config(),
            final(self).spec_rm() == old(self).spec_rm(),
            final(self).spec_routes() == old(self).spec_routes(),
            final(self).spec_ssids() == old(self).spec_ssids(),
            final(self).spec_indices() == old(self).spec_indices(),
            final(self).spec_state() == old(self).spec_state(),
            final(self).spec_queue() == old(self).spec_queue(),
    {
        self.network_state = state;
    }

    /// The configuration in use.
    pub fn config(&self) -> (r: &Config)
        ensures
            *r == self.spec_config(),
    {
        &self.config
    }

    /// The active routes (see `RuleExecutor::active_routes`).
    pub fn active_routes(&self) -> (r: Vec<ActiveRoute>)
        ensures
            r@.len() == self.spec_routes().len(),
            forall|i: int| 0 <= i < r@.len() ==> #[trigger] self.spec_routes().dom().contains(r@[i].rule_name@)
                && self.spec_routes()[r@[i].rule_name@] == crate::engine::executor::route_view(r@[i]),
            forall|i: int, j: int| 0 <= i < j < r@.len() ==> #[trigger] r@[i].rule_name@ != #[trigger] r@[j].rule_name@,
    {
        self.executor.active_routes()
    }

    /// The operations of the action waiting at the front of the queue, for
    /// the caller to carry out in order.
    pub fn pending_work(&self) -> (r: Option<(RouteOp, RouteOp)>)
        ensures
            self.spec_queue().len() == 0 ==> r is None,
            self.spec_queue().len() > 0 ==> match self.spec_queue()[0] {
                RouteAction::Apply { rule, table_id, .. } => if destination_error(rule) is None {
                    r matches Some((a, b)) && exists|c: Cidr| is_rule_destination(rule, c)
                        && add_policy_rule_op(self.spec_rm(), a, Some(c), None, table_id, rule.priority)
                        && add_route_op(self.spec_rm(), b, c, None, rule.route_via.interface@, table_id, rule.priority)
                } else {
                    r is None
                },
                RouteAction::Remove { rule, table_id } => if destination_error(rule) is None {
                    r matches Some((a, b)) && exists|c: Cidr| is_rule_destination(rule, c)
                        && remove_policy_rule_op(self.spec_rm(), a, Some(c), None, table_id, rule.priority)
                        && remove_route_op(self.spec_rm(), b, c, table_id)
                } else {
                    r is None
                },
                RouteAction::FlushTable { table_id } => r matches Some((a, b)) && flush_table_op(self.spec_rm(), a, table_id) && b is Done,
            },
    {
        if self.queue.len() == 0 {
            return None;
        }
        let operator = self.executor.operator();
        match &self.queue[0] {
            RouteAction::Apply { rule, table_id, .. } => match operator.apply_rule(rule, 0, *table_id) {
                Ok(ops) => Some(ops),
                Err(_) => None,
            },
            RouteAction::Remove { rule, table_id } => match operator.remove_rule(rule, *table_id) {
                Ok(ops) => Some(ops),
                Err(_) => None,
            },
            RouteAction::FlushTable { table_id } => {
                let rm = self.executor.route_manager();
                Some((rm.flush_table_complete(*table_id), RouteOp::Done))
            },
        }
    }

    /// Reports the outcome of the kernel work of the front action: the action
    /// is carried out with it, then the following actions as far as they
    /// need no kernel work. Nothing happens when the queue is empty.
    pub fn complete_action(&mut self, kernel: crate::error::Result<()>)
        ensures
            old(self).spec_queue().len() == 0 ==> final(self).spec_routes() == old(self).spec_routes()
                && final(self).spec_queue() == old(self).spec_queue(),
            old(self).spec_queue().len() > 0 ==> (final(self).spec_routes(), final(self).spec_queue()) == drain(
                old(self).spec_rm(),
                action_result(old(self).spec_rm(), old(self).spec_routes(), old(self).spec_queue()[0], kernel is Ok),
                old(self).spec_queue().drop_first(),
            ),
            final(self).spec_config() == old(self).spec_config(),
            final(self).spec_network() == old(self).spec_network(),
            final(self).spec_rm() == old(self).spec_rm(),
            final(self).spec_ssids() == old(self).spec_ssids(),
            final(self).spec_indices() == old(self).spec_indices(),
            final(self).spec_state() == old(self).spec_state(),
    {
        if self.queue.len() == 0 {
            return;
        }
        let ghost q = self.queue@;
        let a = self.queue.remove(0);
        assert(self.queue@ =~= q.drop_first());
        self.run_action(&a, &kernel);
        self.drain_queue();
    }

    /// Number of actions waiting.
    pub fn pending_count(&self) -> (r: usize)
        ensures
            r == self.spec_queue().len(),
    {
        self.queue.len()
    }

    /// Applies the start-up state: records the current interfaces, flushes
    /// the tables earlier runs may have filled, then applies the default
    /// rules for every interface that is up and configured. Always succeeds.
    pub fn apply_initial_state(&mut self, interfaces: &Vec<InterfaceInfo>) -> (r: crate::error::Result<()>)
        ensures
            r is Ok,
            recorded_infos(old(self).spec_network(), final(self).spec_network(), interfaces@, interfaces@.len() as int),
            ({
                let (plan, indices) = initial_plan(old(self).spec_config(), old(self).spec_rm(), interfaces@,
                    old(self).spec_indices(), interfaces@.len() as int);
                &&& final(self).spec_indices() == indices
                &&& (final(self).spec_routes(), final(self).spec_queue()) == drain(old(self).spec_rm(), old(self).spec_routes(),
                    old(self).spec_queue() + flush_actions(stale_tables(old(self).spec_rm().spec_base_table_id())) + plan)
            }),
            final(self).spec_config() == old(self).spec_config(),
            final(self).spec_rm() == old(self).spec_rm(),
            final(self).spec_ssids() == old(self).spec_ssids(),
            final(self).spec_state() == old(self).spec_state(),
    {
        let ghost net0 = self.spec_network();
        let n = interfaces.len();
        let mut i: usize = 0;
        while i < n
            invariant
                n == interfaces@.len(),
                i <= n,
                recorded_infos(net0, self.spec_network(), interfaces@, i as int),
                self.spec_config() == old(self).spec_config(),
                self.spec_rm() == old(self).spec_rm(),
                self.spec_routes() == old(self).spec_routes(),
                self.spec_ssids() == old(self).spec_ssids(),
                self.spec_indices() == old(self).spec_indices(),
                self.spec_state() == old(self).spec_state(),
                self.spec_queue() == old(self).spec_queue(),
            decreases n - i,
        {
            let ghost before = self.spec_network();
            let info = interfaces[i].clone();
            let ghost copy = info;
            self.network_state.update_interface(info);
            proof {
                assert forall|q: Seq<char>| #![trigger seq_get(self.spec_network(), q)] match last_info_index(interfaces@, q, i + 1) {
                    Some(x) => seq_get(self.spec_network(), q) matches Some(y) && same_info(y, interfaces@[x]),
                    None => seq_get(self.spec_network(), q) == seq_get(net0, q),
                } by {
                    assert(seq_get(self.spec_network(), q) == if q == copy.name@ { Some(copy) } else { seq_get(before, q) });
                    assert(seq_get(before, q) == seq_get(before, q));
                }
            }
            i = i + 1;
        }
        let tables = self.executor.route_manager().stale_table_ids();
        let mut plan: Vec<RouteAction> = Vec::new();
        let t = tables.len();
        let mut k: usize = 0;
        while k < t
            invariant
                t == tables@.len(),
                k <= t,
                plan@ == flush_actions(tables@.take(k as int)),
            decreases t - k,
        {
            plan.push(RouteAction::FlushTable { table_id: tables[k] });
            assert(plan@ =~= flush_actions(tables@.take(k + 1)));
            k = k + 1;
        }
        assert(tables@.take(t as int) =~= tables@);
        let ghost flushes = plan@;
        let ghost ind0 = self.spec_indices();
        let ghost net1 = self.spec_network();
        let mut j: usize = 0;
        while j < n
            invariant
                n == interfaces@.len(),
                j <= n,
                plan@ == flushes + initial_plan(self.spec_config(), self.spec_rm(), interfaces@, ind0, j as int).0,
                self.spec_indices() == initial_plan(self.spec_config(), self.spec_rm(), interfaces@, ind0, j as int).1,
                self.spec_config() == old(self).spec_config(),
                self.spec_rm() == old(self).spec_rm(),
                self.spec_routes() == old(self).spec_routes(),
                self.spec_ssids() == old(self).spec_ssids(),
                self.spec_state() == old(self).spec_state(),
                self.spec_queue() == old(self).spec_queue(),
                self.spec_network() == net1,
                recorded_infos(net0, net1, interfaces@, n as int),
                ind0 == old(self).spec_indices(),
                flushes == flush_actions(stale_tables(old(self).spec_rm().spec_base_table_id())),
            decreases n - j,
        {
            let info = &interfaces[j];
            if info.is_up && self.config.interfaces.contains_key(info.name.as_str()) {
                let ghost before = plan@;
                let mut more = self.plan_default_rules(info.name.as_str());
                let ghost added = more@;
                plan.append(&mut more);
                assert(plan@ =~= before + added);
            }
            j = j + 1;
        }
        let ghost q0 = self.spec_queue();
        let ghost ip = initial_plan(self.spec_config(), self.spec_rm(), interfaces@, ind0, n as int).0;
        assert(q0 + plan@ =~= q0 + flushes + ip);
        self.enqueue_and_drain(plan);
        Ok(())
    }
}

/// How handling `event` turns dispatcher `before` into `after`: outside the
/// running state nothing changes but the network table stays too; while
/// running, the event is applied to the network table, the SSIDs and indices
/// follow `event_plan`, and its actions join the queue, which is then drained
/// of what needs no kernel work. Configuration, route manager and state stay.
pub open spec fn event_handled(before: EventDispatcher, after: EventDispatcher, event: NetworkEvent) -> bool {
    &&& after.spec_config() == before.spec_config()
    &&& after.spec_rm() == before.spec_rm()
    &&& after.spec_state() == before.spec_state()
    &&& before.spec_state() != DispatcherState::Running ==> {
        &&& after.spec_network() == before.spec_network()
        &&& after.spec_routes() == before.spec_routes()
        &&& after.spec_ssids() == before.spec_ssids()
        &&& after.spec_indices() == before.spec_indices()
        &&& after.spec_queue() == before.spec_queue()
    }
    &&& before.spec_state() == DispatcherState::Running ==> {
        let (plan, ssids, indices) = event_plan(before.spec_config(), before.spec_rm(), before.spec_routes(),
            before.spec_ssids(), before.spec_indices(), after.spec_network(), event);
        &&& event_applied(before.spec_network(), after.spec_network(), event)
        &&& after.spec_ssids() == ssids
        &&& after.spec_indices() == indices
        &&& (after.spec_routes(), after.spec_queue())
            == drain(before.spec_rm(), before.spec_routes(), before.spec_queue() + plan)
    }
}

/// How reporting the kernel outcome of the front action turns dispatcher
/// `before` into `after`: with an empty queue nothing changes; otherwise the
/// front action is carried out with that outcome and the rest of the queue
/// drained of what needs no kernel work. Everything else stays.
pub open spec fn action_completed(before: EventDispatcher, after: EventDispatcher, kernel_ok: bool) -> bool {
    &&& before.spec_queue().len() == 0 ==> after.spec_routes() == before.spec_routes()
        && after.spec_queue() == before.spec_queue()
    &&& before.spec_queue().len() > 0 ==> (after.spec_routes(), after.spec_queue()) == drain(
        before.spec_rm(),
        action_result(before.spec_rm(), before.spec_routes(), before.spec_queue()[0], kernel_ok),
        before.spec_queue().drop_first(),
    )
    &&& after.spec_config() == before.spec_config()
    &&& after.spec_network() == before.spec_network()
    &&& after.spec_rm() == before.spec_rm()
    &&& after.spec_ssids() == before.spec_ssids()
    &&& after.spec_indices() == before.spec_indices()
    &&& after.spec_state() == before.spec_state()
}


/// The rule passes the checks made before applying it.
fn passes_checks(rule: &RouteRule) -> (r: bool)
    ensures
        r == !rule_fails_check(*rule),
{
    rule.validate().is_ok() && !rule.route_via.interface.as_str().is_empty()
}

/// The rule has a destination network (it matches a CIDR or an address).
fn has_destination(rule: &RouteRule) -> (r: bool)
    ensures
        r == (destination_error(*rule) is None),
{
    match &rule.match_on {
        MatchOn::Cidr { .. } => true,
        MatchOn::Ip { .. } => true,
        _ => false,
    }
}

} // verus!
