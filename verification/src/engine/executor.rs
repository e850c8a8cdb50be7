//! Rule execution: applying and removing route rules through the route
//! manager, and keeping track of the routes that are active.
//!
//! The operations a rule amounts to come from `RuleOperator`. When they have
//! to reach the kernel, the caller carries them out in order and hands the
//! outcome in (`kernel`); the executor decides from it what is tracked.

use vstd::prelude::*;
use vstd::string::StringExecFns;
use crate::config::{RouteRule, WifiProfile, route_rule_error};
use crate::error::{NicAutoSwitchError, config_outcome};
use crate::router::{
    RouteManager, RouteOp, RuleOperator, destination_error, no_connection_message, table_id_overflow_message,
    MAX_TABLE_ID,
};
use crate::strmap::{StrMap, seq_get, seq_has_key, keys_unique};
use crate::text::str_eq;

verus! {

/// Active route entry: the rule, the interface it routes through, and its
/// table.
#[derive(Debug)]
pub struct ActiveRoute {
    /// Rule name
    pub rule_name: String,
    /// Interface used
    pub interface: String,
    /// Table ID
    pub table_id: u32,
}

impl Clone for ActiveRoute {
    fn clone(&self) -> (r: Self)
        ensures
            r == *self,
    {
        ActiveRoute { rule_name: self.rule_name.clone(), interface: self.interface.clone(), table_id: self.table_id }
    }
}

/// What an active route records: rule name, interface and table.
pub type RouteView = (Seq<char>, Seq<char>, u32);

/// The record of an active route entry.
pub open spec fn route_view(a: ActiveRoute) -> RouteView {
    (a.rule_name@, a.interface@, a.table_id)
}

/// The keys of an entry sequence, in order.
pub open spec fn entry_keys<V>(s: Seq<(Seq<char>, V)>) -> Seq<Seq<char>> {
    s.map_values(|e: (Seq<char>, V)| e.0)
}

/// The active routes of an entry sequence, by rule name.
pub open spec fn routes_view(s: Seq<(Seq<char>, ActiveRoute)>) -> Map<Seq<char>, RouteView> {
    Map::new(|k: Seq<char>| seq_has_key(s, k), |k: Seq<char>| route_view(seq_get(s, k)->0))
}

/// With distinct keys, there are as many routes as entries.
pub proof fn lemma_routes_len(s: Seq<(Seq<char>, ActiveRoute)>)
    requires
        keys_unique(s),
    ensures
        routes_view(s).dom().finite(),
        routes_view(s).len() == s.len(),
{
    let ks = entry_keys(s);
    assert(ks.no_duplicates()) by {
        assert forall|i: int, j: int| 0 <= i < ks.len() && 0 <= j < ks.len() && i != j implies ks[i] != ks[j] by {
            assert(ks[i] == s[i].0 && ks[j] == s[j].0);
        }
    }
    assert(routes_view(s).dom() =~= ks.to_set()) by {
        assert forall|k: Seq<char>| routes_view(s).dom().contains(k) <==> ks.to_set().contains(k) by {
            if seq_has_key(s, k) {
                let i = choose|i: int| 0 <= i < s.len() && s[i].0 == k;
                assert(ks[i] == k);
            }
            if ks.contains(k) {
                let i = choose|i: int| 0 <= i < ks.len() && ks[i] == k;
                assert(s[i].0 == k);
            }
        }
    }
    ks.unique_seq_to_set();
    vstd::seq_lib::seq_to_set_is_finite(ks);
}

/// Routes after storing `v` under `k` in the entries.
pub proof fn lemma_routes_insert(s: Seq<(Seq<char>, ActiveRoute)>, t: Seq<(Seq<char>, ActiveRoute)>, k: Seq<char>, v: ActiveRoute)
    requires
        forall|q: Seq<char>| #[trigger] seq_get(t, q) == if q == k { Some(v) } else { seq_get(s, q) },
    ensures
        routes_view(t) == routes_view(s).insert(k, route_view(v)),
{
    assert forall|q: Seq<char>| #![auto] routes_view(t).dom().contains(q) == routes_view(s).insert(k, route_view(v)).dom().contains(q) by {
        assert(seq_get(t, q) == if q == k { Some(v) } else { seq_get(s, q) });
    }
    assert forall|q: Seq<char>| #![auto] routes_view(t).dom().contains(q) implies routes_view(t)[q] == routes_view(s).insert(k, route_view(v))[q] by {
        assert(seq_get(t, q) == if q == k { Some(v) } else { seq_get(s, q) });
    }
    assert(routes_view(t) =~= routes_view(s).insert(k, route_view(v)));
}

/// Routes after dropping the entry of `k`.
pub proof fn lemma_routes_remove(s: Seq<(Seq<char>, ActiveRoute)>, t: Seq<(Seq<char>, ActiveRoute)>, k: Seq<char>)
    requires
        forall|q: Seq<char>| #[trigger] seq_get(t, q) == if q == k { None } else { seq_get(s, q) },
    ensures
        routes_view(t) == routes_view(s).remove(k),
{
    assert forall|q: Seq<char>| #![auto] routes_view(t).dom().contains(q) == routes_view(s).remove(k).dom().contains(q) by {
        assert(seq_get(t, q) == if q == k { None } else { seq_get(s, q) });
    }
    assert forall|q: Seq<char>| #![auto] routes_view(t).dom().contains(q) implies routes_view(t)[q] == routes_view(s).remove(k)[q] by {
        assert(seq_get(t, q) == if q == k { None } else { seq_get(s, q) });
    }
    assert(routes_view(t) =~= routes_view(s).remove(k));
}

/// The routes left after dropping those that use `interface`.
pub open spec fn routes_without_interface(m: Map<Seq<char>, RouteView>, interface: Seq<char>) -> Map<Seq<char>, RouteView> {
    Map::new(|k: Seq<char>| m.dom().contains(k) && m[k].1 != interface, |k: Seq<char>| m[k])
}

/// The rule fails the checks made before applying it.
pub open spec fn rule_fails_check(rule: RouteRule) -> bool {
    route_rule_error(rule) is Some || rule.route_via.interface@.len() == 0
}

/// Applying the rule succeeds: it passes the checks, has a destination
/// network, and the manager is in dry-run mode, or connected with the kernel
/// work succeeding.
pub open spec fn apply_succeeds(rm: RouteManager, rule: RouteRule, kernel_ok: bool) -> bool {
    &&& !rule_fails_check(rule)
    &&& destination_error(rule) is None
    &&& (rm.spec_dry_run() || (rm.spec_connected() && kernel_ok))
}

/// Removing the rule succeeds: it has a destination network, and the manager
/// is in dry-run mode, or connected with a one-byte table and the kernel work
/// succeeding.
pub open spec fn remove_succeeds(rm: RouteManager, rule: RouteRule, table_id: u32, kernel_ok: bool) -> bool {
    &&& destination_error(rule) is None
    &&& (rm.spec_dry_run() || (rm.spec_connected() && table_id <= MAX_TABLE_ID && kernel_ok))
}

/// The record of a rule applied to a table.
pub open spec fn applied_route(rule: RouteRule, table_id: u32) -> RouteView {
    (rule.name@, rule.route_via.interface@, table_id)
}

/// The outcome of two operations carried out in order, `kernel` being the
/// outcome of the kernel work when there is any.
pub open spec fn settle_spec(a: RouteOp, b: RouteOp, kernel: crate::error::Result<()>) -> crate::error::Result<()> {
    match a {
        RouteOp::Fail(e) => Err(e),
        RouteOp::Done => match b {
            RouteOp::Done => Ok(()),
            RouteOp::Fail(e) => Err(e),
            RouteOp::Kernel(_) => kernel,
        },
        RouteOp::Kernel(_) => kernel,
    }
}

/// Number of rules among the first `n` whose application succeeds.
pub open spec fn applied_count(rm: RouteManager, rules: Seq<RouteRule>, kernel: Seq<crate::error::Result<()>>, n: int) -> nat
    decreases n,
{
    if n <= 0 {
        0
    } else {
        applied_count(rm, rules, kernel, n - 1) + if apply_succeeds(rm, rules[n - 1], kernel[n - 1] is Ok) { 1nat } else { 0nat }
    }
}

/// The routes after applying the first `n` rules in order to `table_id`.
pub open spec fn routes_after_rules(
    rm: RouteManager,
    m: Map<Seq<char>, RouteView>,
    rules: Seq<RouteRule>,
    kernel: Seq<crate::error::Result<()>>,
    table_id: u32,
    n: int,
) -> Map<Seq<char>, RouteView>
    decreases n,
{
    if n <= 0 {
        m
    } else {
        let before = routes_after_rules(rm, m, rules, kernel, table_id, n - 1);
        if apply_succeeds(rm, rules[n - 1], kernel[n - 1] is Ok) {
            before.insert(rules[n - 1].name@, applied_route(rules[n - 1], table_id))
        } else {
            before
        }
    }
}

fn clone_outcome(kernel: &crate::error::Result<()>) -> (r: crate::error::Result<()>)
    ensures
        r == *kernel,
{
    match kernel {
        Ok(u) => Ok(*u),
        Err(e) => Err(e.clone()),
    }
}

fn settle(a: RouteOp, b: RouteOp, kernel: &crate::error::Result<()>) -> (r: crate::error::Result<()>)
    ensures
        r == settle_spec(a, b, *kernel),
{
    match a {
        RouteOp::Fail(e) => Err(e),
        RouteOp::Done => match b {
            RouteOp::Done => Ok(()),
            RouteOp::Fail(e) => Err(e),
            RouteOp::Kernel(_) => clone_outcome(kernel),
        },
        RouteOp::Kernel(_) => clone_outcome(kernel),
    }
}

/// Rule executor: the route manager in use and the active routes.
#[derive(Debug)]
pub struct RuleExecutor {
    route_manager: RouteManager,
    active_routes: StrMap<ActiveRoute>,
}

impl RuleExecutor {
    #[verifier::type_invariant]
    spec fn names_match(self) -> bool {
        forall|i: int| 0 <= i < self.active_routes@.len()
            ==> #[trigger] self.active_routes@[i].1.rule_name@ == self.active_routes@[i].0
    }

    /// The route manager in use.
    pub closed spec fn spec_route_manager(self) -> RouteManager {
        self.route_manager
    }

    /// The active routes by rule name.
    pub closed spec fn spec_routes(self) -> Map<Seq<char>, RouteView> {
        routes_view(self.active_routes@)
    }

    /// A rule executor with no active route.
    pub fn new(route_manager: RouteManager) -> (r: Self)
        ensures
            r.spec_route_manager() == route_manager,
            r.spec_routes() == Map::<Seq<char>, RouteView>::empty(),
    {
        let r = RuleExecutor { route_manager, active_routes: StrMap::new() };
        assert(r.spec_routes() =~= Map::<Seq<char>, RouteView>::empty());
        r
    }

    /// The route manager in use.
    pub fn route_manager(&self) -> (r: RouteManager)
        ensures
            r == self.spec_route_manager(),
    {
        self.route_manager
    }

    /// The rule operator working with the route manager in use: it gives the
    /// operations a rule amounts to.
    pub fn operator(&self) -> (r: RuleOperator)
        ensures
            r.spec_route_manager() == self.spec_route_manager(),
    {
        RuleOperator::new(self.route_manager)
    }

    /// Replaces the route manager.
    pub fn set_route_manager(&mut self, rm: RouteManager)
        ensures
            final(self).spec_route_manager() == rm,
            final(self).spec_routes() == old(self).spec_routes(),
    {
        proof { use_type_invariant(&*self); }
        self.route_manager = rm;
    }

    /// Records a route as active under its rule name.
    pub fn track_active_route(&mut self, rule_name: &str, interface: &str, table_id: u32)
        ensures
            final(self).spec_route_manager() == old(self).spec_route_manager(),
            final(self).spec_routes() == old(self).spec_routes().insert(rule_name@, (rule_name@, interface@, table_id)),
    {
        let route = ActiveRoute {
            rule_name: String::from_str(rule_name),
            interface: String::from_str(interface),
            table_id,
        };
        let ghost old_entries = self.active_routes@;
        proof { use_type_invariant(&*self); }
        let mut m: StrMap<ActiveRoute> = StrMap::new();
        std::mem::swap(&mut m, &mut self.active_routes);
        m.insert(String::from_str(rule_name), route);
        proof { lemma_routes_insert(old_entries, m@, rule_name@, route); }
        self.active_routes = m;
    }

    /// Forgets the active route of a rule.
    pub fn untrack_active_route(&mut self, rule_name: &str)
        ensures
            final(self).spec_route_manager() == old(self).spec_route_manager(),
            final(self).spec_routes() == old(self).spec_routes().remove(rule_name@),
    {
        let ghost old_entries = self.active_routes@;
        proof { use_type_invariant(&*self); }
        let mut m: StrMap<ActiveRoute> = StrMap::new();
        std::mem::swap(&mut m, &mut self.active_routes);
        m.remove(rule_name);
        proof {
            assert forall|i: int| 0 <= i < m@.len() implies #[trigger] m@[i].1.rule_name@ == m@[i].0 by {
                if crate::strmap::seq_has_key(old_entries, rule_name@) {
                    let x = crate::strmap::seq_index(old_entries, rule_name@);
                    if i < x {
                        assert(m@[i] == old_entries[i]);
                    } else {
                        assert(m@[i] == old_entries[i + 1]);
                    }
                }
            }
        }
        proof { lemma_routes_remove(old_entries, m@, rule_name@); }
        self.active_routes = m;
    }

    /// Forgets every active route.
    pub fn clear_active_routes(&mut self)
        ensures
            final(self).spec_route_manager() == old(self).spec_route_manager(),
            final(self).spec_routes() == Map::<Seq<char>, RouteView>::empty(),
    {
        self.active_routes = StrMap::new();
        assert(self.spec_routes() =~= Map::<Seq<char>, RouteView>::empty());
    }

    /// Whether a rule has an active route.
    pub fn is_route_active(&self, rule_name: &str) -> (r: bool)
        ensures
            r == self.spec_routes().dom().contains(rule_name@),
    {
        self.active_routes.contains_key(rule_name)
    }

    /// Number of active routes.
    pub fn active_route_count(&self) -> (r: usize)
        ensures
            r == self.spec_routes().len(),
    {
        self.active_routes.keys_distinct();
        proof { lemma_routes_len(self.active_routes@); }
        self.active_routes.len()
    }

    /// The active routes, in the order they were first recorded.
    pub fn active_routes(&self) -> (r: Vec<ActiveRoute>)
        ensures
            r@.len() == self.spec_routes().len(),
            forall|i: int| 0 <= i < r@.len() ==> #[trigger] self.spec_routes().dom().contains(r@[i].rule_name@)
                && self.spec_routes()[r@[i].rule_name@] == route_view(r@[i]),
            forall|i: int, j: int| 0 <= i < j < r@.len() ==> #[trigger] r@[i].rule_name@ != #[trigger] r@[j].rule_name@,
    {
        proof { use_type_invariant(self); }
        self.active_routes.keys_distinct();
        proof { lemma_routes_len(self.active_routes@); }
        let n = self.active_routes.len();
        let mut out: Vec<ActiveRoute> = Vec::new();
        let mut i: usize = 0;
        while i < n
            invariant
                n == self.active_routes@.len(),
                i <= n,
                out@.len() == i,
                forall|j: int| 0 <= j < i ==> #[trigger] out@[j] == self.active_routes@[j].1,
            decreases n - i,
        {
            let v = self.active_routes.value_at(i).clone();
            out.push(v);
            i = i + 1;
        }
        proof {
            let s = self.active_routes@;
            assert forall|j: int| 0 <= j < out@.len() implies #[trigger] self.spec_routes().dom().contains(out@[j].rule_name@)
                && self.spec_routes()[out@[j].rule_name@] == route_view(out@[j]) by {
                crate::strmap::lemma_index_unique(s, j);
                assert(s[j].1.rule_name@ == s[j].0);
            }
            assert forall|a: int, b: int| 0 <= a < b < out@.len() implies #[trigger] out@[a].rule_name@ != #[trigger] out@[b].rule_name@ by {
                assert(s[a].1.rule_name@ == s[a].0);
                assert(s[b].1.rule_name@ == s[b].0);
            }
        }
        out
    }

    /// Applies a rule to `table_id`: checks it, works out its operations (a
    /// policy rule, then a route) and, when they succeed, tracks the route
    /// under the rule's name. `kernel` is the outcome of the kernel work when
    /// the operations need it (see `operator`).
    pub fn apply_rule(
        &mut self,
        rule: &RouteRule,
        interface_index: u8,
        table_id: u32,
        kernel: &crate::error::Result<()>,
    ) -> (r: crate::error::Result<()>)
        ensures
            final(self).spec_route_manager() == old(self).spec_route_manager(),
            (r is Ok) == apply_succeeds(old(self).spec_route_manager(), *rule, kernel is Ok),
            r is Ok ==> final(self).spec_routes() == old(self).spec_routes().insert(rule.name@, applied_route(*rule, table_id)),
            r is Err ==> final(self).spec_routes() == old(self).spec_routes(),
            route_rule_error(*rule) matches Some(m) ==> config_outcome(r, Some(m)),
            (route_rule_error(*rule) is None && rule.route_via.interface@.len() == 0) ==> (r matches Err(NicAutoSwitchError::InvalidInput(m))
                && m@ == "Interface cannot be empty"@),
            !rule_fails_check(*rule) ==> (destination_error(*rule) matches Some(msg) ==> (r matches Err(
                NicAutoSwitchError::InvalidInput(m)) && m@ == msg)),
            (!rule_fails_check(*rule) && destination_error(*rule) is None && !old(self).spec_route_manager().spec_dry_run()
                && !old(self).spec_route_manager().spec_connected()) ==> (r matches Err(NicAutoSwitchError::Route(m))
                && m@ == no_connection_message()),
            (!rule_fails_check(*rule) && destination_error(*rule) is None && !old(self).spec_route_manager().spec_dry_run()
                && old(self).spec_route_manager().spec_connected()) ==> r == *kernel,
    {
        let operator = RuleOperator::new(self.route_manager);
        operator.validate_rule(rule)?;
        let (a, b) = operator.apply_rule(rule, interface_index, table_id)?;
        let outcome = settle(a, b, kernel);
        if outcome.is_ok() {
            self.track_active_route(rule.name.as_str(), rule.route_via.interface.as_str(), table_id);
        }
        outcome
    }

    /// Removes a rule from `table_id`: works out its operations (the policy
    /// rule, then the route) and, when they succeed, forgets the rule's
    /// route. `kernel` is the outcome of the kernel work when the operations
    /// need it.
    pub fn remove_rule(&mut self, rule: &RouteRule, table_id: u32, kernel: &crate::error::Result<()>) -> (r: crate::error::Result<()>)
        ensures
            final(self).spec_route_manager() == old(self).spec_route_manager(),
            (r is Ok) == remove_succeeds(old(self).spec_route_manager(), *rule, table_id, kernel is Ok),
            r is Ok ==> final(self).spec_routes() == old(self).spec_routes().remove(rule.name@),
            r is Err ==> final(self).spec_routes() == old(self).spec_routes(),
            destination_error(*rule) matches Some(msg) ==> (r matches Err(NicAutoSwitchError::InvalidInput(m)) && m@ == msg),
            (destination_error(*rule) is None && !old(self).spec_route_manager().spec_dry_run()
                && !old(self).spec_route_manager().spec_connected()) ==> (r matches Err(NicAutoSwitchError::Route(m))
                && m@ == no_connection_message()),
            (destination_error(*rule) is None && !old(self).spec_route_manager().spec_dry_run()
                && old(self).spec_route_manager().spec_connected() && table_id > MAX_TABLE_ID) ==> (r matches Err(
                NicAutoSwitchError::Route(m)) && m@ == table_id_overflow_message(table_id)),
            (destination_error(*rule) is None && !old(self).spec_route_manager().spec_dry_run()
                && old(self).spec_route_manager().spec_connected() && table_id <= MAX_TABLE_ID) ==> r == *kernel,
    {
        let operator = RuleOperator::new(self.route_manager);
        let (a, b) = operator.remove_rule(rule, table_id)?;
        let outcome = settle(a, b, kernel);
        if outcome.is_ok() {
            self.untrack_active_route(rule.name.as_str());
        }
        outcome
    }

    /// Applies every rule of a WiFi profile to `table_id`, in order; a rule
    /// that fails is skipped. Returns how many were applied. `kernel[i]` is
    /// the outcome of the kernel work for the `i`-th rule.
    pub fn apply_wifi_profile(
        &mut self,
        profile: &WifiProfile,
        interface_index: u8,
        table_id: u32,
        kernel: &Vec<crate::error::Result<()>>,
    ) -> (r: crate::error::Result<usize>)
        requires
            kernel@.len() == profile.rules@.len(),
        ensures
            final(self).spec_route_manager() == old(self).spec_route_manager(),
            r matches Ok(count) && count == applied_count(old(self).spec_route_manager(), profile.rules@, kernel@,
                profile.rules@.len() as int),
            final(self).spec_routes() == routes_after_rules(old(self).spec_route_manager(), old(self).spec_routes(),
                profile.rules@, kernel@, table_id, profile.rules@.len() as int),
    {
        let ghost rm = self.spec_route_manager();
        let ghost start = self.spec_routes();
        let n = profile.rules.len();
        let mut count: usize = 0;
        let mut i: usize = 0;
        while i < n
            invariant
                n == profile.rules@.len(),
                kernel@.len() == n,
                i <= n,
                self.spec_route_manager() == rm,
                count == applied_count(rm, profile.rules@, kernel@, i as int),
                count <= i,
                self.spec_routes() == routes_after_rules(rm, start, profile.rules@, kernel@, table_id, i as int),
            decreases n - i,
        {
            match self.apply_rule(&profile.rules[i], interface_index, table_id, &kernel[i]) {
                Ok(()) => {
                    count = count + 1;
                },
                Err(_) => {},
            }
            i = i + 1;
        }
        Ok(count)
    }

    /// Table ID for IPv4 of an interface index.
    pub fn table_id_v4(&self, index: u8) -> (r: u32)
        ensures
            r == self.spec_route_manager().spec_base_table_id() + index,
    {
        self.route_manager.table_id_v4(index)
    }

    /// Table ID for IPv6 of an interface index.
    pub fn table_id_v6(&self, index: u8) -> (r: u32)
        ensures
            r == crate::router::IPV6_TABLE_START + index,
    {
        self.route_manager.table_id_v6(index)
    }

    /// Forgets the routes through `interface`.
    fn untrack_interface(&mut self, interface: &str)
        ensures
            final(self).spec_route_manager() == old(self).spec_route_manager(),
            final(self).spec_routes() == routes_without_interface(old(self).spec_routes(), interface@),
    {
        proof { use_type_invariant(&*self); }
        self.active_routes.keys_distinct();
        let ghost s = self.active_routes@;
        let n = self.active_routes.len();
        let mut kept: StrMap<ActiveRoute> = StrMap::new();
        let mut i: usize = 0;
        assert(s.take(0) =~= Seq::<(Seq<char>, ActiveRoute)>::empty());
        assert(routes_view(s.take(0)) =~= Map::<Seq<char>, RouteView>::empty());
        assert(routes_view(kept@) =~= routes_without_interface(routes_view(s.take(0)), interface@));
        while i < n
            invariant
                n == s.len(),
                s == self.active_routes@,
                keys_unique(s),
                i <= n,
                forall|j: int| 0 <= j < s.len() ==> #[trigger] s[j].1.rule_name@ == s[j].0,
                forall|j: int| 0 <= j < kept@.len() ==> #[trigger] kept@[j].1.rule_name@ == kept@[j].0,
                routes_view(kept@) == routes_without_interface(routes_view(s.take(i as int)), interface@),
            decreases n - i,
        {
            let key = self.active_routes.key_at(i);
            let value = self.active_routes.value_at(i);
            let ghost before = kept@;
            proof {
                assert(s.take(i + 1) =~= s.take(i as int).push(s[i as int]));
                assert(!seq_has_key(s.take(i as int), s[i as int].0)) by {
                    if seq_has_key(s.take(i as int), s[i as int].0) {
                        let j = choose|j: int| 0 <= j < s.take(i as int).len() && s.take(i as int)[j].0 == s[i as int].0;
                        assert(s[j].0 == s[i as int].0);
                    }
                }
                crate::strmap::lemma_push_fresh(s.take(i as int), s[i as int].0, s[i as int].1);
                lemma_routes_insert(s.take(i as int), s.take(i + 1), s[i as int].0, s[i as int].1);
            }
            if !str_eq(value.interface.as_str(), interface) {
                let k2 = key.clone();
                let v2 = value.clone();
                kept.insert(k2, v2);
                proof {
                    lemma_routes_insert(before, kept@, s[i as int].0, s[i as int].1);
                    assert(routes_view(kept@) =~= routes_without_interface(routes_view(s.take(i + 1)), interface@));
                    assert forall|j: int| 0 <= j < kept@.len() implies #[trigger] kept@[j].1.rule_name@ == kept@[j].0 by {
                        if crate::strmap::seq_has_key(before, s[i as int].0) {
                            let x = crate::strmap::seq_index(before, s[i as int].0);
                            if j != x {
                                assert(kept@[j] == before[j]);
                            }
                        } else if j < before.len() {
                            assert(kept@[j] == before[j]);
                        }
                    }
                }
            } else {
                proof {
                    assert(!routes_view(s.take(i as int)).dom().contains(s[i as int].0));
                    assert(routes_view(kept@) =~= routes_without_interface(routes_view(s.take(i + 1)), interface@));
                }
            }
            i = i + 1;
        }
        assert(s.take(n as int) =~= s);
        self.active_routes = kept;
    }

    /// Flushes the routes through `interface` in `table_id` and forgets the
    /// tracked routes through it. Nothing reaches the kernel in dry-run mode
    /// (no route counted); without connection the flush fails; otherwise
    /// `kernel` is the outcome of the flush (the number of routes removed).
    pub fn flush_interface(&mut self, interface: &str, table_id: u32, kernel: crate::error::Result<usize>) -> (r: crate::error::Result<usize>)
        ensures
            final(self).spec_route_manager() == old(self).spec_route_manager(),
            old(self).spec_route_manager().spec_dry_run() ==> r == Ok::<usize, NicAutoSwitchError>(0),
            (!old(self).spec_route_manager().spec_dry_run() && !old(self).spec_route_manager().spec_connected())
                ==> (r matches Err(NicAutoSwitchError::Route(m)) && m@ == no_connection_message()),
            (!old(self).spec_route_manager().spec_dry_run() && old(self).spec_route_manager().spec_connected()) ==> r == kernel,
            r is Ok ==> final(self).spec_routes() == routes_without_interface(old(self).spec_routes(), interface@),
            r is Err ==> final(self).spec_routes() == old(self).spec_routes(),
    {
        let needs = self.route_manager.needs_kernel();
        let outcome = match needs {
            Err(e) => Err(e),
            Ok(false) => Ok(0),
            Ok(true) => kernel,
        };
        if outcome.is_ok() {
            self.untrack_interface(interface);
        }
        outcome
    }

    /// The active route of a rule, if any.
    pub fn active_route(&self, rule_name: &str) -> (r: Option<&ActiveRoute>)
        ensures
            r is Some <==> self.spec_routes().dom().contains(rule_name@),
            r matches Some(a) ==> route_view(*a) == self.spec_routes()[rule_name@],
    {
        self.active_routes.get(rule_name)
    }
}

} // verus!
