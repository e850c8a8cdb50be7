//! Properties of the library as a whole, stated over the specifications its
//! functions are verified against.

use vstd::prelude::*;
use crate::config::RouteRule;
use crate::engine::dispatcher::{
    RouteAction, action_needs_kernel, action_result, apply_actions, default_plan, drain, index_of_interface,
    indices_with, initial_plan, rebuilt_indices, table_for, all_rules, profile_rules, down_plan, last_with_name,
    event_plan,
};
use crate::config::{Config, WifiProfile};
use crate::monitor::{InterfaceChange, InterfaceInfo};
use crate::engine::executor::{RouteView, apply_succeeds, applied_route, remove_succeeds, rule_fails_check};
use crate::engine::matcher::{
    Destination, best_match, is_best_match, is_priority_sort, rule_matches_spec, stable_sort_witness,
    wildcard_matches, star_byte,
};
use crate::monitor::{
    LinkSnapshot, NetworkEvent, event_applied, lemma_unchanged_links, link_changes, link_indices_unique,
    merged_addresses, with_addresses, without_addresses,
};
use crate::engine::matcher::first_resolved_match;
use crate::net::{Cidr, IpAddress};
use crate::router::{
    KernelRequest, RouteManager, RouteOp, add_policy_rule_op, destination_error, remove_policy_rule_op, MAX_TABLE_ID,
};
use crate::strmap::{seq_get, seq_has_key, seq_index, keys_unique};

verus! {

/// The rule chosen for a destination matches it, and no matching rule has a
/// lower priority (a lower number wins).
pub proof fn law_best_match_has_lowest_priority(rules: Seq<RouteRule>, dest: Destination)
    ensures
        best_match(rules, dest) matches Some(i) ==> {
            &&& 0 <= i < rules.len()
            &&& rule_matches_spec(rules[i], dest)
            &&& forall|j: int| 0 <= j < rules.len() && #[trigger] rule_matches_spec(rules[j], dest)
                ==> rules[i].priority <= rules[j].priority
        },
{
    if exists|i: int| is_best_match(rules, dest, i) {
        let i = choose|i: int| is_best_match(rules, dest, i);
        assert(is_best_match(rules, dest, i));
    }
}

/// When some rule matches, a rule is chosen, whatever its priority.
pub proof fn law_best_match_exists(rules: Seq<RouteRule>, dest: Destination, k: int)
    requires
        0 <= k < rules.len(),
        rule_matches_spec(rules[k], dest),
    ensures
        best_match(rules, dest) is Some,
    decreases rules.len(),
{
    // The first matching rule of the lowest priority wins.
    assert(rule_matches_spec(rules[k], dest));
    lemma_lowest(rules, dest, rules.len() as int);
    let low = lowest_matching_priority(rules, dest, rules.len() as int);
    let p = low->0;
    lemma_first(rules, dest, p, rules.len() as int);
    let i = first_with_priority(rules, dest, p, rules.len() as int);
    assert(p <= rules[k].priority);
    assert(is_best_match(rules, dest, i));
}

/// The lowest priority among the matching rules of the first `n`.
spec fn lowest_matching_priority(rules: Seq<RouteRule>, dest: Destination, n: int) -> Option<u32>
    decreases n,
{
    if n <= 0 {
        None
    } else {
        let before = lowest_matching_priority(rules, dest, n - 1);
        if rule_matches_spec(rules[n - 1], dest) {
            match before {
                Some(p) => if rules[n - 1].priority < p { Some(rules[n - 1].priority) } else { Some(p) },
                None => Some(rules[n - 1].priority),
            }
        } else {
            before
        }
    }
}

proof fn lemma_lowest(rules: Seq<RouteRule>, dest: Destination, n: int)
    requires
        0 <= n <= rules.len(),
    ensures
        (exists|j: int| 0 <= j < n && rule_matches_spec(rules[j], dest)) ==> lowest_matching_priority(rules, dest, n) is Some,
        lowest_matching_priority(rules, dest, n) matches Some(p) ==> {
            &&& exists|j: int| 0 <= j < n && #[trigger] rule_matches_spec(rules[j], dest) && rules[j].priority == p
            &&& forall|j: int| 0 <= j < n && #[trigger] rule_matches_spec(rules[j], dest) ==> p <= rules[j].priority
        },
    decreases n,
{
    if n > 0 {
        lemma_lowest(rules, dest, n - 1);
        if rule_matches_spec(rules[n - 1], dest) {
            assert(rule_matches_spec(rules[n - 1], dest) && rules[n - 1].priority == rules[n - 1].priority);
        }
    }
}

/// Position of the first matching rule of priority `p` among the first `n`.
spec fn first_with_priority(rules: Seq<RouteRule>, dest: Destination, p: u32, n: int) -> int
    decreases n,
{
    if n <= 0 {
        -1
    } else {
        let before = first_with_priority(rules, dest, p, n - 1);
        if before >= 0 {
            before
        } else if rule_matches_spec(rules[n - 1], dest) && rules[n - 1].priority == p {
            n - 1
        } else {
            -1
        }
    }
}

proof fn lemma_first(rules: Seq<RouteRule>, dest: Destination, p: u32, n: int)
    requires
        0 <= n <= rules.len(),
    ensures
        (exists|j: int| 0 <= j < n && #[trigger] rule_matches_spec(rules[j], dest) && rules[j].priority == p) ==> {
            let i = first_with_priority(rules, dest, p, n);
            &&& 0 <= i < n
            &&& rule_matches_spec(rules[i], dest)
            &&& rules[i].priority == p
            &&& forall|j: int| 0 <= j < i && #[trigger] rule_matches_spec(rules[j], dest) ==> rules[j].priority != p
        },
        !(exists|j: int| 0 <= j < n && #[trigger] rule_matches_spec(rules[j], dest) && rules[j].priority == p)
            ==> first_with_priority(rules, dest, p, n) == -1,
    decreases n,
{
    if n > 0 {
        lemma_first(rules, dest, p, n - 1);
        if rule_matches_spec(rules[n - 1], dest) && rules[n - 1].priority == p {
            assert(rule_matches_spec(rules[n - 1], dest) && rules[n - 1].priority == p);
        }
    }
}

/// All rules found for a destination come sorted by priority, each rule
/// found exactly once.
pub proof fn law_found_rules_sorted(rules: Seq<RouteRule>, order: Seq<usize>, sorted: Seq<usize>)
    requires
        is_priority_sort(rules, order, sorted),
    ensures
        sorted.len() == order.len(),
        forall|a: int, b: int| #![trigger sorted[a], sorted[b]]
            0 <= a < b < sorted.len() ==> rules[sorted[a] as int].priority <= rules[sorted[b] as int].priority,
        forall|k: int| 0 <= k < order.len() ==> #[trigger] sorted.contains(order[k]),
{
    let perm = choose|perm: Seq<int>| stable_sort_witness(rules, order, sorted, perm);
    assert forall|k: int| 0 <= k < order.len() implies #[trigger] sorted.contains(order[k]) by {
        // `perm` is injective from positions of `sorted` into positions of
        // `order`, and both have the same length, so it reaches `k`.
        lemma_injective_onto(perm, order.len() as int, k);
        let a = choose|a: int| 0 <= a < perm.len() && perm[a] == k;
        assert(sorted[a] == order[perm[a]]);
    }
}

/// An injective map from `n` positions into `n` positions reaches every
/// position.
proof fn lemma_injective_onto(perm: Seq<int>, n: int, k: int)
    requires
        perm.len() == n,
        forall|a: int| 0 <= a < n ==> 0 <= #[trigger] perm[a] < n,
        forall|a: int, b: int| 0 <= a < b < n ==> #[trigger] perm[a] != #[trigger] perm[b],
        0 <= k < n,
    ensures
        exists|a: int| 0 <= a < perm.len() && perm[a] == k,
{
    if !(exists|a: int| 0 <= a < perm.len() && perm[a] == k) {
        let img = perm.to_set();
        let range = Set::new(|x: int| 0 <= x < n && x != k);
        assert(img.subset_of(range));
        vstd::set_lib::lemma_int_range(0, n);
        assert(range =~= vstd::set_lib::set_int_range(0, n).remove(k));
        assert(perm.no_duplicates()) by {
            assert forall|a: int, b: int| 0 <= a < perm.len() && 0 <= b < perm.len() && a != b implies perm[a] != perm[b] by {
                if a < b {
                } else {
                }
            }
        }
        perm.unique_seq_to_set();
        vstd::set_lib::lemma_len_subset(img, range);
    }
}

/// A bare `*` matches every domain.
pub proof fn law_bare_star_matches_all(domain: Seq<u8>)
    ensures
        wildcard_matches(seq![star_byte()], domain),
{
    assert(seq![star_byte()].drop_first().len() == 0);
}

/// A suffix pattern never matches the bare suffix: `*.example.com` does not
/// match `.example.com`, nor does `*example.com` match `example.com`.
pub proof fn law_suffix_needs_more(suffix: Seq<u8>)
    requires
        suffix.len() > 0,
    ensures
        !wildcard_matches(seq![star_byte()] + suffix, suffix),
{
    assert((seq![star_byte()] + suffix).drop_first() =~= suffix);
    assert((seq![star_byte()] + suffix)[0] == star_byte());
}

/// A suffix pattern matches any longer domain ending with its suffix.
pub proof fn law_suffix_matches_longer(suffix: Seq<u8>, head: Seq<u8>)
    requires
        head.len() > 0,
    ensures
        wildcard_matches(seq![star_byte()] + suffix, head + suffix),
{
    let p = seq![star_byte()] + suffix;
    let d = head + suffix;
    assert(p.drop_first() =~= suffix);
    assert(p[0] == star_byte());
    assert(d.subrange(d.len() - suffix.len(), d.len() as int) =~= suffix);
}

/// In dry-run mode, a rule that passes the checks and has a destination
/// network is always applied, and always removed.
pub proof fn law_dry_run_always_succeeds(rm: RouteManager, rule: RouteRule, table_id: u32, kernel_ok: bool)
    requires
        rm.spec_dry_run(),
        !rule_fails_check(rule),
        destination_error(rule) is None,
    ensures
        apply_succeeds(rm, rule, kernel_ok),
        remove_succeeds(rm, rule, table_id, kernel_ok),
{
}

/// Without a kernel connection (and not in dry-run mode), no rule is
/// applied or removed.
pub proof fn law_no_connection_always_fails(rm: RouteManager, rule: RouteRule, table_id: u32, kernel_ok: bool)
    requires
        !rm.spec_dry_run(),
        !rm.spec_connected(),
    ensures
        !apply_succeeds(rm, rule, kernel_ok),
        !remove_succeeds(rm, rule, table_id, kernel_ok),
{
}

/// Removing a rule undoes applying it: the other routes are as before.
pub proof fn law_remove_undoes_apply(routes: Map<Seq<char>, RouteView>, rule: RouteRule, table_id: u32)
    ensures
        routes.insert(rule.name@, applied_route(rule, table_id)).remove(rule.name@) == routes.remove(rule.name@),
        !routes.insert(rule.name@, applied_route(rule, table_id)).remove(rule.name@).dom().contains(rule.name@),
{
    assert(routes.insert(rule.name@, applied_route(rule, table_id)).remove(rule.name@) =~= routes.remove(rule.name@));
}

/// A default rule is never applied twice: once a rule of that name is
/// active, applying it with `skip_if_active` leaves the routes as they are.
pub proof fn law_default_rule_not_duplicated(rm: RouteManager, routes: Map<Seq<char>, RouteView>, rule: RouteRule, table_id: u32, kernel_ok: bool)
    requires
        routes.dom().contains(rule.name@),
    ensures
        action_result(rm, routes, RouteAction::Apply { rule, table_id, skip_if_active: true }, kernel_ok) == routes,
        !action_needs_kernel(rm, routes, RouteAction::Apply { rule, table_id, skip_if_active: true }),
{
}

/// An application that skips active rules keeps every active route as it is.
pub proof fn lemma_skip_apply_keeps(rm: RouteManager, routes: Map<Seq<char>, RouteView>, a: RouteAction, kernel_ok: bool, name: Seq<char>)
    requires
        a matches RouteAction::Apply { skip_if_active, .. } && skip_if_active,
        routes.dom().contains(name),
    ensures
        action_result(rm, routes, a, kernel_ok).dom().contains(name),
        action_result(rm, routes, a, kernel_ok)[name] == routes[name],
{
}

/// Applying the default rules, each skipped when already active, never
/// changes a route that is active: neither the actions carried out at once
/// nor, when their kernel work is reported (with any outcome), the ones that
/// waited for it.
pub proof fn law_active_route_kept_by_default_rules(
    rm: RouteManager,
    routes: Map<Seq<char>, RouteView>,
    rules: Seq<RouteRule>,
    table_id: u32,
    name: Seq<char>,
    kernel_ok: bool,
)
    requires
        routes.dom().contains(name),
    ensures
        drain(rm, routes, apply_actions(rules, table_id, true)).0.dom().contains(name),
        drain(rm, routes, apply_actions(rules, table_id, true)).0[name] == routes[name],
        forall|i: int| 0 <= i < apply_actions(rules, table_id, true).len() ==> {
            &&& action_result(rm, routes, #[trigger] apply_actions(rules, table_id, true)[i], kernel_ok).dom().contains(name)
            &&& action_result(rm, routes, apply_actions(rules, table_id, true)[i], kernel_ok)[name] == routes[name]
        },
{
    let q = apply_actions(rules, table_id, true);
    lemma_drain_skip_applies_keep(rm, routes, q, name);
    assert forall|i: int| 0 <= i < q.len() implies {
        &&& action_result(rm, routes, #[trigger] q[i], kernel_ok).dom().contains(name)
        &&& action_result(rm, routes, q[i], kernel_ok)[name] == routes[name]
    } by {
        lemma_skip_apply_keeps(rm, routes, q[i], kernel_ok, name);
    }
}

proof fn lemma_drain_skip_applies_keep(rm: RouteManager, routes: Map<Seq<char>, RouteView>, q: Seq<RouteAction>, name: Seq<char>)
    requires
        routes.dom().contains(name),
        forall|i: int| 0 <= i < q.len() ==> (#[trigger] q[i] matches RouteAction::Apply { skip_if_active, .. } && skip_if_active),
    ensures
        drain(rm, routes, q).0.dom().contains(name),
        drain(rm, routes, q).0[name] == routes[name],
    decreases q.len(),
{
    if q.len() > 0 && !action_needs_kernel(rm, routes, q[0]) {
        let next = action_result(rm, routes, q[0], true);
        lemma_skip_apply_keeps(rm, routes, q[0], true, name);
        let rest = q.drop_first();
        assert forall|i: int| 0 <= i < rest.len() implies (#[trigger] rest[i] matches RouteAction::Apply { skip_if_active, .. } && skip_if_active) by {
            assert(rest[i] == q[i + 1]);
        }
        lemma_drain_skip_applies_keep(rm, next, rest, name);
    }
}

/// In dry-run mode nothing waits for the kernel: every queued action is
/// carried out at once.
pub proof fn law_dry_run_drains_queue(rm: RouteManager, routes: Map<Seq<char>, RouteView>, q: Seq<RouteAction>)
    requires
        rm.spec_dry_run(),
    ensures
        drain(rm, routes, q).1.len() == 0,
    decreases q.len(),
{
    if q.len() > 0 {
        law_dry_run_drains_queue(rm, action_result(rm, routes, q[0], true), q.drop_first());
    }
}

/// An interface keeps its table: asking again gives the same table and
/// assigns nothing new.
pub proof fn law_interface_table_stable(rm: RouteManager, indices: Seq<(Seq<char>, u8)>, iface: Seq<char>)
    requires
        keys_unique(indices),
    ensures
        table_for(rm, indices_with(indices, iface), iface) == table_for(rm, indices, iface),
        indices_with(indices_with(indices, iface), iface) == indices_with(indices, iface),
{
    if !seq_has_key(indices, iface) {
        let t = indices.push((iface, (indices.len() % 256) as u8));
        crate::strmap::lemma_push_fresh(indices, iface, (indices.len() % 256) as u8);
        assert(seq_get(t, iface) == Some((indices.len() % 256) as u8));
        assert(seq_has_key(t, iface)) by {
            assert(t[indices.len() as int].0 == iface);
        }
    }
}

/// A configuration change keeps the index of every interface that stays
/// configured.
pub proof fn law_reload_keeps_indices(existing: Seq<(Seq<char>, u8)>, keys: Seq<Seq<char>>, k: int)
    requires
        0 <= k < keys.len(),
        keys.no_duplicates(),
        seq_has_key(existing, keys[k]),
    ensures
        seq_get(rebuilt_indices(existing, keys, keys.len() as int).0, keys[k]) == seq_get(existing, keys[k]),
{
    lemma_rebuilt_keys(existing, keys, keys.len() as int);
    lemma_rebuilt_entry(existing, keys, keys.len() as int, k);
}

/// The rebuilt indices only hold keys among the first `n`, each once.
proof fn lemma_rebuilt_keys(existing: Seq<(Seq<char>, u8)>, keys: Seq<Seq<char>>, n: int)
    requires
        0 <= n <= keys.len(),
        keys.no_duplicates(),
    ensures
        forall|j: int| 0 <= j < rebuilt_indices(existing, keys, n).0.len()
            ==> exists|m: int| 0 <= m < n && #[trigger] rebuilt_indices(existing, keys, n).0[j].0 == keys[m],
        keys_unique(rebuilt_indices(existing, keys, n).0),
    decreases n,
{
    if n > 0 {
        lemma_rebuilt_keys(existing, keys, n - 1);
        let acc = rebuilt_indices(existing, keys, n - 1).0;
        let cur = rebuilt_indices(existing, keys, n).0;
        assert forall|j: int| 0 <= j < acc.len() implies #[trigger] acc[j].0 != keys[n - 1] by {
            let m = choose|m: int| 0 <= m < n - 1 && acc[j].0 == keys[m];
        }
        assert forall|j: int| 0 <= j < cur.len() implies exists|m: int| 0 <= m < n && #[trigger] cur[j].0 == keys[m] by {
            if j < acc.len() {
                assert(cur[j] == acc[j]);
                let m = choose|m: int| 0 <= m < n - 1 && acc[j].0 == keys[m];
                assert(cur[j].0 == keys[m]);
            } else {
                assert(cur[j].0 == keys[n - 1]);
            }
        }
        assert forall|i: int, j: int| 0 <= i < cur.len() && 0 <= j < cur.len() && i != j implies cur[i].0 != cur[j].0 by {
            if i < acc.len() && j < acc.len() {
                assert(cur[i] == acc[i] && cur[j] == acc[j]);
            } else if i < acc.len() {
                assert(cur[i] == acc[i]);
            } else if j < acc.len() {
                assert(cur[j] == acc[j]);
            }
        }
    }
}

proof fn lemma_rebuilt_entry(existing: Seq<(Seq<char>, u8)>, keys: Seq<Seq<char>>, n: int, k: int)
    requires
        0 <= k < n <= keys.len(),
        keys.no_duplicates(),
        seq_has_key(existing, keys[k]),
    ensures
        seq_get(rebuilt_indices(existing, keys, n).0, keys[k]) == seq_get(existing, keys[k]),
    decreases n,
{
    lemma_rebuilt_keys(existing, keys, n);
    let cur = rebuilt_indices(existing, keys, n).0;
    if k == n - 1 {
        let acc = rebuilt_indices(existing, keys, n - 1).0;
        lemma_rebuilt_keys(existing, keys, n - 1);
        assert(cur.len() == acc.len() + 1);
        crate::strmap::lemma_index_unique(cur, acc.len() as int);
    } else {
        lemma_rebuilt_entry(existing, keys, n - 1, k);
        let acc = rebuilt_indices(existing, keys, n - 1).0;
        lemma_rebuilt_keys(existing, keys, n - 1);
        let i = seq_index(acc, keys[k]);
        assert(0 <= i < acc.len() && acc[i].0 == keys[k]);
        assert(cur[i] == acc[i]);
        crate::strmap::lemma_index_unique(cur, i);
        crate::strmap::lemma_index_unique(acc, i);
    }
}

/// Network events never add an interface to the state.
pub proof fn law_events_add_no_interface(
    before: Seq<(Seq<char>, crate::monitor::InterfaceInfo)>,
    after: Seq<(Seq<char>, crate::monitor::InterfaceInfo)>,
    e: NetworkEvent,
    k: Seq<char>,
)
    requires
        event_applied(before, after, e),
        seq_has_key(after, k),
    ensures
        seq_has_key(before, k),
{
    let j = choose|j: int| 0 <= j < after.len() && after[j].0 == k;
    match e {
        NetworkEvent::InterfaceChanged { interface, change } => {
            if seq_has_key(before, interface@) {
                let i = seq_index(before, interface@);
                if change == crate::monitor::InterfaceChange::Removed {
                    if j < i {
                        assert(after[j] == before[j]);
                    } else {
                        assert(after[j] == before[j + 1]);
                    }
                } else if j == i {
                    assert(before[i].0 == k);
                } else {
                    assert(after[j] == before[j]);
                }
            }
        },
        NetworkEvent::WifiConnected { interface, .. } | NetworkEvent::WifiDisconnected { interface, .. } => {
            if seq_has_key(before, interface@) {
                let i = seq_index(before, interface@);
                if j == i {
                    assert(before[i].0 == k);
                } else {
                    assert(after[j] == before[j]);
                }
            }
        },
        NetworkEvent::AddressChanged { interface, .. } => {
            if seq_has_key(before, interface@) {
                let i = seq_index(before, interface@);
                if j == i {
                    assert(before[i].0 == k);
                } else {
                    assert(after[j] == before[j]);
                }
            }
        },
        NetworkEvent::RouteChanged { .. } => {},
    }
    assert(0 <= j < after.len());
}

/// After an address change, every added address is present.
pub proof fn law_added_addresses_present(current: Seq<Cidr>, added: Seq<Cidr>, removed: Seq<Cidr>, a: Cidr)
    requires
        added.contains(a),
    ensures
        merged_addresses(current, added, removed).contains(a),
{
    lemma_with_contains(without_addresses(current, removed), added, a);
}

proof fn lemma_with_contains(s: Seq<Cidr>, added: Seq<Cidr>, a: Cidr)
    ensures
        (s.contains(a) || added.contains(a)) ==> with_addresses(s, added).contains(a),
        with_addresses(s, added).contains(a) ==> (s.contains(a) || added.contains(a)),
    decreases added.len(),
{
    if added.len() > 0 {
        lemma_with_contains(s, added.drop_last(), a);
        let t = with_addresses(s, added.drop_last());
        if added.contains(a) && !added.drop_last().contains(a) {
            let i = choose|i: int| 0 <= i < added.len() && added[i] == a;
            if i < added.len() - 1 {
                assert(added.drop_last()[i] == a);
            }
            assert(added.last() == a);
        }
        if added.drop_last().contains(a) {
            let i = choose|i: int| 0 <= i < added.drop_last().len() && added.drop_last()[i] == a;
            assert(added[i] == a);
        }
        if t.contains(a) {
            let i = choose|i: int| 0 <= i < t.len() && t[i] == a;
            assert(t.push(added.last())[i] == a);
        }
        if !t.contains(added.last()) {
            assert(t.push(added.last())[t.len() as int] == added.last());
            if t.push(added.last()).contains(a) && a != added.last() {
                let i = choose|i: int| 0 <= i < t.push(added.last()).len() && t.push(added.last())[i] == a;
                assert(t[i] == a);
            }
        }
        if added.last() == a {
            assert(added[added.len() - 1] == a);
        }
    }
}

proof fn lemma_without_contains(s: Seq<Cidr>, removed: Seq<Cidr>, a: Cidr)
    ensures
        without_addresses(s, removed).contains(a) <==> (s.contains(a) && !removed.contains(a)),
    decreases s.len(),
{
    if s.len() > 0 {
        lemma_without_contains(s.drop_last(), removed, a);
        let t = without_addresses(s.drop_last(), removed);
        if s.contains(a) && !s.drop_last().contains(a) {
            let i = choose|i: int| 0 <= i < s.len() && s[i] == a;
            if i < s.len() - 1 {
                assert(s.drop_last()[i] == a);
            }
        }
        if s.drop_last().contains(a) {
            let i = choose|i: int| 0 <= i < s.drop_last().len() && s.drop_last()[i] == a;
            assert(s[i] == a);
        }
        if t.contains(a) {
            let i = choose|i: int| 0 <= i < t.len() && t[i] == a;
            assert(t.push(s.last())[i] == a);
        }
        if t.push(s.last()).contains(a) && a != s.last() {
            let i = choose|i: int| 0 <= i < t.push(s.last()).len() && t.push(s.last())[i] == a;
            assert(t[i] == a);
        }
        assert(t.push(s.last())[t.len() as int] == s.last());
        assert(s[s.len() - 1] == s.last());
    }
}

/// After an address change, an address that was removed and not added back
/// is gone, and one that was kept stays.
pub proof fn law_removed_addresses_absent(current: Seq<Cidr>, added: Seq<Cidr>, removed: Seq<Cidr>, a: Cidr)
    ensures
        (removed.contains(a) && !added.contains(a)) ==> !merged_addresses(current, added, removed).contains(a),
        (current.contains(a) && !removed.contains(a)) ==> merged_addresses(current, added, removed).contains(a),
{
    lemma_without_contains(current, removed, a);
    lemma_with_contains(without_addresses(current, removed), added, a);
}

/// Polling links that have not changed reports no interface change.
pub proof fn law_unchanged_links_no_events(p: Seq<LinkSnapshot>)
    requires
        link_indices_unique(p),
    ensures
        link_changes(p, p).len() == 0,
{
    lemma_unchanged_links(p);
}

/// With DNS resolution, the rule chosen is the winner for the first
/// resolved address, in the resolver's order, that any rule matches: no rule
/// matches an earlier address. When no rule matches any address, none is
/// chosen.
pub proof fn law_first_resolved_address_decides(rules: Seq<RouteRule>, addrs: Seq<IpAddress>)
    ensures
        first_resolved_match(rules, addrs) matches Some(i) ==> exists|k: int| {
            &&& 0 <= k < addrs.len()
            &&& best_match(rules, Destination::Ip(addrs[k])) == Some(i)
            &&& forall|j: int, r: int| 0 <= j < k && 0 <= r < rules.len()
                ==> !#[trigger] rule_matches_spec(rules[r], Destination::Ip(addrs[j]))
        },
        first_resolved_match(rules, addrs) is None ==> forall|j: int, r: int| 0 <= j < addrs.len() && 0 <= r < rules.len()
            ==> !#[trigger] rule_matches_spec(rules[r], Destination::Ip(addrs[j])),
    decreases addrs.len(),
{
    if addrs.len() > 0 {
        let rest = addrs.drop_first();
        law_first_resolved_address_decides(rules, rest);
        let d0 = Destination::Ip(addrs[0]);
        match best_match(rules, d0) {
            Some(i) => {
                assert(0 <= 0 < addrs.len() && best_match(rules, Destination::Ip(addrs[0])) == Some(i));
            },
            None => {
                assert forall|r: int| 0 <= r < rules.len() implies !rule_matches_spec(rules[r], d0) by {
                    if rule_matches_spec(rules[r], d0) {
                        law_best_match_exists(rules, d0, r);
                    }
                }
                match first_resolved_match(rules, rest) {
                    Some(i) => {
                        let k = choose|k: int| {
                            &&& 0 <= k < rest.len()
                            &&& best_match(rules, Destination::Ip(rest[k])) == Some(i)
                            &&& forall|j: int, r: int| 0 <= j < k && 0 <= r < rules.len()
                                ==> !#[trigger] rule_matches_spec(rules[r], Destination::Ip(rest[j]))
                        };
                        assert(addrs[k + 1] == rest[k]);
                        assert forall|j: int, r: int| 0 <= j < k + 1 && 0 <= r < rules.len()
                            implies !#[trigger] rule_matches_spec(rules[r], Destination::Ip(addrs[j])) by {
                            if j > 0 {
                                assert(addrs[j] == rest[j - 1]);
                            }
                        }
                    },
                    None => {
                        assert forall|j: int, r: int| 0 <= j < addrs.len() && 0 <= r < rules.len()
                            implies !#[trigger] rule_matches_spec(rules[r], Destination::Ip(addrs[j])) by {
                            if j > 0 {
                                assert(addrs[j] == rest[j - 1]);
                            }
                        }
                    },
                }
            },
        }
    }
}

/// A policy rule is requested for the destination it is given: the
/// request's destination attribute is that network, in its family, and its
/// source attribute is the given source when of the same family (none when
/// no source is given).
pub proof fn law_policy_rule_selects_destination(
    rm: RouteManager,
    op: RouteOp,
    d: Cidr,
    source: Option<Cidr>,
    table_id: u32,
    priority: u32,
)
    requires
        !rm.spec_dry_run(),
        rm.spec_connected(),
        add_policy_rule_op(rm, op, Some(d), source, table_id, priority),
    ensures
        op matches RouteOp::Kernel(KernelRequest::AddPolicyRule { is_ipv4, destination, source: src, table_id: t, priority: p })
            && destination == Some(d) && is_ipv4 == (d.spec_ip() is V4) && t == table_id && p == priority
            && (source is None ==> src is None)
            && (source matches Some(s) && (s.spec_ip() is V4) == (d.spec_ip() is V4) ==> src == source),
{
}

/// Removing a policy rule names the same destination: the message's
/// destination attribute is the given network, in its family, and its source
/// the given source when of the same family.
pub proof fn law_policy_rule_removal_selects_destination(
    rm: RouteManager,
    op: RouteOp,
    d: Cidr,
    source: Option<Cidr>,
    table_id: u32,
    priority: u32,
)
    requires
        !rm.spec_dry_run(),
        rm.spec_connected(),
        table_id <= MAX_TABLE_ID,
        remove_policy_rule_op(rm, op, Some(d), source, table_id, priority),
    ensures
        op matches RouteOp::Kernel(KernelRequest::RemovePolicyRule { message })
            && message.destination == Some(d) && message.is_ipv4 == (d.spec_ip() is V4)
            && message.table == table_id && message.priority == priority
            && (source is None ==> message.source is None)
            && (source matches Some(s) && (s.spec_ip() is V4) == (d.spec_ip() is V4) ==> message.source == source),
{
}

/// The indices of an entry sequence are pairwise distinct.
pub open spec fn indices_distinct(s: Seq<(Seq<char>, u8)>) -> bool {
    forall|i: int, j: int| 0 <= i < s.len() && 0 <= j < s.len() && i != j ==> s[i].1 != s[j].1
}

/// After a configuration change the interface indices stay pairwise
/// distinct: kept interfaces keep theirs, and an interface that had none
/// gets one that no kept interface holds, counting on from the number of
/// interfaces indexed before. This holds when the indices before are
/// distinct and below their number, as those given at creation are.
pub proof fn law_reload_indices_distinct(existing: Seq<(Seq<char>, u8)>, keys: Seq<Seq<char>>)
    requires
        keys.no_duplicates(),
        keys_unique(existing),
        existing.len() < 256,
        indices_distinct(existing),
        forall|i: int| 0 <= i < existing.len() ==> (#[trigger] existing[i]).1 < existing.len(),
    ensures
        indices_distinct(rebuilt_indices(existing, keys, keys.len() as int).0),
        forall|i: int| 0 <= i < rebuilt_indices(existing, keys, keys.len() as int).0.len()
            && !seq_has_key(existing, (#[trigger] rebuilt_indices(existing, keys, keys.len() as int).0[i]).0)
            ==> rebuilt_indices(existing, keys, keys.len() as int).0[i].1 >= existing.len(),
{
    lemma_rebuilt_distinct(existing, keys, keys.len() as int);
}

proof fn lemma_rebuilt_distinct(existing: Seq<(Seq<char>, u8)>, keys: Seq<Seq<char>>, n: int)
    requires
        0 <= n <= keys.len(),
        keys.no_duplicates(),
        keys_unique(existing),
        existing.len() < 256,
        indices_distinct(existing),
        forall|i: int| 0 <= i < existing.len() ==> (#[trigger] existing[i]).1 < existing.len(),
    ensures
        ({
            let (acc, next) = rebuilt_indices(existing, keys, n);
            &&& existing.len() <= next <= 255
            &&& indices_distinct(acc)
            &&& forall|i: int| 0 <= i < acc.len() ==> (#[trigger] acc[i]).1 < next
            &&& forall|i: int| 0 <= i < acc.len() ==> (seq_has_key(existing, (#[trigger] acc[i]).0)
                <==> acc[i].1 < existing.len())
            &&& forall|i: int| 0 <= i < acc.len() && seq_has_key(existing, (#[trigger] acc[i]).0)
                ==> seq_get(existing, acc[i].0) == Some(acc[i].1)
        }),
    decreases n,
{
    if n > 0 {
        lemma_rebuilt_distinct(existing, keys, n - 1);
        lemma_rebuilt_keys(existing, keys, n - 1);
        let (acc, next) = rebuilt_indices(existing, keys, n - 1);
        let (cur, next2) = rebuilt_indices(existing, keys, n);
        let k = keys[n - 1];
        assert forall|j: int| 0 <= j < acc.len() implies #[trigger] acc[j].0 != k by {
            let m = choose|m: int| 0 <= m < n - 1 && acc[j].0 == keys[m];
        }
        if seq_has_key(existing, k) {
            let x = seq_index(existing, k);
            let v = existing[x].1;
            assert(existing[x].1 < existing.len());
            assert(cur == acc.push((k, v)));
            assert forall|i: int, j: int| 0 <= i < cur.len() && 0 <= j < cur.len() && i != j implies cur[i].1 != cur[j].1 by {
                if i < acc.len() && j < acc.len() {
                    assert(cur[i] == acc[i] && cur[j] == acc[j]);
                } else if i < acc.len() {
                    assert(cur[i] == acc[i] && cur[j] == (k, v));
                    if seq_has_key(existing, acc[i].0) {
                        let y = seq_index(existing, acc[i].0);
                        assert(existing[y].0 == acc[i].0);
                        assert(y != x);
                    }
                } else if j < acc.len() {
                    assert(cur[j] == acc[j] && cur[i] == (k, v));
                    if seq_has_key(existing, acc[j].0) {
                        let y = seq_index(existing, acc[j].0);
                        assert(existing[y].0 == acc[j].0);
                        assert(y != x);
                    }
                }
            }
            assert forall|i: int| 0 <= i < cur.len() implies (seq_has_key(existing, (#[trigger] cur[i]).0)
                <==> cur[i].1 < existing.len()) by {
                if i < acc.len() {
                    assert(cur[i] == acc[i]);
                }
            }
            assert forall|i: int| 0 <= i < cur.len() implies (#[trigger] cur[i]).1 < next2 by {
                if i < acc.len() {
                    assert(cur[i] == acc[i]);
                }
            }
            assert forall|i: int| 0 <= i < cur.len() && seq_has_key(existing, (#[trigger] cur[i]).0)
                implies seq_get(existing, cur[i].0) == Some(cur[i].1) by {
                if i < acc.len() {
                    assert(cur[i] == acc[i]);
                }
            }
        } else if next < 255 {
            assert(cur == acc.push((k, next as u8)));
            assert forall|i: int, j: int| 0 <= i < cur.len() && 0 <= j < cur.len() && i != j implies cur[i].1 != cur[j].1 by {
                if i < acc.len() && j < acc.len() {
                    assert(cur[i] == acc[i] && cur[j] == acc[j]);
                } else if i < acc.len() {
                    assert(cur[i] == acc[i]);
                } else if j < acc.len() {
                    assert(cur[j] == acc[j]);
                }
            }
            assert forall|i: int| 0 <= i < cur.len() implies (seq_has_key(existing, (#[trigger] cur[i]).0)
                <==> cur[i].1 < existing.len()) by {
                if i < acc.len() {
                    assert(cur[i] == acc[i]);
                }
            }
            assert forall|i: int| 0 <= i < cur.len() implies (#[trigger] cur[i]).1 < next2 by {
                if i < acc.len() {
                    assert(cur[i] == acc[i]);
                }
            }
            assert forall|i: int| 0 <= i < cur.len() && seq_has_key(existing, (#[trigger] cur[i]).0)
                implies seq_get(existing, cur[i].0) == Some(cur[i].1) by {
                if i < acc.len() {
                    assert(cur[i] == acc[i]);
                }
            }
        }
    }
}

/// Giving an interface an index leaves every other interface's index as it
/// was, and adds only that interface.
pub proof fn lemma_indices_with_keeps(ind: Seq<(Seq<char>, u8)>, y: Seq<char>)
    requires
        keys_unique(ind),
    ensures
        keys_unique(indices_with(ind, y)),
        seq_has_key(indices_with(ind, y), y),
        forall|q: Seq<char>| #[trigger] seq_has_key(indices_with(ind, y), q) <==> (seq_has_key(ind, q) || q == y),
        forall|q: Seq<char>| seq_has_key(ind, q) ==> #[trigger] seq_get(indices_with(ind, y), q) == seq_get(ind, q),
{
    if !seq_has_key(ind, y) {
        let v = (ind.len() % 256) as u8;
        let t = ind.push((y, v));
        crate::strmap::lemma_push_fresh(ind, y, v);
        assert(t[ind.len() as int].0 == y);
        assert forall|q: Seq<char>| #[trigger] seq_has_key(t, q) <==> (seq_has_key(ind, q) || q == y) by {
            if seq_has_key(ind, q) {
                let i = choose|i: int| 0 <= i < ind.len() && ind[i].0 == q;
                assert(t[i] == ind[i]);
            }
            if q == y {
                assert(t[ind.len() as int].0 == q);
            }
            assert(seq_get(t, q) == if q == y { Some(v) } else { seq_get(ind, q) });
        }
        assert forall|q: Seq<char>| seq_has_key(ind, q) implies #[trigger] seq_get(t, q) == seq_get(ind, q) by {
            assert(seq_get(t, q) == if q == y { Some(v) } else { seq_get(ind, q) });
        }
    }
}

/// At start-up, default rules are planned only for interfaces reported both
/// configured and up: an interface gains a table index only when some report
/// of it says it is up and it is configured, and every planned action
/// applies a default rule (skipped when already active) in the table of
/// such an interface.
pub proof fn law_initial_plan_only_up_interfaces(
    cfg: Config,
    rm: RouteManager,
    infos: Seq<InterfaceInfo>,
    indices: Seq<(Seq<char>, u8)>,
)
    requires
        keys_unique(indices),
    ensures
        ({
            let (plan, ind) = initial_plan(cfg, rm, infos, indices, infos.len() as int);
            &&& forall|x: Seq<char>| #[trigger] seq_has_key(ind, x) ==> seq_has_key(indices, x)
                || exists|k: int| 0 <= k < infos.len() && infos[k].name@ == x && infos[k].is_up
                    && cfg.interfaces.spec_contains(x)
            &&& forall|i: int| 0 <= i < plan.len() ==> (#[trigger] plan[i] matches RouteAction::Apply { rule, table_id, skip_if_active }
                && skip_if_active && cfg.routing.default_rules@.contains(rule)
                && exists|k: int| 0 <= k < infos.len() && infos[k].is_up && cfg.interfaces.spec_contains(infos[k].name@)
                    && table_id == table_for(rm, ind, infos[k].name@))
        }),
{
    lemma_initial_plan(cfg, rm, infos, indices, infos.len() as int);
}

proof fn lemma_initial_plan(cfg: Config, rm: RouteManager, infos: Seq<InterfaceInfo>, indices: Seq<(Seq<char>, u8)>, n: int)
    requires
        keys_unique(indices),
        0 <= n <= infos.len(),
    ensures
        ({
            let (plan, ind) = initial_plan(cfg, rm, infos, indices, n);
            &&& keys_unique(ind)
            &&& forall|x: Seq<char>| seq_has_key(indices, x) ==> #[trigger] seq_get(ind, x) == seq_get(indices, x)
            &&& forall|x: Seq<char>| #[trigger] seq_has_key(ind, x) ==> seq_has_key(indices, x)
                || exists|k: int| 0 <= k < n && infos[k].name@ == x && infos[k].is_up
                    && cfg.interfaces.spec_contains(x)
            &&& forall|i: int| 0 <= i < plan.len() ==> (#[trigger] plan[i] matches RouteAction::Apply { rule, table_id, skip_if_active }
                && skip_if_active && cfg.routing.default_rules@.contains(rule)
                && exists|k: int| 0 <= k < n && infos[k].is_up && cfg.interfaces.spec_contains(infos[k].name@)
                    && seq_has_key(ind, infos[k].name@) && table_id == table_for(rm, ind, infos[k].name@))
        }),
    decreases n,
{
    if n > 0 {
        lemma_initial_plan(cfg, rm, infos, indices, n - 1);
        let (p, ind) = initial_plan(cfg, rm, infos, indices, n - 1);
        let info = infos[n - 1];
        let name = info.name@;
        if info.is_up && cfg.interfaces.spec_contains(name) && cfg.routing.default_rules@.len() > 0 {
            let (p2, ind2) = default_plan(cfg, rm, ind, name);
            let t = table_for(rm, ind, name);
            assert(p2 == apply_actions(cfg.routing.default_rules@, t, true));
            assert(ind2 == indices_with(ind, name));
            lemma_indices_with_keeps(ind, name);
            law_interface_table_stable(rm, ind, name);
            let q = p + p2;
            assert forall|x: Seq<char>| seq_has_key(indices, x) implies #[trigger] seq_get(ind2, x) == seq_get(indices, x) by {
                assert(seq_get(ind, x) == seq_get(indices, x));
                assert(seq_has_key(ind, x));
            }
            assert forall|x: Seq<char>| #[trigger] seq_has_key(ind2, x) implies seq_has_key(indices, x)
                || exists|k: int| 0 <= k < n && infos[k].name@ == x && infos[k].is_up
                    && cfg.interfaces.spec_contains(x) by {
                if x == name {
                    assert(infos[n - 1].name@ == x);
                } else {
                    assert(seq_has_key(ind, x));
                    if !seq_has_key(indices, x) {
                        let k = choose|k: int| 0 <= k < n - 1 && infos[k].name@ == x && infos[k].is_up
                            && cfg.interfaces.spec_contains(x);
                    }
                }
            }
            assert forall|i: int| 0 <= i < q.len() implies (#[trigger] q[i] matches RouteAction::Apply { rule, table_id, skip_if_active }
                && skip_if_active && cfg.routing.default_rules@.contains(rule)
                && exists|k: int| 0 <= k < n && infos[k].is_up && cfg.interfaces.spec_contains(infos[k].name@)
                    && seq_has_key(ind2, infos[k].name@) && table_id == table_for(rm, ind2, infos[k].name@)) by {
                if i < p.len() {
                    assert(q[i] == p[i]);
                    let k = choose|k: int| 0 <= k < n - 1 && infos[k].is_up && cfg.interfaces.spec_contains(infos[k].name@)
                        && seq_has_key(ind, infos[k].name@) && p[i]->Apply_table_id == table_for(rm, ind, infos[k].name@);
                    assert(seq_get(ind2, infos[k].name@) == seq_get(ind, infos[k].name@));
                    assert(index_of_interface(ind2, infos[k].name@) == index_of_interface(ind, infos[k].name@));
                } else {
                    let j = i - p.len();
                    assert(q[i] == p2[j]);
                    assert(p2[j] == RouteAction::Apply { rule: cfg.routing.default_rules@[j], table_id: t, skip_if_active: true });
                    assert(cfg.routing.default_rules@[j] == cfg.routing.default_rules@[j]);
                    assert(infos[n - 1].is_up && cfg.interfaces.spec_contains(infos[n - 1].name@));
                }
            }
        } else {
            assert forall|i: int| 0 <= i < p.len() implies (#[trigger] p[i] matches RouteAction::Apply { rule, table_id, skip_if_active }
                && skip_if_active && cfg.routing.default_rules@.contains(rule)
                && exists|k: int| 0 <= k < n && infos[k].is_up && cfg.interfaces.spec_contains(infos[k].name@)
                    && seq_has_key(ind, infos[k].name@) && table_id == table_for(rm, ind, infos[k].name@)) by {
                let k = choose|k: int| 0 <= k < n - 1 && infos[k].is_up && cfg.interfaces.spec_contains(infos[k].name@)
                    && seq_has_key(ind, infos[k].name@) && p[i]->Apply_table_id == table_for(rm, ind, infos[k].name@);
            }
            assert forall|x: Seq<char>| #[trigger] seq_has_key(ind, x) implies seq_has_key(indices, x)
                || exists|k: int| 0 <= k < n && infos[k].name@ == x && infos[k].is_up
                    && cfg.interfaces.spec_contains(x) by {
                if !seq_has_key(indices, x) {
                    let k = choose|k: int| 0 <= k < n - 1 && infos[k].name@ == x && infos[k].is_up
                        && cfg.interfaces.spec_contains(x);
                }
            }
        }
    }
}

/// A rule is configured: it is a default rule or a rule of some WiFi
/// profile.
pub open spec fn configured_rule(cfg: Config, r: RouteRule) -> bool {
    cfg.routing.default_rules@.contains(r)
        || exists|p: int| 0 <= p < cfg.wifi_profiles@.len() && (#[trigger] cfg.wifi_profiles@[p]).1.rules@.contains(r)
}

/// Every rule of a profile appears among the profiles' rules, and only those.
proof fn lemma_profile_rules_members(ps: Seq<(Seq<char>, WifiProfile)>)
    ensures
        forall|p: int, r: RouteRule| 0 <= p < ps.len() && #[trigger] ps[p].1.rules@.contains(r)
            ==> profile_rules(ps).contains(r),
        forall|r: RouteRule| #[trigger] profile_rules(ps).contains(r)
            ==> exists|p: int| 0 <= p < ps.len() && (#[trigger] ps[p]).1.rules@.contains(r),
    decreases ps.len(),
{
    if ps.len() > 0 {
        let t = ps.drop_last();
        lemma_profile_rules_members(t);
        let a = profile_rules(t);
        let b = ps.last().1.rules@;
        assert(profile_rules(ps) == a + b);
        assert forall|p: int, r: RouteRule| 0 <= p < ps.len() && #[trigger] ps[p].1.rules@.contains(r)
            implies profile_rules(ps).contains(r) by {
            if p < ps.len() - 1 {
                assert(t[p] == ps[p]);
                assert(a.contains(r));
                let i = choose|i: int| 0 <= i < a.len() && a[i] == r;
                assert((a + b)[i] == r);
            } else {
                let i = choose|i: int| 0 <= i < b.len() && b[i] == r;
                assert((a + b)[a.len() + i] == r);
            }
        }
        assert forall|r: RouteRule| #[trigger] profile_rules(ps).contains(r)
            implies exists|p: int| 0 <= p < ps.len() && (#[trigger] ps[p]).1.rules@.contains(r) by {
            let i = choose|i: int| 0 <= i < (a + b).len() && (a + b)[i] == r;
            if i < a.len() {
                assert(a[i] == r);
                assert(a.contains(r));
                let p = choose|p: int| 0 <= p < t.len() && (#[trigger] t[p]).1.rules@.contains(r);
                assert(t[p] == ps[p]);
            } else {
                assert(b[i - a.len()] == r);
                assert(ps[ps.len() - 1].1.rules@.contains(r));
            }
        }
    }
}

/// The configured rules are exactly the default rules and the profiles'
/// rules.
proof fn lemma_all_rules_configured(cfg: Config)
    ensures
        forall|r: RouteRule| #[trigger] all_rules(cfg).contains(r) <==> configured_rule(cfg, r),
{
    lemma_profile_rules_members(cfg.wifi_profiles@);
    let a = cfg.routing.default_rules@;
    let b = profile_rules(cfg.wifi_profiles@);
    assert forall|r: RouteRule| #[trigger] all_rules(cfg).contains(r) <==> configured_rule(cfg, r) by {
        if all_rules(cfg).contains(r) {
            let i = choose|i: int| 0 <= i < (a + b).len() && (a + b)[i] == r;
            if i < a.len() {
                assert(a[i] == r);
            } else {
                assert(b[i - a.len()] == r);
                assert(b.contains(r));
            }
        }
        if a.contains(r) {
            let i = choose|i: int| 0 <= i < a.len() && a[i] == r;
            assert((a + b)[i] == r);
        } else if configured_rule(cfg, r) {
            let p = choose|p: int| 0 <= p < cfg.wifi_profiles@.len() && (#[trigger] cfg.wifi_profiles@[p]).1.rules@.contains(r);
            assert(b.contains(r));
            let i = choose|i: int| 0 <= i < b.len() && b[i] == r;
            assert((a + b)[a.len() + i] == r);
        }
    }
}

/// Some rule at or after `i` carries the same name and is the last to.
proof fn lemma_last_with_name_exists(rules: Seq<RouteRule>, i: int) -> (k: int)
    requires
        0 <= i < rules.len(),
    ensures
        i <= k < rules.len(),
        rules[k].name@ == rules[i].name@,
        last_with_name(rules, k),
    decreases rules.len() - i,
{
    if last_with_name(rules, i) {
        i
    } else {
        let j = choose|j: int| i < j < rules.len() && #[trigger] rules[j].name@ == rules[i].name@;
        lemma_last_with_name_exists(rules, j)
    }
}

/// The down plan over the first `n` rules removes the rule at `i` from its
/// route's table when that rule is the last of its name and its route is
/// active through the interface; every action it holds removes one of the
/// rules.
proof fn lemma_down_plan(rules: Seq<RouteRule>, routes: Map<Seq<char>, RouteView>, iface: Seq<char>, n: int)
    requires
        0 <= n <= rules.len(),
    ensures
        forall|i: int| 0 <= i < n && last_with_name(rules, i) && routes.dom().contains(rules[i].name@)
            && routes[rules[i].name@].1 == iface ==> #[trigger] down_plan(rules, routes, iface, n).contains(
                RouteAction::Remove { rule: rules[i], table_id: routes[rules[i].name@].2 }),
        forall|k: int| 0 <= k < down_plan(rules, routes, iface, n).len()
            ==> (#[trigger] down_plan(rules, routes, iface, n)[k] matches RouteAction::Remove { rule, .. }
                && rules.contains(rule)),
    decreases n,
{
    if n > 0 {
        lemma_down_plan(rules, routes, iface, n - 1);
        let p = down_plan(rules, routes, iface, n - 1);
        let q = down_plan(rules, routes, iface, n);
        let rule = rules[n - 1];
        if last_with_name(rules, n - 1) && routes.dom().contains(rule.name@) && routes[rule.name@].1 == iface {
            let a = RouteAction::Remove { rule, table_id: routes[rule.name@].2 };
            assert(q == p.push(a));
            assert(q[p.len() as int] == a);
            assert forall|i: int| 0 <= i < n && last_with_name(rules, i) && routes.dom().contains(rules[i].name@)
                && routes[rules[i].name@].1 == iface implies #[trigger] q.contains(
                    RouteAction::Remove { rule: rules[i], table_id: routes[rules[i].name@].2 }) by {
                if i < n - 1 {
                    let x = RouteAction::Remove { rule: rules[i], table_id: routes[rules[i].name@].2 };
                    assert(p.contains(x));
                    let j = choose|j: int| 0 <= j < p.len() && p[j] == x;
                    assert(q[j] == x);
                }
            }
            assert forall|k: int| 0 <= k < q.len() implies (#[trigger] q[k] matches RouteAction::Remove { rule, .. }
                && rules.contains(rule)) by {
                if k < p.len() {
                    assert(q[k] == p[k]);
                } else {
                    assert(rules[n - 1] == rule);
                }
            }
        } else {
            assert(q == p);
        }
    }
}

/// When an interface goes down or is removed, every active route through it
/// whose rule is configured (a default rule or a rule of any WiFi profile)
/// is planned for removal from the route's table, under the rule that name
/// stands for; and the plan removes configured rules only.
pub proof fn law_down_removes_configured_routes(
    cfg: Config,
    rm: RouteManager,
    routes: Map<Seq<char>, RouteView>,
    ssids: Map<Seq<char>, Seq<char>>,
    indices: Seq<(Seq<char>, u8)>,
    net: Seq<(Seq<char>, InterfaceInfo)>,
    iface: String,
    change: InterfaceChange,
    r: RouteRule,
)
    requires
        change == InterfaceChange::Down || change == InterfaceChange::Removed,
        configured_rule(cfg, r),
        routes.dom().contains(r.name@),
        routes[r.name@].1 == iface@,
    ensures
        ({
            let plan = event_plan(cfg, rm, routes, ssids, indices, net, (NetworkEvent::InterfaceChanged { interface: iface, change })).0;
            &&& exists|k: int| 0 <= k < plan.len() && (#[trigger] plan[k] matches RouteAction::Remove { rule, table_id }
                && rule.name@ == r.name@ && table_id == routes[r.name@].2 && configured_rule(cfg, rule))
            &&& forall|k: int| 0 <= k < plan.len() ==> (#[trigger] plan[k] matches RouteAction::Remove { rule, .. }
                && configured_rule(cfg, rule))
        }),
{
    let rules = all_rules(cfg);
    lemma_all_rules_configured(cfg);
    assert(rules.contains(r));
    let i = choose|i: int| 0 <= i < rules.len() && rules[i] == r;
    let k = lemma_last_with_name_exists(rules, i);
    lemma_down_plan(rules, routes, iface@, rules.len() as int);
    let plan = down_plan(rules, routes, iface@, rules.len() as int);
    let x = RouteAction::Remove { rule: rules[k], table_id: routes[rules[k].name@].2 };
    assert(plan.contains(x));
    let j = choose|j: int| 0 <= j < plan.len() && plan[j] == x;
    assert(rules.contains(rules[k]));
    assert(plan[j] matches RouteAction::Remove { rule, table_id } && rule.name@ == r.name@
        && table_id == routes[r.name@].2 && configured_rule(cfg, rule));
}

/// In dry-run mode, a queue of removals of rules with a destination network
/// is carried out at once: the routes afterwards are among those before, and
/// none of the removed names is left.
proof fn lemma_dry_run_removals(rm: RouteManager, routes: Map<Seq<char>, RouteView>, q: Seq<RouteAction>)
    requires
        rm.spec_dry_run(),
        forall|k: int| 0 <= k < q.len() ==> (#[trigger] q[k] matches RouteAction::Remove { rule, .. }
            && destination_error(rule) is None),
    ensures
        forall|m: Seq<char>| #[trigger] drain(rm, routes, q).0.dom().contains(m) ==> routes.dom().contains(m),
        forall|k: int| 0 <= k < q.len() ==> !drain(rm, routes, q).0.dom().contains((#[trigger] q[k])->Remove_rule.name@),
    decreases q.len(),
{
    if q.len() > 0 {
        let rest = q.drop_first();
        let next = action_result(rm, routes, q[0], true);
        assert(!action_needs_kernel(rm, routes, q[0]));
        assert(next == routes.remove(q[0]->Remove_rule.name@));
        assert forall|k: int| 0 <= k < rest.len() implies (#[trigger] rest[k] matches RouteAction::Remove { rule, .. }
            && destination_error(rule) is None) by {
            assert(rest[k] == q[k + 1]);
        }
        lemma_dry_run_removals(rm, next, rest);
        assert(drain(rm, routes, q) == drain(rm, next, rest));
        assert(!next.dom().contains(q[0]->Remove_rule.name@));
        assert forall|k: int| 0 <= k < q.len() implies !drain(rm, routes, q).0.dom().contains((#[trigger] q[k])->Remove_rule.name@) by {
            if k > 0 {
                assert(rest[k - 1] == q[k]);
            } else if drain(rm, next, rest).0.dom().contains(q[0]->Remove_rule.name@) {
                assert(next.dom().contains(q[0]->Remove_rule.name@));
            }
        }
    }
}

/// In dry-run mode, once an interface goes down or is removed, no active
/// route of a configured rule is left through it, when every configured
/// rule has a destination network (a domain rule has none until resolved).
pub proof fn law_down_clears_configured_routes(
    cfg: Config,
    rm: RouteManager,
    routes: Map<Seq<char>, RouteView>,
    ssids: Map<Seq<char>, Seq<char>>,
    indices: Seq<(Seq<char>, u8)>,
    net: Seq<(Seq<char>, InterfaceInfo)>,
    iface: String,
    change: InterfaceChange,
    r: RouteRule,
)
    requires
        rm.spec_dry_run(),
        change == InterfaceChange::Down || change == InterfaceChange::Removed,
        forall|x: RouteRule| configured_rule(cfg, x) ==> #[trigger] destination_error(x) is None,
        configured_rule(cfg, r),
        routes.dom().contains(r.name@),
        routes[r.name@].1 == iface@,
    ensures
        !drain(rm, routes, event_plan(cfg, rm, routes, ssids, indices, net,
            (NetworkEvent::InterfaceChanged { interface: iface, change })).0).0.dom().contains(r.name@),
{
    law_down_removes_configured_routes(cfg, rm, routes, ssids, indices, net, iface, change, r);
    let plan = event_plan(cfg, rm, routes, ssids, indices, net, (NetworkEvent::InterfaceChanged { interface: iface, change })).0;
    assert forall|k: int| 0 <= k < plan.len() implies (#[trigger] plan[k] matches RouteAction::Remove { rule, .. }
        && destination_error(rule) is None) by {
        assert(configured_rule(cfg, plan[k]->Remove_rule));
        assert(destination_error(plan[k]->Remove_rule) is None);
    }
    lemma_dry_run_removals(rm, routes, plan);
    let k = choose|k: int| 0 <= k < plan.len() && (#[trigger] plan[k] matches RouteAction::Remove { rule, table_id }
        && rule.name@ == r.name@ && table_id == routes[r.name@].2 && configured_rule(cfg, rule));
    assert(plan[k]->Remove_rule.name@ == r.name@);
}

} // verus!
