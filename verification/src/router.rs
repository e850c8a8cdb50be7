//! Routing decisions: routing table numbering, the kernel requests that
//! policy rules and routes turn into, and how kernel errors are classified.
//!
//! The kernel itself is driven by the program around the library: it
//! carries out the `KernelRequest`s produced here and reports back.

use vstd::prelude::*;
use vstd::string::StringExecFns;
use crate::config::{MatchOn, RouteRule, route_rule_error};
use crate::error::{NicAutoSwitchError, config_outcome};
use crate::net::{Cidr, IpAddress, valid_prefix};
use crate::text::{decimal, decimal_string};

verus! {

/// First IPv4 routing table ID.
pub const IPV4_TABLE_START: u32 = 100;
/// Last IPv4 routing table ID.
pub const IPV4_TABLE_END: u32 = 199;
/// First IPv6 routing table ID.
pub const IPV6_TABLE_START: u32 = 200;
/// Last IPv6 routing table ID.
pub const IPV6_TABLE_END: u32 = 299;
/// Largest routing table ID a netlink header can carry.
pub const MAX_TABLE_ID: u32 = 255;

/// Detail of the error for a table ID that does not fit in one byte.
pub open spec fn table_id_overflow_message(table_id: u32) -> Seq<char> {
    "table_id "@ + decimal(table_id as nat) + " exceeds maximum "@ + decimal(MAX_TABLE_ID as nat)
        + " (netlink header is u8)"@
}

/// Converts a table ID to the one-byte form of netlink headers.
pub fn table_id_to_u8(table_id: u32) -> (r: crate::error::Result<u8>)
    ensures
        table_id <= MAX_TABLE_ID ==> r == Ok::<u8, NicAutoSwitchError>(table_id as u8),
        table_id > MAX_TABLE_ID ==> (r matches Err(NicAutoSwitchError::Route(m)) && m@ == table_id_overflow_message(table_id)),
{
    if table_id > MAX_TABLE_ID {
        let mut m = String::from_str("table_id ");
        let a = decimal_string(table_id as u64);
        m.append(a.as_str());
        m.append(" exceeds maximum ");
        let b = decimal_string(MAX_TABLE_ID as u64);
        m.append(b.as_str());
        m.append(" (netlink header is u8)");
        Err(NicAutoSwitchError::Route(m))
    } else {
        Ok(table_id as u8)
    }
}

/// Whether a kernel error number means "entry already exists" (EEXIST);
/// adding something that exists counts as success.
pub fn is_already_exists(errno: Option<i32>) -> (r: bool)
    ensures
        r == (errno == Some(17i32)),
{
    match errno {
        Some(e) => e == 17,
        None => false,
    }
}

/// Whether a kernel error number means "no such entry" (ENOENT or ENXIO);
/// removing something absent counts as success.
pub fn is_no_such_entry(errno: Option<i32>) -> (r: bool)
    ensures
        r == (errno == Some(2i32) || errno == Some(6i32)),
{
    match errno {
        Some(e) => e == 2 || e == 6,
        None => false,
    }
}

/// Whether a failed kernel request still counts as done: adding something
/// that already exists, or removing something already absent.
pub open spec fn failure_tolerated(adding: bool, errno: Option<i32>) -> bool {
    if adding {
        errno == Some(17i32)
    } else {
        errno == Some(2i32) || errno == Some(6i32)
    }
}

/// The outcome of a kernel request to add (`adding`) or remove an entry:
/// success when it did not fail (`failure` is `None`) or failed only in a
/// tolerated way (see `failure_tolerated`), otherwise a route error with the
/// failure's text. Add and remove requests are thus idempotent.
pub fn kernel_outcome(adding: bool, errno: Option<i32>, failure: Option<String>) -> (r: crate::error::Result<()>)
    ensures
        failure is None ==> r is Ok,
        failure matches Some(m) ==> if failure_tolerated(adding, errno) {
            r is Ok
        } else {
            r == Err::<(), NicAutoSwitchError>(NicAutoSwitchError::Route(m))
        },
{
    match failure {
        None => Ok(()),
        Some(m) => {
            let tolerated = if adding { is_already_exists(errno) } else { is_no_such_entry(errno) };
            if tolerated {
                Ok(())
            } else {
                Err(NicAutoSwitchError::Route(m))
            }
        },
    }
}

/// Whether a listed policy rule points to `table` (it is flushed with it).
pub fn rule_in_table(rule_table: u8, table: u8) -> (r: bool)
    ensures
        r == (rule_table == table),
{
    rule_table == table
}

/// The absolute value of a netlink error code, as the error number.
pub fn netlink_errno(code: Option<i32>) -> (r: Option<i32>)
    requires
        code matches Some(c) ==> c != i32::MIN,
    ensures
        r == match code {
            Some(c) => Some((if c < 0 { -c } else { c as int }) as i32),
            None => None,
        },
{
    match code {
        Some(c) => Some(if c < 0 { -c } else { c }),
        None => None,
    }
}

/// A policy rule as a netlink message: header fields and the attributes
/// destination, source and priority.
#[derive(Debug, Clone, Copy, PartialEq, Eq, Structural)]
pub struct RuleMessageSpec {
    /// Routing table (header byte)
    pub table: u8,
    /// Address family: IPv4 when true, IPv6 otherwise
    pub is_ipv4: bool,
    /// Destination prefix, when its family matches
    pub destination: Option<Cidr>,
    /// Source prefix, when its family matches
    pub source: Option<Cidr>,
    /// Rule priority
    pub priority: u32,
}

/// `net` when it belongs to the chosen family, `None` otherwise.
pub open spec fn of_family(net: Option<Cidr>, is_ipv4: bool) -> Option<Cidr> {
    match net {
        Some(n) => if (n.spec_ip() is V4) == is_ipv4 { Some(n) } else { None },
        None => None,
    }
}

fn keep_family(net: Option<Cidr>, is_ipv4: bool) -> (r: Option<Cidr>)
    ensures
        r == of_family(net, is_ipv4),
{
    match net {
        Some(n) => if n.is_ipv4() == is_ipv4 { Some(n) } else { None },
        None => None,
    }
}

/// Builds the message of a policy rule that sends matching traffic to a
/// table; fails when the table ID does not fit in the header byte.
pub fn build_rule_message(
    destination: Option<Cidr>,
    source: Option<Cidr>,
    table_id: u32,
    priority: u32,
    is_ipv4: bool,
) -> (r: crate::error::Result<RuleMessageSpec>)
    ensures
        table_id > MAX_TABLE_ID ==> (r matches Err(NicAutoSwitchError::Route(m)) && m@ == table_id_overflow_message(table_id)),
        table_id <= MAX_TABLE_ID ==> r == Ok::<RuleMessageSpec, NicAutoSwitchError>(RuleMessageSpec {
            table: table_id as u8,
            is_ipv4,
            destination: of_family(destination, is_ipv4),
            source: of_family(source, is_ipv4),
            priority,
        }),
{
    let table = table_id_to_u8(table_id)?;
    Ok(RuleMessageSpec {
        table,
        is_ipv4,
        destination: keep_family(destination, is_ipv4),
        source: keep_family(source, is_ipv4),
        priority,
    })
}

/// The family a policy rule is installed in: that of the destination, else
/// that of the source, else IPv4.
pub open spec fn rule_family_is_ipv4(destination: Option<Cidr>, source: Option<Cidr>) -> bool {
    match destination {
        Some(d) => d.spec_ip() is V4,
        None => match source {
            Some(s) => s.spec_ip() is V4,
            None => true,
        },
    }
}

fn family_is_ipv4(destination: Option<Cidr>, source: Option<Cidr>) -> (r: bool)
    ensures
        r == rule_family_is_ipv4(destination, source),
{
    match destination {
        Some(d) => d.is_ipv4(),
        None => match source {
            Some(s) => s.is_ipv4(),
            None => true,
        },
    }
}

/// Work for the kernel, carried out by the program around the library.
#[derive(Debug)]
#[allow(inconsistent_fields)]
pub enum KernelRequest {
    /// Add a unicast route to `destination` through `interface` in a table
    AddRoute { destination: Cidr, gateway: Option<IpAddress>, interface: String, table_id: u32, metric: u32 },
    /// Delete the static unicast route to `destination` from a table
    RemoveRoute { destination: Cidr, table: u8 },
    /// Add a policy rule sending traffic to a table
    AddPolicyRule { is_ipv4: bool, destination: Option<Cidr>, source: Option<Cidr>, table_id: u32, priority: u32 },
    /// Delete a policy rule
    RemovePolicyRule { message: RuleMessageSpec },
    /// Delete every route of a table, then every policy rule pointing to it
    FlushTable { table: u8 },
}

/// What a route manager operation amounts to.
#[derive(Debug)]
pub enum RouteOp {
    /// Nothing to do (dry-run mode): the operation succeeds
    Done,
    /// The operation fails without touching the kernel
    Fail(NicAutoSwitchError),
    /// The kernel must carry out the request
    Kernel(KernelRequest),
}

/// Detail of the error when there is no kernel connection.
pub open spec fn no_connection_message() -> Seq<char> {
    "No rtnetlink connection (check CAP_NET_ADMIN or dry-run mode)"@
}

/// Detail of the error when there is no kernel connection to add a route.
pub open spec fn no_connection_add_route_message() -> Seq<char> {
    "No rtnetlink connection (daemon may not have CAP_NET_ADMIN or is in dry-run mode)"@
}

/// The operation fails with a route error carrying `msg`.
pub open spec fn fails_with_route(op: RouteOp, msg: Seq<char>) -> bool {
    op matches RouteOp::Fail(NicAutoSwitchError::Route(m)) && m@ == msg
}

/// Route manager for policy routing: table numbering and the decisions of
/// each routing operation.
#[derive(Debug, Clone, Copy)]
pub struct RouteManager {
    base_table_id: u32,
    dry_run: bool,
    connected: bool,
}

/// Detail of the error for a base table ID out of range.
pub open spec fn base_table_range_message(verb: Seq<char>) -> Seq<char> {
    "base_table_id "@ + verb + " between "@ + decimal(IPV4_TABLE_START as nat) + " and "@
        + decimal(IPV4_TABLE_END as nat)
}

fn base_table_range_error(verb: &str) -> (r: NicAutoSwitchError)
    ensures
        r matches NicAutoSwitchError::InvalidInput(m) && m@ == base_table_range_message(verb@),
{
    let mut m = String::from_str("base_table_id ");
    m.append(verb);
    m.append(" between ");
    let a = decimal_string(IPV4_TABLE_START as u64);
    m.append(a.as_str());
    m.append(" and ");
    let b = decimal_string(IPV4_TABLE_END as u64);
    m.append(b.as_str());
    NicAutoSwitchError::InvalidInput(m)
}

impl Default for RouteManager {
    fn default() -> (r: Self)
        ensures
            r.spec_base_table_id() == IPV4_TABLE_START,
            r.spec_dry_run(),
            !r.spec_connected(),
    {
        RouteManager { base_table_id: IPV4_TABLE_START, dry_run: true, connected: false }
    }
}


/// What adding a route amounts to (see `RouteManager::add_route`).
pub open spec fn add_route_op(rm: RouteManager, op: RouteOp, destination: Cidr, gateway: Option<IpAddress>, interface: Seq<char>, table_id: u32, metric: u32) -> bool {
    if rm.spec_dry_run() {
        op is Done
    } else if !rm.spec_connected() {
        fails_with_route(op, no_connection_add_route_message())
    } else {
        op matches RouteOp::Kernel(KernelRequest::AddRoute { destination: d, gateway: g, interface: i, table_id: t, metric: m })
            && d == destination && i@ == interface && t == table_id && m == metric
            && g == match gateway {
                Some(gw) => if (gw is V4) == (destination.spec_ip() is V4) { Some(gw) } else { None },
                None => None,
            }
    }
}

/// What removing a route amounts to (see `RouteManager::remove_route`).
pub open spec fn remove_route_op(rm: RouteManager, op: RouteOp, destination: Cidr, table_id: u32) -> bool {
    if rm.spec_dry_run() {
        op is Done
    } else if !rm.spec_connected() {
        fails_with_route(op, no_connection_message())
    } else if table_id > MAX_TABLE_ID {
        fails_with_route(op, table_id_overflow_message(table_id))
    } else {
        op matches RouteOp::Kernel(KernelRequest::RemoveRoute { destination: d, table: t }) && d == destination && t == table_id
    }
}

/// What adding a policy rule amounts to (see `RouteManager::add_policy_rule`).
pub open spec fn add_policy_rule_op(rm: RouteManager, op: RouteOp, destination: Option<Cidr>, source: Option<Cidr>, table_id: u32, priority: u32) -> bool {
    if rm.spec_dry_run() {
        op is Done
    } else if !rm.spec_connected() {
        fails_with_route(op, no_connection_message())
    } else {
        op == RouteOp::Kernel(KernelRequest::AddPolicyRule {
            is_ipv4: rule_family_is_ipv4(destination, source),
            destination: of_family(destination, rule_family_is_ipv4(destination, source)),
            source: of_family(source, rule_family_is_ipv4(destination, source)),
            table_id,
            priority,
        })
    }
}

/// What removing a policy rule amounts to (see `RouteManager::remove_policy_rule`).
pub open spec fn remove_policy_rule_op(rm: RouteManager, op: RouteOp, destination: Option<Cidr>, source: Option<Cidr>, table_id: u32, priority: u32) -> bool {
    if rm.spec_dry_run() {
        op is Done
    } else if !rm.spec_connected() {
        fails_with_route(op, no_connection_message())
    } else if table_id > MAX_TABLE_ID {
        fails_with_route(op, table_id_overflow_message(table_id))
    } else {
        op == RouteOp::Kernel(KernelRequest::RemovePolicyRule { message: RuleMessageSpec {
            table: table_id as u8,
            is_ipv4: rule_family_is_ipv4(destination, source),
            destination: of_family(destination, rule_family_is_ipv4(destination, source)),
            source: of_family(source, rule_family_is_ipv4(destination, source)),
            priority,
        } })
    }
}

/// What flushing a table (routes, then policy rules) amounts to (see
/// `RouteManager::flush_table_complete`).
pub open spec fn flush_table_op(rm: RouteManager, op: RouteOp, table_id: u32) -> bool {
    if rm.spec_dry_run() {
        op is Done
    } else if !rm.spec_connected() {
        fails_with_route(op, no_connection_message())
    } else if table_id > MAX_TABLE_ID {
        fails_with_route(op, table_id_overflow_message(table_id))
    } else {
        op == RouteOp::Kernel(KernelRequest::FlushTable { table: table_id as u8 })
    }
}

impl RouteManager {
    #[verifier::type_invariant]
    spec fn base_in_range(self) -> bool {
        IPV4_TABLE_START <= self.base_table_id <= IPV4_TABLE_END
    }

    /// Base table ID for IPv4.
    pub closed spec fn spec_base_table_id(self) -> u32 {
        self.base_table_id
    }

    /// Whether operations only pretend to happen.
    pub closed spec fn spec_dry_run(self) -> bool {
        self.dry_run
    }

    /// Whether a kernel connection stands behind the manager.
    pub closed spec fn spec_connected(self) -> bool {
        self.connected
    }

    /// A manager for the daemon: a kernel connection is expected unless in
    /// dry-run mode.
    pub fn with_connection(base_table_id: u32, dry_run: bool) -> (r: crate::error::Result<Self>)
        ensures
            !(IPV4_TABLE_START <= base_table_id <= IPV4_TABLE_END) ==> (r matches Err(NicAutoSwitchError::InvalidInput(m))
                && m@ == base_table_range_message("must be"@)),
            IPV4_TABLE_START <= base_table_id <= IPV4_TABLE_END ==> (r matches Ok(rm)
                && rm.spec_base_table_id() == base_table_id && rm.spec_dry_run() == dry_run
                && rm.spec_connected() == !dry_run),
    {
        if base_table_id < IPV4_TABLE_START || base_table_id > IPV4_TABLE_END {
            return Err(base_table_range_error("must be"));
        }
        Ok(RouteManager { base_table_id, dry_run, connected: !dry_run })
    }

    /// A manager without kernel connection (dry run), for validation and
    /// testing.
    pub fn new(base_table_id: u32) -> (r: crate::error::Result<Self>)
        ensures
            !(IPV4_TABLE_START <= base_table_id <= IPV4_TABLE_END) ==> (r matches Err(NicAutoSwitchError::InvalidInput(m))
                && m@ == base_table_range_message("should be"@)),
            IPV4_TABLE_START <= base_table_id <= IPV4_TABLE_END ==> (r matches Ok(rm)
                && rm.spec_base_table_id() == base_table_id && rm.spec_dry_run() && !rm.spec_connected()),
    {
        if base_table_id < IPV4_TABLE_START || base_table_id > IPV4_TABLE_END {
            return Err(base_table_range_error("should be"));
        }
        Ok(RouteManager { base_table_id, dry_run: true, connected: false })
    }

    /// The same manager with dry-run mode switched; the kernel connection (or
    /// its absence) stays as it is.
    pub fn with_dry_run(self, dry_run: bool) -> (r: Self)
        ensures
            r.spec_dry_run() == dry_run,
            r.spec_connected() == self.spec_connected(),
            r.spec_base_table_id() == self.spec_base_table_id(),
    {
        proof { use_type_invariant(&self); }
        RouteManager { dry_run, ..self }
    }

    /// The routing table of an interface index for IPv4: base plus index.
    pub fn table_id_v4(&self, index: u8) -> (r: u32)
        ensures
            r == self.spec_base_table_id() + index,
    {
        proof { use_type_invariant(self); }
        self.base_table_id + index as u32
    }

    /// The routing table of an interface index for IPv6: 200 plus index.
    pub fn table_id_v6(&self, index: u8) -> (r: u32)
        ensures
            r == IPV6_TABLE_START + index,
    {
        IPV6_TABLE_START + index as u32
    }

    /// Whether dry-run mode is active.
    pub fn is_dry_run(&self) -> (r: bool)
        ensures
            r == self.spec_dry_run(),
    {
        self.dry_run
    }

    /// Whether a kernel connection stands behind the manager.
    pub fn is_connected(&self) -> (r: bool)
        ensures
            r == self.spec_connected(),
    {
        self.connected
    }

    /// The base table ID.
    pub fn base_table_id(&self) -> (r: u32)
        ensures
            r == self.spec_base_table_id(),
            IPV4_TABLE_START <= r <= IPV4_TABLE_END,
    {
        proof { use_type_invariant(self); }
        self.base_table_id
    }

    fn no_connection(&self) -> (r: RouteOp)
        ensures
            fails_with_route(r, no_connection_message()),
    {
        RouteOp::Fail(NicAutoSwitchError::Route(String::from_str("No rtnetlink connection (check CAP_NET_ADMIN or dry-run mode)")))
    }

    /// Adding a route: nothing in dry-run mode, an error without connection,
    /// else the request (the gateway kept only when its family matches).
    pub fn add_route(&self, destination: Cidr, gateway: Option<IpAddress>, interface: &str, table_id: u32, metric: u32) -> (r: RouteOp)
        ensures
            add_route_op(*self, r, destination, gateway, interface@, table_id, metric),
    {
        if self.dry_run {
            return RouteOp::Done;
        }
        if !self.connected {
            return RouteOp::Fail(NicAutoSwitchError::Route(String::from_str(
                "No rtnetlink connection (daemon may not have CAP_NET_ADMIN or is in dry-run mode)",
            )));
        }
        let gw = match gateway {
            Some(g) => if g.is_ipv4() == destination.is_ipv4() { Some(g) } else { None },
            None => None,
        };
        RouteOp::Kernel(KernelRequest::AddRoute {
            destination,
            gateway: gw,
            interface: String::from_str(interface),
            table_id,
            metric,
        })
    }

    /// Removing a route: nothing in dry-run mode, an error without
    /// connection or for a table ID over one byte, else the request.
    pub fn remove_route(&self, destination: Cidr, table_id: u32) -> (r: RouteOp)
        ensures
            remove_route_op(*self, r, destination, table_id),
    {
        if self.dry_run {
            return RouteOp::Done;
        }
        if !self.connected {
            return self.no_connection();
        }
        match table_id_to_u8(table_id) {
            Ok(table) => RouteOp::Kernel(KernelRequest::RemoveRoute { destination, table }),
            Err(e) => RouteOp::Fail(e),
        }
    }

    /// Adding a policy rule: nothing in dry-run mode, an error without
    /// connection, else the request in the family of the rule.
    pub fn add_policy_rule(&self, destination: Option<Cidr>, source: Option<Cidr>, table_id: u32, priority: u32) -> (r: RouteOp)
        ensures
            add_policy_rule_op(*self, r, destination, source, table_id, priority),
    {
        if self.dry_run {
            return RouteOp::Done;
        }
        if !self.connected {
            return self.no_connection();
        }
        let is_ipv4 = family_is_ipv4(destination, source);
        RouteOp::Kernel(KernelRequest::AddPolicyRule {
            is_ipv4,
            destination: keep_family(destination, is_ipv4),
            source: keep_family(source, is_ipv4),
            table_id,
            priority,
        })
    }

    /// Removing a policy rule: nothing in dry-run mode, an error without
    /// connection or for a table ID over one byte, else the request.
    pub fn remove_policy_rule(&self, destination: Option<Cidr>, source: Option<Cidr>, table_id: u32, priority: u32) -> (r: RouteOp)
        ensures
            remove_policy_rule_op(*self, r, destination, source, table_id, priority),
    {
        if self.dry_run {
            return RouteOp::Done;
        }
        if !self.connected {
            return self.no_connection();
        }
        let is_ipv4 = family_is_ipv4(destination, source);
        match build_rule_message(destination, source, table_id, priority, is_ipv4) {
            Ok(message) => RouteOp::Kernel(KernelRequest::RemovePolicyRule { message }),
            Err(e) => RouteOp::Fail(e),
        }
    }

    /// Flushing a table (its routes, then the policy rules pointing to it):
    /// nothing in dry-run mode, an error without connection or for a table
    /// ID over one byte, else the request.
    pub fn flush_table_complete(&self, table_id: u32) -> (r: RouteOp)
        ensures
            flush_table_op(*self, r, table_id),
    {
        if self.dry_run {
            return RouteOp::Done;
        }
        if !self.connected {
            return self.no_connection();
        }
        match table_id_to_u8(table_id) {
            Ok(table) => RouteOp::Kernel(KernelRequest::FlushTable { table }),
            Err(e) => RouteOp::Fail(e),
        }
    }

    /// Whether the kernel must be asked to list a table (flush, lookups):
    /// `Ok(false)` in dry-run mode (the operation reports nothing), an error
    /// without connection, `Ok(true)` otherwise.
    pub fn needs_kernel(&self) -> (r: crate::error::Result<bool>)
        ensures
            self.spec_dry_run() ==> r == Ok::<bool, NicAutoSwitchError>(false),
            !self.spec_dry_run() && !self.spec_connected() ==> (r matches Err(NicAutoSwitchError::Route(m)) && m@ == no_connection_message()),
            !self.spec_dry_run() && self.spec_connected() ==> r == Ok::<bool, NicAutoSwitchError>(true),
    {
        if self.dry_run {
            return Ok(false);
        }
        if !self.connected {
            return Err(NicAutoSwitchError::Route(String::from_str("No rtnetlink connection (check CAP_NET_ADMIN or dry-run mode)")));
        }
        Ok(true)
    }

    /// Resolving an interface name needs a kernel connection (also in
    /// dry-run mode).
    pub fn can_resolve_interface(&self) -> (r: crate::error::Result<()>)
        ensures
            self.spec_connected() ==> r is Ok,
            !self.spec_connected() ==> (r matches Err(NicAutoSwitchError::Route(m)) && m@ == no_connection_message()),
    {
        if !self.connected {
            return Err(NicAutoSwitchError::Route(String::from_str("No rtnetlink connection (check CAP_NET_ADMIN or dry-run mode)")));
        }
        Ok(())
    }
}

/// Whether a listed route is the route to `destination`: same prefix
/// length, and a destination attribute of the same family and address.
pub fn route_matches_destination(prefix_len: u8, destinations: &Vec<IpAddress>, destination: Cidr) -> (r: bool)
    ensures
        r == (prefix_len as nat == destination.spec_prefix()
            && exists|i: int| 0 <= i < destinations@.len() && destinations@[i] == destination.spec_ip()),
{
    if prefix_len != destination.prefix() {
        return false;
    }
    let target = destination.ip();
    let n = destinations.len();
    let mut i: usize = 0;
    while i < n
        invariant
            n == destinations@.len(),
            i <= n,
            target == destination.spec_ip(),
            prefix_len as nat == destination.spec_prefix(),
            forall|j: int| 0 <= j < i ==> destinations@[j] != target,
        decreases n - i,
    {
        if destinations[i] == target {
            assert(destinations@[i as int] == destination.spec_ip());
            return true;
        }
        i = i + 1;
    }
    false
}

/// Whether a listed route leaves through the interface with index `if_index`.
pub fn route_uses_interface(output_interfaces: &Vec<u32>, if_index: u32) -> (r: bool)
    ensures
        r == output_interfaces@.contains(if_index),
{
    let n = output_interfaces.len();
    let mut i: usize = 0;
    while i < n
        invariant
            n == output_interfaces@.len(),
            i <= n,
            forall|j: int| 0 <= j < i ==> output_interfaces@[j] != if_index,
        decreases n - i,
    {
        if output_interfaces[i] == if_index {
            proof { assert(output_interfaces@[i as int] == if_index); }
            return true;
        }
        i = i + 1;
    }
    false
}

/// Number of interface slots cleaned at start-up.
pub const MAX_INTERFACES: u32 = 32;

/// Tables that earlier runs may have filled, in cleaning order: for each
/// slot, its IPv4 table (base plus slot) then its IPv6 table (200 plus slot).
pub open spec fn stale_tables(base: u32) -> Seq<u32> {
    Seq::new(2 * MAX_INTERFACES as nat, |i: int| if i % 2 == 0 { (base + i / 2) as u32 } else { (IPV6_TABLE_START + i / 2) as u32 })
}

impl RouteManager {
    /// The tables that earlier runs may have filled (see `stale_tables`).
    pub fn stale_table_ids(&self) -> (r: Vec<u32>)
        ensures
            r@ == stale_tables(self.spec_base_table_id()),
    {
        proof { use_type_invariant(self); }
        let base = self.base_table_id;
        let mut out: Vec<u32> = Vec::new();
        let mut idx: u32 = 0;
        while idx < MAX_INTERFACES
            invariant
                idx <= MAX_INTERFACES,
                base == self.spec_base_table_id(),
                base <= IPV4_TABLE_END,
                out@.len() == 2 * idx,
                forall|i: int| 0 <= i < out@.len() ==> out@[i] == stale_tables(base)[i],
            decreases MAX_INTERFACES - idx,
        {
            out.push(base + idx);
            out.push(IPV6_TABLE_START + idx);
            idx = idx + 1;
        }
        assert(out@ =~= stale_tables(base));
        out
    }
}

} // verus!

verus! {

/// Why a rule has no destination network: domains need DNS resolution first.
pub open spec fn destination_error(rule: RouteRule) -> Option<Seq<char>> {
    match rule.match_on {
        MatchOn::Domain { domain } => Some("Domain '"@ + domain@ + "' needs DNS resolution first"@),
        MatchOn::DomainPattern { domain_pattern } => Some("Domain pattern '"@ + domain_pattern@ + "' needs DNS resolution first"@),
        _ => None,
    }
}

/// The destination network of a rule: its CIDR, or the single-host network
/// (/32 or /128) of its IP address.
pub open spec fn is_rule_destination(rule: RouteRule, c: Cidr) -> bool {
    match rule.match_on {
        MatchOn::Cidr { cidr } => c == cidr,
        MatchOn::Ip { ip } => c.spec_ip() == ip && c.spec_prefix() == crate::net::address_bits(ip),
        _ => false,
    }
}

/// Outcome of checking a rule before applying it: the configuration checks
/// of the rule, then a non-empty target interface.
pub open spec fn rule_check_outcome(r: crate::error::Result<()>, rule: RouteRule) -> bool {
    match route_rule_error(rule) {
        Some(m) => config_outcome(r, Some(m)),
        None => if rule.route_via.interface@.len() == 0 {
            r matches Err(NicAutoSwitchError::InvalidInput(m)) && m@ == "Interface cannot be empty"@
        } else {
            r is Ok
        },
    }
}

/// Applies and removes route rules through a route manager.
#[derive(Debug, Clone, Copy)]
pub struct RuleOperator {
    route_manager: RouteManager,
}

impl RuleOperator {
    /// A rule operator working with the given route manager.
    pub fn new(route_manager: RouteManager) -> (r: Self)
        ensures
            r.spec_route_manager() == route_manager,
    {
        RuleOperator { route_manager }
    }

    /// The route manager in use.
    pub closed spec fn spec_route_manager(self) -> RouteManager {
        self.route_manager
    }

    /// The destination network of a rule; domain rules are refused.
    pub fn get_destination(&self, rule: &RouteRule) -> (r: crate::error::Result<Cidr>)
        ensures
            destination_error(*rule) is None ==> (r matches Ok(c) && is_rule_destination(*rule, c)),
            destination_error(*rule) matches Some(msg) ==> (r matches Err(NicAutoSwitchError::InvalidInput(m)) && m@ == msg),
    {
        match &rule.match_on {
            MatchOn::Cidr { cidr } => Ok(*cidr),
            MatchOn::Ip { ip } => {
                let prefix: u8 = if ip.is_ipv4() { 32 } else { 128 };
                match Cidr::new(*ip, prefix) {
                    Some(c) => Ok(c),
                    None => Err(NicAutoSwitchError::InvalidInput(String::from_str("Invalid IP address"))),
                }
            },
            MatchOn::Domain { domain } => Err(NicAutoSwitchError::InvalidInput(crate::text::surround(
                "Domain '",
                domain.as_str(),
                "' needs DNS resolution first",
            ))),
            MatchOn::DomainPattern { domain_pattern } => Err(NicAutoSwitchError::InvalidInput(crate::text::surround(
                "Domain pattern '",
                domain_pattern.as_str(),
                "' needs DNS resolution first",
            ))),
        }
    }

    /// The gateway of a rule: rules carry none.
    pub fn get_gateway(&self, rule: &RouteRule) -> (r: crate::error::Result<Option<IpAddress>>)
        ensures
            r matches Ok(g) && g is None,
    {
        Ok(None)
    }

    /// Checks a rule before applying it (see `rule_check_outcome`).
    pub fn validate_rule(&self, rule: &RouteRule) -> (r: crate::error::Result<()>)
        ensures
            rule_check_outcome(r, *rule),
    {
        rule.validate()?;
        if rule.name.as_str().is_empty() {
            return Err(NicAutoSwitchError::InvalidInput(String::from_str("Rule name cannot be empty")));
        }
        if rule.route_via.interface.as_str().is_empty() {
            return Err(NicAutoSwitchError::InvalidInput(String::from_str("Interface cannot be empty")));
        }
        Ok(())
    }

    /// The two operations that apply a rule, to be carried out in order
    /// (the second only if the first succeeds): a policy rule sending the
    /// rule's destination to `table_id`, then a route to it through the
    /// rule's interface in that table, both with the rule's priority.
    pub fn apply_rule(&self, rule: &RouteRule, interface_index: u8, table_id: u32) -> (r: crate::error::Result<(RouteOp, RouteOp)>)
        ensures
            destination_error(*rule) matches Some(msg) ==> (r matches Err(NicAutoSwitchError::InvalidInput(m)) && m@ == msg),
            destination_error(*rule) is None ==> (r matches Ok((first, second)) && exists|c: Cidr| is_rule_destination(*rule, c)
                && add_policy_rule_op(self.spec_route_manager(), first, Some(c), None, table_id, rule.priority)
                && add_route_op(self.spec_route_manager(), second, c, None, rule.route_via.interface@, table_id, rule.priority)),
    {
        let destination = self.get_destination(rule)?;
        let gateway = self.get_gateway(rule)?;
        let first = self.route_manager.add_policy_rule(Some(destination), None, table_id, rule.priority);
        let second = self.route_manager.add_route(destination, gateway, rule.route_via.interface.as_str(), table_id, rule.priority);
        Ok((first, second))
    }

    /// The two operations that remove a rule, to be carried out in order:
    /// the policy rule, then the route.
    pub fn remove_rule(&self, rule: &RouteRule, table_id: u32) -> (r: crate::error::Result<(RouteOp, RouteOp)>)
        ensures
            destination_error(*rule) matches Some(msg) ==> (r matches Err(NicAutoSwitchError::InvalidInput(m)) && m@ == msg),
            destination_error(*rule) is None ==> (r matches Ok((first, second)) && exists|c: Cidr| is_rule_destination(*rule, c)
                && remove_policy_rule_op(self.spec_route_manager(), first, Some(c), None, table_id, rule.priority)
                && remove_route_op(self.spec_route_manager(), second, c, table_id)),
    {
        let destination = self.get_destination(rule)?;
        let first = self.route_manager.remove_policy_rule(Some(destination), None, table_id, rule.priority);
        let second = self.route_manager.remove_route(destination, table_id);
        Ok((first, second))
    }
}

} // verus!
