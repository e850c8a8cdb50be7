//! Configuration data and its validation.
//!
//! Reading the configuration file and decoding TOML happen in the program
//! around the library; it hands the decoded values over in these types.

use vstd::prelude::*;
use vstd::string::StringExecFns;
use crate::error::{NicAutoSwitchError, config_outcome, first_error, lemma_first_error_step};
use crate::net::{Cidr, IpAddress};
use crate::strmap::StrMap;
use crate::text::{ascii_lower_seq, eq_ascii_lowercase, decimal, decimal_string, starts_with_char, ends_with_char, surround};

verus! {

/// Largest accepted `table_id_start` (table IDs travel as one byte).
pub const MAX_TABLE_ID_START: u32 = 252;

/// Global configuration settings.
#[derive(Debug)]
pub struct GlobalConfig {
    /// Network state monitoring interval in seconds
    pub monitor_interval: u64,
    /// Log level: trace, debug, info, warn, error
    pub log_level: String,
    /// If true, don't actually modify routing tables
    pub dry_run: bool,
    /// Starting routing table ID for IPv4
    pub table_id_start: u32,
}

/// Default monitoring interval in seconds.
pub fn default_monitor_interval() -> (r: u64)
    ensures
        r == 5,
{
    5
}

/// Default log level.
pub fn default_log_level() -> (r: String)
    ensures
        r@ == "info"@,
{
    String::from_str("info")
}

/// Default first routing table ID.
pub fn default_table_id_start() -> (r: u32)
    ensures
        r == 100,
{
    100
}

/// Default interface priority.
pub fn default_interface_priority() -> (r: u32)
    ensures
        r == 100,
{
    100
}

impl Default for GlobalConfig {
    fn default() -> (r: Self)
        ensures
            r.monitor_interval == 5,
            r.log_level@ == "info"@,
            !r.dry_run,
            r.table_id_start == 100,
    {
        GlobalConfig {
            monitor_interval: default_monitor_interval(),
            log_level: default_log_level(),
            dry_run: false,
            table_id_start: default_table_id_start(),
        }
    }
}

impl Clone for GlobalConfig {
    fn clone(&self) -> (r: Self)
        ensures
            r == *self,
    {
        GlobalConfig {
            monitor_interval: self.monitor_interval,
            log_level: self.log_level.clone(),
            dry_run: self.dry_run,
            table_id_start: self.table_id_start,
        }
    }
}

/// Accepted log levels, compared without regard to ASCII case.
pub open spec fn valid_log_level(level: Seq<char>) -> bool {
    let l = ascii_lower_seq(level);
    l == "trace"@ || l == "debug"@ || l == "info"@ || l == "warn"@ || l == "error"@
}

/// Detail of the error for a log level outside the accepted ones.
pub open spec fn invalid_log_level_message(level: Seq<char>) -> Seq<char> {
    "Invalid log_level '"@ + level + "'. Must be one of: [\"trace\", \"debug\", \"info\", \"warn\", \"error\"]"@
}

/// Detail of the error for a `table_id_start` out of range.
pub open spec fn table_id_start_message() -> Seq<char> {
    "table_id_start must be between 100 and "@ + decimal(MAX_TABLE_ID_START as nat)
}

/// The error detail of the global settings, checked in order: interval,
/// log level, table ID range; `None` when they are valid.
pub open spec fn global_config_error(g: GlobalConfig) -> Option<Seq<char>> {
    if g.monitor_interval == 0 {
        Some("monitor_interval must be greater than 0"@)
    } else if !valid_log_level(g.log_level@) {
        Some(invalid_log_level_message(g.log_level@))
    } else if g.table_id_start < 100 || g.table_id_start > MAX_TABLE_ID_START {
        Some(table_id_start_message())
    } else {
        None
    }
}

fn is_valid_log_level(level: &String) -> (r: bool)
    ensures
        r == valid_log_level(level@),
{
    eq_ascii_lowercase(level.as_str(), "trace") || eq_ascii_lowercase(level.as_str(), "debug")
        || eq_ascii_lowercase(level.as_str(), "info") || eq_ascii_lowercase(level.as_str(), "warn")
        || eq_ascii_lowercase(level.as_str(), "error")
}

impl GlobalConfig {
    /// Turns dry-run mode on when asked from the command line; it is never
    /// turned off this way.
    pub fn override_dry_run(&mut self, dry_run: bool)
        ensures
            final(self).dry_run == (old(self).dry_run || dry_run),
            final(self).monitor_interval == old(self).monitor_interval,
            final(self).log_level == old(self).log_level,
            final(self).table_id_start == old(self).table_id_start,
    {
        if dry_run && !self.dry_run {
            self.dry_run = true;
        }
    }

    /// Validate global configuration.
    pub fn validate(&self) -> (r: crate::error::Result<()>)
        ensures
            config_outcome(r, global_config_error(*self)),
    {
        if self.monitor_interval == 0 {
            return Err(NicAutoSwitchError::Config(String::from_str("monitor_interval must be greater than 0")));
        }
        if !is_valid_log_level(&self.log_level) {
            let m = surround(
                "Invalid log_level '",
                self.log_level.as_str(),
                "'. Must be one of: [\"trace\", \"debug\", \"info\", \"warn\", \"error\"]",
            );
            return Err(NicAutoSwitchError::Config(m));
        }
        if self.table_id_start < 100 || self.table_id_start > MAX_TABLE_ID_START {
            let mut m = String::from_str("table_id_start must be between 100 and ");
            let n = decimal_string(MAX_TABLE_ID_START as u64);
            m.append(n.as_str());
            return Err(NicAutoSwitchError::Config(m));
        }
        Ok(())
    }
}

/// Interface type.
#[derive(Debug, Clone, Copy, PartialEq, Eq, Structural)]
pub enum InterfaceType {
    /// Wired LAN interface
    Lan,
    /// Wireless WLAN interface
    Wlan,
    /// VPN interface
    Vpn,
}

/// Interface matching criteria.
#[derive(Debug)]
pub enum MatchBy {
    /// Match by exact interface name
    Name { name: String },
    /// Match by interface name pattern (e.g., "eth*")
    Pattern { pattern: String },
    /// Match by MAC address
    Mac { mac: String },
}

impl Clone for MatchBy {
    fn clone(&self) -> (r: Self)
        ensures
            r == *self,
    {
        match self {
            MatchBy::Name { name } => MatchBy::Name { name: name.clone() },
            MatchBy::Pattern { pattern } => MatchBy::Pattern { pattern: pattern.clone() },
            MatchBy::Mac { mac } => MatchBy::Mac { mac: mac.clone() },
        }
    }
}

/// Interface configuration.
#[derive(Debug)]
pub struct InterfaceConfig {
    /// Interface type
    pub interface_type: InterfaceType,
    /// How to match this interface
    pub match_by: MatchBy,
    /// Priority (lower = higher priority)
    pub priority: u32,
}

impl Clone for InterfaceConfig {
    fn clone(&self) -> (r: Self)
        ensures
            r == *self,
    {
        InterfaceConfig { interface_type: self.interface_type, match_by: self.match_by.clone(), priority: self.priority }
    }
}

/// The error detail of an interface configuration; `None` when valid.
pub open spec fn interface_config_error(c: InterfaceConfig) -> Option<Seq<char>> {
    match c.match_by {
        MatchBy::Name { name } => if name@.len() == 0 { Some("interface name cannot be empty"@) } else { None },
        MatchBy::Pattern { pattern } => if pattern@.len() == 0 { Some("interface pattern cannot be empty"@) } else { None },
        MatchBy::Mac { mac } => if mac@.len() == 0 { Some("MAC address cannot be empty"@) } else { None },
    }
}

impl InterfaceConfig {
    /// Validate interface configuration: the matching value must not be empty.
    pub fn validate(&self) -> (r: crate::error::Result<()>)
        ensures
            config_outcome(r, interface_config_error(*self)),
    {
        match &self.match_by {
            MatchBy::Name { name } => {
                if name.as_str().is_empty() {
                    return Err(NicAutoSwitchError::Config(String::from_str("interface name cannot be empty")));
                }
            },
            MatchBy::Pattern { pattern } => {
                if pattern.as_str().is_empty() {
                    return Err(NicAutoSwitchError::Config(String::from_str("interface pattern cannot be empty")));
                }
            },
            MatchBy::Mac { mac } => {
                if mac.as_str().is_empty() {
                    return Err(NicAutoSwitchError::Config(String::from_str("MAC address cannot be empty")));
                }
            },
        }
        Ok(())
    }
}

/// Route matching condition.
#[derive(Debug)]
pub enum MatchOn {
    /// Match a CIDR network (e.g., 10.0.0.0/8)
    Cidr { cidr: Cidr },
    /// Match an exact IP address
    Ip { ip: IpAddress },
    /// Match an exact domain name
    Domain { domain: String },
    /// Match a domain pattern (wildcard such as "*.example.com")
    DomainPattern { domain_pattern: String },
}

impl Clone for MatchOn {
    fn clone(&self) -> (r: Self)
        ensures
            r == *self,
    {
        match self {
            MatchOn::Cidr { cidr } => MatchOn::Cidr { cidr: *cidr },
            MatchOn::Ip { ip } => MatchOn::Ip { ip: *ip },
            MatchOn::Domain { domain } => MatchOn::Domain { domain: domain.clone() },
            MatchOn::DomainPattern { domain_pattern } => MatchOn::DomainPattern { domain_pattern: domain_pattern.clone() },
        }
    }
}

/// Route target.
#[derive(Debug)]
pub struct RouteVia {
    /// Target interface name
    pub interface: String,
}

impl Clone for RouteVia {
    fn clone(&self) -> (r: Self)
        ensures
            r == *self,
    {
        RouteVia { interface: self.interface.clone() }
    }
}

impl PartialEq for RouteVia {
    fn eq(&self, other: &Self) -> (r: bool) {
        self.interface == other.interface
    }
}

impl vstd::std_specs::cmp::PartialEqSpecImpl for RouteVia {
    open spec fn obeys_eq_spec() -> bool {
        true
    }

    open spec fn eq_spec(&self, other: &Self) -> bool {
        self.interface@ == other.interface@
    }
}

/// Routing rule.
#[derive(Debug)]
pub struct RouteRule {
    /// Rule name for identification
    pub name: String,
    /// Matching condition
    pub match_on: MatchOn,
    /// Route target
    pub route_via: RouteVia,
    /// Priority (lower = higher priority)
    pub priority: u32,
}

impl Clone for RouteRule {
    fn clone(&self) -> (r: Self)
        ensures
            r == *self,
    {
        RouteRule {
            name: self.name.clone(),
            match_on: self.match_on.clone(),
            route_via: self.route_via.clone(),
            priority: self.priority,
        }
    }
}

/// Detail of the error for a domain pattern that does not start with `*`.
pub open spec fn domain_pattern_message(p: Seq<char>) -> Seq<char> {
    "domain_pattern '"@ + p + "' must start with '*' for wildcard matching"@
}

/// The error detail of a routing rule; `None` when valid.
pub open spec fn route_rule_error(r: RouteRule) -> Option<Seq<char>> {
    if r.name@.len() == 0 {
        Some("rule name cannot be empty"@)
    } else {
        match r.match_on {
            MatchOn::DomainPattern { domain_pattern } =>
                if !(domain_pattern@.len() > 0 && (domain_pattern@[0] == '*'
                    || domain_pattern@[domain_pattern@.len() - 1] == '*')) {
                    Some(domain_pattern_message(domain_pattern@))
                } else {
                    None
                },
            _ => None,
        }
    }
}

impl RouteRule {
    /// Validate routing rule: non-empty name, and domain patterns start
    /// (suffix wildcard) or end (prefix wildcard) with `*`.
    pub fn validate(&self) -> (r: crate::error::Result<()>)
        ensures
            config_outcome(r, route_rule_error(*self)),
    {
        if self.name.as_str().is_empty() {
            return Err(NicAutoSwitchError::Config(String::from_str("rule name cannot be empty")));
        }
        match &self.match_on {
            MatchOn::DomainPattern { domain_pattern } => {
                if !starts_with_char(domain_pattern.as_str(), '*') && !ends_with_char(domain_pattern.as_str(), '*') {
                    let m = surround(
                        "domain_pattern '",
                        domain_pattern.as_str(),
                        "' must start with '*' for wildcard matching",
                    );
                    return Err(NicAutoSwitchError::Config(m));
                }
            },
            _ => {},
        }
        Ok(())
    }
}

/// The first error among a list of rules checked in order.
pub open spec fn rules_error(rules: Seq<RouteRule>) -> Option<Seq<char>> {
    first_error(rules, |r: RouteRule| route_rule_error(r))
}

fn validate_rules(rules: &Vec<RouteRule>) -> (r: crate::error::Result<()>)
    ensures
        config_outcome(r, rules_error(rules@)),
{
    let n = rules.len();
    let mut i: usize = 0;
    while i < n
        invariant
            n == rules@.len(),
            i <= n,
            rules_error(rules@.take(i as int)) is None,
        decreases n - i,
    {
        proof { lemma_first_error_step(rules@, |r: RouteRule| route_rule_error(r), i as int); }
        match rules[i].validate() {
            Ok(()) => {},
            Err(e) => {
                assert(rules@.take(n as int) =~= rules@);
                proof { lemma_first_error_prefix(rules@, |r: RouteRule| route_rule_error(r), (i + 1) as int); }
                return Err(e);
            },
        }
        i = i + 1;
    }
    assert(rules@.take(n as int) =~= rules@);
    Ok(())
}

/// Once a prefix of the sequence has an error, the whole sequence reports it.
pub proof fn lemma_first_error_prefix<T>(s: Seq<T>, f: spec_fn(T) -> Option<Seq<char>>, k: int)
    requires
        0 <= k <= s.len(),
        first_error(s.take(k), f) is Some,
    ensures
        first_error(s, f) == first_error(s.take(k), f),
    decreases s.len() - k,
{
    if k < s.len() {
        lemma_first_error_step(s, f, k);
        lemma_first_error_prefix(s, f, k + 1);
    } else {
        assert(s.take(k) =~= s);
    }
}

/// WiFi profile configuration.
#[derive(Debug)]
pub struct WifiProfile {
    /// Associated interface
    pub interface: String,
    /// Rules for this WiFi profile
    pub rules: Vec<RouteRule>,
}

impl Clone for WifiProfile {
    fn clone(&self) -> (r: Self)
        ensures
            r.interface == self.interface,
            r.rules@ == self.rules@,
    {
        let rules = self.rules.clone();
        assert(rules@ =~= self.rules@);
        WifiProfile { interface: self.interface.clone(), rules }
    }
}

/// The error detail of a WiFi profile; `None` when valid.
pub open spec fn wifi_profile_error(p: WifiProfile) -> Option<Seq<char>> {
    if p.interface@.len() == 0 {
        Some("interface cannot be empty"@)
    } else {
        rules_error(p.rules@)
    }
}

impl WifiProfile {
    /// Validate WiFi profile: non-empty interface, then each rule in order.
    pub fn validate(&self) -> (r: crate::error::Result<()>)
        ensures
            config_outcome(r, wifi_profile_error(*self)),
    {
        if self.interface.as_str().is_empty() {
            return Err(NicAutoSwitchError::Config(String::from_str("interface cannot be empty")));
        }
        validate_rules(&self.rules)
    }
}

/// Routing configuration.
#[derive(Debug)]
pub struct RoutingConfig {
    /// Default routing rules (applied when no WiFi profile matches)
    pub default_rules: Vec<RouteRule>,
}

impl Default for RoutingConfig {
    fn default() -> (r: Self)
        ensures
            r.default_rules@.len() == 0,
    {
        RoutingConfig { default_rules: Vec::new() }
    }
}

impl Clone for RoutingConfig {
    fn clone(&self) -> (r: Self)
        ensures
            r.default_rules@ == self.default_rules@,
    {
        let rules = self.default_rules.clone();
        assert(rules@ =~= self.default_rules@);
        RoutingConfig { default_rules: rules }
    }
}

impl RoutingConfig {
    /// Validate routing configuration: each default rule in order.
    pub fn validate(&self) -> (r: crate::error::Result<()>)
        ensures
            config_outcome(r, rules_error(self.default_rules@)),
    {
        validate_rules(&self.default_rules)
    }
}

} // verus!

verus! {

/// Top-level configuration.
#[derive(Debug)]
pub struct Config {
    /// Global settings
    pub global: GlobalConfig,
    /// Interface configurations, by interface name
    pub interfaces: StrMap<InterfaceConfig>,
    /// WiFi profile-specific rules, by SSID
    pub wifi_profiles: StrMap<WifiProfile>,
    /// Routing configuration
    pub routing: RoutingConfig,
}

impl Default for Config {
    fn default() -> (r: Self)
        ensures
            r.global.monitor_interval == 5,
            r.global.log_level@ == "info"@,
            !r.global.dry_run,
            r.global.table_id_start == 100,
            r.interfaces@.len() == 0,
            r.wifi_profiles@.len() == 0,
            r.routing.default_rules@.len() == 0,
    {
        Config {
            global: GlobalConfig::default(),
            interfaces: StrMap::new(),
            wifi_profiles: StrMap::new(),
            routing: RoutingConfig::default(),
        }
    }
}

/// Error detail for an invalid interface entry: names the interface, then
/// repeats the rendered configuration error.
pub open spec fn interface_entry_error(e: (Seq<char>, InterfaceConfig)) -> Option<Seq<char>> {
    match interface_config_error(e.1) {
        Some(m) => Some("interface '"@ + e.0 + "': "@ + ("Configuration error: "@ + m)),
        None => None,
    }
}

/// Error detail for an invalid WiFi profile entry: names the SSID, then
/// repeats the rendered configuration error.
pub open spec fn profile_entry_error(e: (Seq<char>, WifiProfile)) -> Option<Seq<char>> {
    match wifi_profile_error(e.1) {
        Some(m) => Some("wifi_profile '"@ + e.0 + "': "@ + ("Configuration error: "@ + m)),
        None => None,
    }
}

/// The error detail of a whole configuration, checked in order: global
/// settings, presence of interfaces, each interface, each WiFi profile, then
/// the default rules; `None` when valid.
pub open spec fn config_error(c: Config) -> Option<Seq<char>> {
    match global_config_error(c.global) {
        Some(m) => Some(m),
        None => if c.interfaces@.len() == 0 {
            Some("At least one interface must be configured"@)
        } else {
            match first_error(c.interfaces@, |e: (Seq<char>, InterfaceConfig)| interface_entry_error(e)) {
                Some(m) => Some(m),
                None => match first_error(c.wifi_profiles@, |e: (Seq<char>, WifiProfile)| profile_entry_error(e)) {
                    Some(m) => Some(m),
                    None => rules_error(c.routing.default_rules@),
                },
            }
        },
    }
}

fn entry_message(kind: &str, name: &String, e: &NicAutoSwitchError) -> (r: String)
    ensures
        r@ == kind@ + name@ + "': "@ + crate::error::error_text(*e),
{
    let mut m = String::from_str(kind);
    m.append(name.as_str());
    m.append("': ");
    let t = e.to_text();
    m.append(t.as_str());
    m
}

impl Config {
    /// Validate the entire configuration.
    pub fn validate(&self) -> (r: crate::error::Result<()>)
        ensures
            config_outcome(r, config_error(*self)),
    {
        self.global.validate()?;
        if self.interfaces.is_empty() {
            return Err(NicAutoSwitchError::Config(String::from_str("At least one interface must be configured")));
        }
        let n = self.interfaces.len();
        let mut i: usize = 0;
        while i < n
            invariant
                n == self.interfaces@.len(),
                n > 0,
                global_config_error(self.global) is None,
                i <= n,
                first_error(self.interfaces@.take(i as int), |e: (Seq<char>, InterfaceConfig)| interface_entry_error(e)) is None,
            decreases n - i,
        {
            proof { lemma_first_error_step(self.interfaces@, |e: (Seq<char>, InterfaceConfig)| interface_entry_error(e), i as int); }
            match self.interfaces.value_at(i).validate() {
                Ok(()) => {},
                Err(e) => {
                    let m = entry_message("interface '", self.interfaces.key_at(i), &e);
                    proof {
                        let ent = self.interfaces@[i as int];
                        assert(interface_config_error(ent.1) is Some);
                        lemma_first_error_prefix(self.interfaces@, |e: (Seq<char>, InterfaceConfig)| interface_entry_error(e), (i + 1) as int);
                    }
                    return Err(NicAutoSwitchError::Config(m));
                },
            }
            i = i + 1;
        }
        assert(self.interfaces@.take(n as int) =~= self.interfaces@);
        let n = self.wifi_profiles.len();
        let mut i: usize = 0;
        while i < n
            invariant
                n == self.wifi_profiles@.len(),
                self.interfaces@.len() > 0,
                global_config_error(self.global) is None,
                first_error(self.interfaces@, |e: (Seq<char>, InterfaceConfig)| interface_entry_error(e)) is None,
                i <= n,
                first_error(self.wifi_profiles@.take(i as int), |e: (Seq<char>, WifiProfile)| profile_entry_error(e)) is None,
            decreases n - i,
        {
            proof { lemma_first_error_step(self.wifi_profiles@, |e: (Seq<char>, WifiProfile)| profile_entry_error(e), i as int); }
            match self.wifi_profiles.value_at(i).validate() {
                Ok(()) => {},
                Err(e) => {
                    let m = entry_message("wifi_profile '", self.wifi_profiles.key_at(i), &e);
                    proof {
                        let ent = self.wifi_profiles@[i as int];
                        assert(wifi_profile_error(ent.1) is Some);
                        lemma_first_error_prefix(self.wifi_profiles@, |e: (Seq<char>, WifiProfile)| profile_entry_error(e), (i + 1) as int);
                    }
                    return Err(NicAutoSwitchError::Config(m));
                },
            }
            i = i + 1;
        }
        assert(self.wifi_profiles@.take(n as int) =~= self.wifi_profiles@);
        self.routing.validate()
    }
}

/// Configuration file change observed by the watcher.
#[derive(Debug, Clone, Copy, PartialEq, Eq, Structural)]
pub enum ConfigEvent {
    /// Configuration file was modified
    Modified,
    /// Configuration file was deleted
    Deleted,
}

/// The watcher's decision between two polls, from the previous and current
/// modification times of the file (`None` when the file could not be read):
/// a newer time means the file was modified; a time that disappears means
/// the file was deleted; anything else is no event.
pub fn config_change(last_modified: Option<u128>, current_modified: Option<u128>) -> (r: Option<ConfigEvent>)
    ensures
        r == match (last_modified, current_modified) {
            (Some(last), Some(current)) => if current > last { Some(ConfigEvent::Modified) } else { None },
            (Some(_), None) => Some(ConfigEvent::Deleted),
            _ => None,
        },
{
    match (last_modified, current_modified) {
        (Some(last), Some(current)) => {
            if current > last {
                Some(ConfigEvent::Modified)
            } else {
                None
            }
        },
        (Some(_), None) => Some(ConfigEvent::Deleted),
        _ => None,
    }
}

} // verus!
