//! Platform-independent firewall rule types.
use vstd::prelude::*;
use crate::text::concat2;

verus! {

/// Direction of network traffic for firewall rules.
#[derive(Debug, Clone, Copy, PartialEq, Eq, Structural)]
pub enum FirewallDirection {
    Inbound,
    Outbound,
    Both,
}

/// Action to take when traffic matches a rule.
#[derive(Debug, Clone, Copy, PartialEq, Eq, Structural)]
pub enum FirewallAction {
    Allow,
    Block,
    Reject,
}

/// A firewall rule that can be applied across platforms.
#[derive(Debug)]
pub struct FirewallRule {
    /// Unique identifier for this rule.
    pub id: String,
    /// Action to take when traffic matches this rule.
    pub action: FirewallAction,
    /// Direction this rule applies to.
    pub direction: FirewallDirection,
    /// Source IP address or CIDR range (None = any).
    pub src_ip: Option<String>,
    /// Destination IP address or CIDR range (None = any).
    pub dst_ip: Option<String>,
    /// Destination port (None = any).
    pub dst_port: Option<u16>,
    /// Protocol (tcp, udp, icmp, or None for any).
    pub protocol: Option<String>,
    /// Human-readable description.
    pub description: String,
}

/// The abstract content of a [`FirewallRule`].
pub struct FirewallRuleView {
    pub id: Seq<char>,
    pub action: FirewallAction,
    pub direction: FirewallDirection,
    pub src_ip: Option<Seq<char>>,
    pub dst_ip: Option<Seq<char>>,
    pub dst_port: Option<u16>,
    pub protocol: Option<Seq<char>>,
    pub description: Seq<char>,
}

/// The view of an optional string.
pub open spec fn opt_view(o: Option<String>) -> Option<Seq<char>> {
    match o {
        Some(s) => Some(s@),
        None => None,
    }
}

/// A copy of an optional string.
pub fn clone_opt(o: &Option<String>) -> (r: Option<String>)
    ensures
        r == *o,
{
    match o {
        Some(s) => Some(s.clone()),
        None => None,
    }
}

impl View for FirewallRule {
    type V = FirewallRuleView;

    open spec fn view(&self) -> FirewallRuleView {
        FirewallRuleView {
            id: self.id@,
            action: self.action,
            direction: self.direction,
            src_ip: opt_view(self.src_ip),
            dst_ip: opt_view(self.dst_ip),
            dst_port: self.dst_port,
            protocol: opt_view(self.protocol),
            description: self.description@,
        }
    }
}

impl Clone for FirewallRule {
    fn clone(&self) -> (r: Self)
        ensures
            r == *self,
    {
        FirewallRule {
            id: self.id.clone(),
            action: self.action,
            direction: self.direction,
            src_ip: clone_opt(&self.src_ip),
            dst_ip: clone_opt(&self.dst_ip),
            dst_port: self.dst_port,
            protocol: clone_opt(&self.protocol),
            description: self.description.clone(),
        }
    }
}

/// The views of a list of rules.
pub open spec fn rules_view(rules: Seq<FirewallRule>) -> Seq<FirewallRuleView> {
    rules.map_values(|r: FirewallRule| r@)
}

/// Errors that can occur during firewall operations.
#[derive(Debug)]
pub enum FirewallError {
    /// Platform command execution failed.
    PlatformError(String),
    /// Rule with this ID already exists.
    RuleAlreadyExists(String),
    /// Rule with this ID was not found.
    RuleNotFound(String),
    /// Invalid rule configuration.
    InvalidRule(String),
    /// Firewall service is not available.
    ServiceUnavailable(String),
}

impl Clone for FirewallError {
    fn clone(&self) -> (r: Self)
        ensures
            r == *self,
    {
        match self {
            FirewallError::PlatformError(m) => FirewallError::PlatformError(m.clone()),
            FirewallError::RuleAlreadyExists(m) => FirewallError::RuleAlreadyExists(m.clone()),
            FirewallError::RuleNotFound(m) => FirewallError::RuleNotFound(m.clone()),
            FirewallError::InvalidRule(m) => FirewallError::InvalidRule(m.clone()),
            FirewallError::ServiceUnavailable(m) => FirewallError::ServiceUnavailable(m.clone()),
        }
    }
}

impl FirewallError {
    /// The human-readable text of the error.
    pub open spec fn message(&self) -> Seq<char> {
        match self {
            FirewallError::PlatformError(m) => "Platform error: "@ + m@,
            FirewallError::RuleAlreadyExists(id) => "Rule already exists: "@ + id@,
            FirewallError::RuleNotFound(id) => "Rule not found: "@ + id@,
            FirewallError::InvalidRule(m) => "Invalid rule: "@ + m@,
            FirewallError::ServiceUnavailable(m) => "Service unavailable: "@ + m@,
        }
    }

    /// Renders the error as text, e.g. "Rule not found: r1".
    pub fn to_string(&self) -> (s: String)
        ensures
            s@ == self.message(),
    {
        match self {
            FirewallError::PlatformError(m) => concat2("Platform error: ", m.as_str()),
            FirewallError::RuleAlreadyExists(id) => concat2("Rule already exists: ", id.as_str()),
            FirewallError::RuleNotFound(id) => concat2("Rule not found: ", id.as_str()),
            FirewallError::InvalidRule(m) => concat2("Invalid rule: ", m.as_str()),
            FirewallError::ServiceUnavailable(m) => concat2("Service unavailable: ", m.as_str()),
        }
    }
}

/// The values that `f` gives for the elements of `s`, in order, skipping `None`.
pub open spec fn collect_some<A, B>(s: Seq<A>, f: spec_fn(A) -> Option<B>) -> Seq<B>
    decreases s.len(),
{
    if s.len() == 0 {
        Seq::empty()
    } else {
        collect_some(s.drop_last(), f) + match f(s.last()) {
            Some(b) => seq![b],
            None => Seq::empty(),
        }
    }
}

} // verus!
