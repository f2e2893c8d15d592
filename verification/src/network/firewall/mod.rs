//! Firewall module: the rules it has applied and the events it reports.
pub mod config;
pub mod platform;
pub mod rules;

use vstd::prelude::*;
use vstd::std_specs::convert::FromSpecImpl;
use crate::engine::mod_trait::{ModuleEvent, ModuleStatus};
use crate::network::firewall::config::{FirewallConfig, FirewallRuleConfig};
use crate::network::firewall::rules::{
    clone_opt, opt_view, rules_view, FirewallAction, FirewallDirection, FirewallError, FirewallRule, FirewallRuleView,
};
use crate::text::{owned, str_eq};

verus! {

/// Events specific to the firewall module.
#[derive(Debug, Clone)]
pub enum FirewallEvent {
    /// A rule was added to the firewall.
    RuleAdded { rule_id: String, description: String },
    /// A rule was removed from the firewall.
    RuleRemoved { rule_id: String },
    /// Traffic was blocked by a rule.
    RuleBlocked { src_ip: String, dst_port: u16 },
}

/// The module event that reports a firewall event (same fields, same values).
pub open spec fn firewall_event_to_module_event(e: FirewallEvent) -> ModuleEvent {
    match e {
        FirewallEvent::RuleAdded { rule_id, description } => ModuleEvent::FirewallRuleAdded { rule_id, description },
        FirewallEvent::RuleRemoved { rule_id } => ModuleEvent::FirewallRuleRemoved { rule_id },
        FirewallEvent::RuleBlocked { src_ip, dst_port } => ModuleEvent::FirewallRuleBlocked { src_ip, dst_port },
    }
}

impl From<FirewallEvent> for ModuleEvent {
    fn from(event: FirewallEvent) -> (r: ModuleEvent) {
        match event {
            FirewallEvent::RuleAdded { rule_id, description } => ModuleEvent::FirewallRuleAdded { rule_id, description },
            FirewallEvent::RuleRemoved { rule_id } => ModuleEvent::FirewallRuleRemoved { rule_id },
            FirewallEvent::RuleBlocked { src_ip, dst_port } => ModuleEvent::FirewallRuleBlocked { src_ip, dst_port },
        }
    }
}

impl FromSpecImpl<FirewallEvent> for ModuleEvent {
    open spec fn obeys_from_spec() -> bool {
        true
    }

    open spec fn from_spec(v: FirewallEvent) -> ModuleEvent {
        firewall_event_to_module_event(v)
    }
}

/// The action named by a configuration string: "allow", "block" or "reject".
pub open spec fn config_action(s: Seq<char>) -> Option<FirewallAction> {
    if s == "allow"@ {
        Some(FirewallAction::Allow)
    } else if s == "block"@ {
        Some(FirewallAction::Block)
    } else if s == "reject"@ {
        Some(FirewallAction::Reject)
    } else {
        None
    }
}

/// The direction named by a configuration string: "inbound", "outbound" or "both".
pub open spec fn config_direction(s: Seq<char>) -> Option<FirewallDirection> {
    if s == "inbound"@ {
        Some(FirewallDirection::Inbound)
    } else if s == "outbound"@ {
        Some(FirewallDirection::Outbound)
    } else if s == "both"@ {
        Some(FirewallDirection::Both)
    } else {
        None
    }
}

/// The rule a configuration entry describes, or `None` when its action or direction
/// is not recognised.
pub open spec fn configured_rule(rc: FirewallRuleConfig) -> Option<FirewallRuleView> {
    match (config_action(rc.action@), config_direction(rc.direction@)) {
        (Some(action), Some(direction)) => Some(FirewallRuleView {
            id: rc.id@,
            action,
            direction,
            src_ip: opt_view(rc.src_ip),
            dst_ip: opt_view(rc.dst_ip),
            dst_port: rc.dst_port,
            protocol: opt_view(rc.protocol),
            description: rc.description@,
        }),
        _ => None,
    }
}

/// The rules described by configuration entries, in order, skipping unrecognised entries.
pub open spec fn configured_rules(rcs: Seq<FirewallRuleConfig>) -> Seq<FirewallRuleView>
    decreases rcs.len(),
{
    if rcs.len() == 0 {
        Seq::empty()
    } else {
        configured_rules(rcs.drop_last()) + match configured_rule(rcs.last()) {
            Some(r) => seq![r],
            None => Seq::empty(),
        }
    }
}

fn parse_config_action(s: &String) -> (r: Option<FirewallAction>)
    ensures
        r == config_action(s@),
{
    if str_eq(s.as_str(), "allow") {
        Some(FirewallAction::Allow)
    } else if str_eq(s.as_str(), "block") {
        Some(FirewallAction::Block)
    } else if str_eq(s.as_str(), "reject") {
        Some(FirewallAction::Reject)
    } else {
        None
    }
}

fn parse_config_direction(s: &String) -> (r: Option<FirewallDirection>)
    ensures
        r == config_direction(s@),
{
    if str_eq(s.as_str(), "inbound") {
        Some(FirewallDirection::Inbound)
    } else if str_eq(s.as_str(), "outbound") {
        Some(FirewallDirection::Outbound)
    } else if str_eq(s.as_str(), "both") {
        Some(FirewallDirection::Both)
    } else {
        None
    }
}

/// The rules that a configuration applies, in order; entries with an unrecognised
/// action or direction are skipped.
pub fn rules_from_config(config: &FirewallConfig) -> (rules: Vec<FirewallRule>)
    ensures
        rules_view(rules@) == configured_rules(config.rules@),
{
    let mut out: Vec<FirewallRule> = Vec::new();
    let n = config.rules.len();
    for i in 0..n
        invariant
            n == config.rules@.len(),
            rules_view(out@) == configured_rules(config.rules@.take(i as int)),
    {
        let rc = &config.rules[i];
        let ghost before = rules_view(out@);
        assert(config.rules@.take(i + 1).drop_last() == config.rules@.take(i as int));
        assert(config.rules@.take(i + 1).last() == *rc);
        match (parse_config_action(&rc.action), parse_config_direction(&rc.direction)) {
            (Some(action), Some(direction)) => {
                let rule = FirewallRule {
                    id: rc.id.clone(),
                    action,
                    direction,
                    src_ip: clone_opt(&rc.src_ip),
                    dst_ip: clone_opt(&rc.dst_ip),
                    dst_port: rc.dst_port,
                    protocol: clone_opt(&rc.protocol),
                    description: rc.description.clone(),
                };
                out.push(rule);
                assert(rules_view(out@) =~= before + seq![configured_rule(*rc)->0]);
            },
            _ => {
                assert(rules_view(out@) =~= before + Seq::<FirewallRuleView>::empty());
            },
        }
    }
    assert(config.rules@.take(n as int) == config.rules@);
    out
}

/// Whether some rule in `rules` has identifier `id`.
pub open spec fn has_rule_id(rules: Seq<FirewallRuleView>, id: Seq<char>) -> bool {
    exists|i: int| 0 <= i < rules.len() && (#[trigger] rules[i]).id == id
}

/// The rules of `rules` whose identifier is not `id`, in order.
pub open spec fn without_id(rules: Seq<FirewallRuleView>, id: Seq<char>) -> Seq<FirewallRuleView> {
    rules.filter(|r: FirewallRuleView| r.id != id)
}

/// No two rules of `rules` share an identifier.
pub open spec fn ids_unique(rules: Seq<FirewallRuleView>) -> bool {
    forall|i: int, j: int| 0 <= i < j < rules.len() ==> (#[trigger] rules[i]).id != (#[trigger] rules[j]).id
}

/// After removing the identifier `id`, no rule has it.
pub proof fn lemma_removed_id_absent(rules: Seq<FirewallRuleView>, id: Seq<char>)
    ensures
        !has_rule_id(without_id(rules, id), id),
{
    let out = without_id(rules, id);
    let p = |r: FirewallRuleView| r.id != id;
    broadcast use vstd::seq_lib::group_filter_ensures;
    if has_rule_id(out, id) {
        let i = choose|i: int| 0 <= i < out.len() && (#[trigger] out[i]).id == id;
        assert(p(out[i]));
    }
}

/// Removing an identifier only drops rules: an identifier held afterwards was held before.
proof fn lemma_without_id_keeps_only(rules: Seq<FirewallRuleView>, id: Seq<char>, x: Seq<char>)
    ensures
        has_rule_id(without_id(rules, id), x) ==> has_rule_id(rules, x),
    decreases rules.len(),
{
    reveal(Seq::filter);
    if rules.len() > 0 && has_rule_id(without_id(rules, id), x) {
        let init = rules.drop_last();
        lemma_without_id_keeps_only(init, id, x);
        let out = without_id(rules, id);
        let k = choose|k: int| 0 <= k < out.len() && (#[trigger] out[k]).id == x;
        if rules.last().id != id {
            assert(out == without_id(init, id).push(rules.last()));
            if k < without_id(init, id).len() {
                assert(without_id(init, id)[k].id == x);
                let m = choose|m: int| 0 <= m < init.len() && (#[trigger] init[m]).id == x;
                assert(rules[m].id == x);
            } else {
                assert(rules[rules.len() - 1].id == x);
            }
        } else {
            assert(out == without_id(init, id));
            assert(without_id(init, id)[k].id == x);
            let m = choose|m: int| 0 <= m < init.len() && (#[trigger] init[m]).id == x;
            assert(rules[m].id == x);
        }
    }
}

/// Adding a rule whose identifier is new and then removing that identifier gives back
/// the rules as they were.
pub proof fn lemma_add_then_remove_restores(rules: Seq<FirewallRuleView>, rule: FirewallRuleView)
    requires
        !has_rule_id(rules, rule.id),
    ensures
        without_id(rules.push(rule), rule.id) == rules,
{
    reveal(Seq::filter);
    assert(rules.push(rule).drop_last() =~= rules);
    crate::network::firewall::platform::lemma_without_absent_id(rules, rule.id);
}

/// Adding a rule whose identifier is new keeps identifiers unique; removing an
/// identifier keeps them unique too.
pub proof fn lemma_ids_stay_unique(rules: Seq<FirewallRuleView>, rule: FirewallRuleView, id: Seq<char>)
    requires
        ids_unique(rules),
    ensures
        !has_rule_id(rules, rule.id) ==> ids_unique(rules.push(rule)),
        ids_unique(without_id(rules, id)),
    decreases rules.len(),
{
    if !has_rule_id(rules, rule.id) {
        assert forall|i: int, j: int| 0 <= i < j < rules.push(rule).len() implies
            (#[trigger] rules.push(rule)[i]).id != (#[trigger] rules.push(rule)[j]).id by {
            if j == rules.len() {
                assert(rules[i].id != rule.id);
            } else {
                assert(rules[i].id != rules[j].id);
            }
        }
    }
    reveal(Seq::filter);
    if rules.len() > 0 {
        let init = rules.drop_last();
        assert(ids_unique(init)) by {
            assert forall|i: int, j: int| 0 <= i < j < init.len() implies (#[trigger] init[i]).id != (#[trigger] init[j]).id by {
                assert(rules[i].id != rules[j].id);
            }
        }
        lemma_ids_stay_unique(init, rule, id);
        let last = rules.last();
        if last.id != id {
            let rest = without_id(init, id);
            assert(without_id(rules, id) == rest.push(last));
            assert(!has_rule_id(init, last.id)) by {
                if has_rule_id(init, last.id) {
                    let m = choose|m: int| 0 <= m < init.len() && (#[trigger] init[m]).id == last.id;
                    assert(rules[m].id != rules[rules.len() - 1].id);
                }
            }
            lemma_without_id_keeps_only(init, id, last.id);
            assert forall|i: int, j: int| 0 <= i < j < rest.push(last).len() implies
                (#[trigger] rest.push(last)[i]).id != (#[trigger] rest.push(last)[j]).id by {
                if j == rest.len() {
                    assert(rest[i].id != last.id);
                } else {
                    assert(rest[i].id != rest[j].id);
                }
            }
        } else {
            assert(without_id(rules, id) == without_id(init, id));
        }
    }
}

/// Removes the rules with identifier `id` from `rules`, keeping the others in order.
pub fn retain_other_ids(rules: &mut Vec<FirewallRule>, id: &str)
    ensures
        rules_view(final(rules)@) == without_id(rules_view(old(rules)@), id@),
{
    let ghost orig = rules_view(rules@);
    let mut kept: Vec<FirewallRule> = Vec::new();
    let n = rules.len();
    for i in 0..n
        invariant
            n == rules@.len(),
            orig == rules_view(rules@),
            rules_view(kept@) == without_id(orig.take(i as int), id@),
    {
        let ghost before = rules_view(kept@);
        proof {
            reveal(Seq::filter);
            assert(orig.take(i + 1).drop_last() == orig.take(i as int));
        }
        if !str_eq(rules[i].id.as_str(), id) {
            kept.push(rules[i].clone());
            assert(rules_view(kept@) =~= before.push(orig[i as int]));
        } else {
            assert(rules_view(kept@) =~= before);
        }
    }
    assert(orig.take(n as int) == orig);
    *rules = kept;
}

/// Whether some rule in `rules` has identifier `id`.
pub fn contains_rule_id(rules: &Vec<FirewallRule>, id: &str) -> (r: bool)
    ensures
        r == has_rule_id(rules_view(rules@), id@),
{
    let n = rules.len();
    for i in 0..n
        invariant
            n == rules@.len(),
            forall|j: int| 0 <= j < i ==> rules_view(rules@)[j].id != id@,
    {
        if str_eq(rules[i].id.as_str(), id) {
            assert(rules_view(rules@)[i as int].id == id@);
            return true;
        }
    }
    false
}

/// A copy of a list of rules.
pub fn clone_rules(rules: &Vec<FirewallRule>) -> (r: Vec<FirewallRule>)
    ensures
        r@ == rules@,
{
    let mut out: Vec<FirewallRule> = Vec::new();
    let n = rules.len();
    for i in 0..n
        invariant
            n == rules@.len(),
            out@ == rules@.take(i as int),
    {
        out.push(rules[i].clone());
        assert(out@ =~= rules@.take(i + 1));
    }
    assert(rules@.take(n as int) =~= rules@);
    out
}

/// The abstract state of a [`FirewallModule`].
pub struct FirewallModuleView {
    pub status: ModuleStatus,
    pub active_rules: Seq<FirewallRuleView>,
    pub config: Option<FirewallConfig>,
}

/// State of the firewall module: its lifecycle status, the rules it has applied
/// (in the order they were added) and the configuration it last loaded. The platform
/// that applies rules is driven by the caller, who reports each outcome here.
pub struct FirewallModule {
    status: ModuleStatus,
    active_rules: Vec<FirewallRule>,
    config: Option<FirewallConfig>,
}

impl View for FirewallModule {
    type V = FirewallModuleView;

    closed spec fn view(&self) -> FirewallModuleView {
        FirewallModuleView { status: self.status, active_rules: rules_view(self.active_rules@), config: self.config }
    }
}

impl FirewallModule {
    /// A new module: created, with no active rules and no configuration.
    pub fn new() -> (m: Self)
        ensures
            m@.status == ModuleStatus::Created,
            m@.active_rules == Seq::<FirewallRuleView>::empty(),
            m@.config is None,
    {
        let m = FirewallModule { status: ModuleStatus::Created, active_rules: Vec::new(), config: None };
        assert(m@.active_rules =~= Seq::<FirewallRuleView>::empty());
        m
    }

    pub fn id(&self) -> (r: &'static str)
        ensures
            r@ == "firewall"@,
    {
        "firewall"
    }

    pub fn name(&self) -> (r: &'static str)
        ensures
            r@ == "Firewall Module"@,
    {
        "Firewall Module"
    }

    pub fn priority(&self) -> (r: u32)
        ensures
            r == 5,
    {
        5
    }

    /// The firewall module depends on no other module.
    pub fn dependencies(&self) -> (r: Vec<String>)
        ensures
            r@.len() == 0,
    {
        Vec::new()
    }

    pub fn status(&self) -> (s: ModuleStatus)
        ensures
            s == self@.status,
    {
        self.status.clone()
    }

    /// Marks the module initialized; nothing else changes.
    pub fn initialize(&mut self)
        ensures
            final(self)@ == (FirewallModuleView { status: ModuleStatus::Initialized, ..old(self)@ }),
    {
        self.status = ModuleStatus::Initialized;
    }

    /// Marks the module running; nothing else changes.
    pub fn start(&mut self)
        ensures
            final(self)@ == (FirewallModuleView { status: ModuleStatus::Running, ..old(self)@ }),
    {
        self.status = ModuleStatus::Running;
    }

    /// Records that the platform's rules were flushed on stop: no active rules, stopped.
    pub fn stop(&mut self)
        ensures
            final(self)@ == (FirewallModuleView { status: ModuleStatus::Stopped, active_rules: Seq::empty(), ..old(self)@ }),
    {
        self.active_rules.clear();
        self.status = ModuleStatus::Stopped;
        assert(rules_view(self.active_rules@) =~= Seq::<FirewallRuleView>::empty());
    }

    /// Decides, from the platform's answer to "does a rule with this id exist?", whether
    /// a rule may be added: an error from the platform is passed on, an existing rule
    /// gives `RuleAlreadyExists(id)`.
    pub fn check_add_allowed(rule_id: &str, exists: Result<bool, FirewallError>) -> (r: Result<(), FirewallError>)
        ensures
            (match exists {
                Err(e) => r == Err::<(), FirewallError>(e),
                Ok(true) => (r matches Err(FirewallError::RuleAlreadyExists(id)) && id@ == rule_id@),
                Ok(false) => (r is Ok),
            }),
    {
        match exists {
            Err(e) => Err(e),
            Ok(true) => Err(FirewallError::RuleAlreadyExists(owned(rule_id))),
            Ok(false) => Ok(()),
        }
    }

    /// Records a rule the platform has accepted and returns the event that reports it.
    pub fn rule_added(&mut self, rule: FirewallRule) -> (e: ModuleEvent)
        ensures
            final(self)@ == (FirewallModuleView { active_rules: old(self)@.active_rules.push(rule@), ..old(self)@ }),
            (e matches ModuleEvent::FirewallRuleAdded { rule_id, description }
                && rule_id@ == rule.id@ && description@ == rule.description@),
    {
        let event = FirewallEvent::RuleAdded { rule_id: rule.id.clone(), description: rule.description.clone() };
        self.active_rules.push(rule);
        assert(rules_view(self.active_rules@) =~= rules_view(old(self).active_rules@).push(rule@));
        ModuleEvent::from(event)
    }

    /// Records that the platform removed the rule `rule_id` and returns the event that reports it.
    pub fn rule_removed(&mut self, rule_id: &str) -> (e: ModuleEvent)
        ensures
            final(self)@ == (FirewallModuleView { active_rules: without_id(old(self)@.active_rules, rule_id@), ..old(self)@ }),
            (e matches ModuleEvent::FirewallRuleRemoved { rule_id: id } && id@ == rule_id@),
    {
        retain_other_ids(&mut self.active_rules, rule_id);
        ModuleEvent::from(FirewallEvent::RuleRemoved { rule_id: owned(rule_id) })
    }

    /// Finishes adding `rule` with the platform's answer: on success the rule is
    /// recorded and the event that reports it is returned; on failure nothing changes
    /// and the platform's error is handed back.
    pub fn finish_add(&mut self, rule: FirewallRule, outcome: Result<(), FirewallError>) -> (r: Result<ModuleEvent, FirewallError>)
        ensures
            (match outcome {
                Ok(()) => final(self)@ == (FirewallModuleView { active_rules: old(self)@.active_rules.push(rule@), ..old(self)@ })
                    && (r matches Ok(ModuleEvent::FirewallRuleAdded { rule_id, description })
                        && rule_id@ == rule.id@ && description@ == rule.description@),
                Err(e) => r == Err::<ModuleEvent, FirewallError>(e) && final(self)@ == old(self)@,
            }),
    {
        match outcome {
            Ok(()) => Ok(self.rule_added(rule)),
            Err(e) => Err(e),
        }
    }

    /// Adds `rule` given the platform's two answers: `exists`, to whether a rule with its
    /// id is already there, and `added`, to adding it (consulted only when the first
    /// answer is `Ok(false)`). Exactly then, and when `added` is `Ok(())`, the rule is
    /// recorded after the others and the event reporting it is returned. Otherwise
    /// nothing changes and the error is returned: the platform's own, or
    /// `RuleAlreadyExists` with the rule's id when the platform already has it.
    pub fn add_rule_answered(
        &mut self,
        rule: FirewallRule,
        exists: Result<bool, FirewallError>,
        added: Result<(), FirewallError>,
    ) -> (r: Result<ModuleEvent, FirewallError>)
        ensures
            (match exists {
                Err(e) => r == Err::<ModuleEvent, FirewallError>(e) && final(self)@ == old(self)@,
                Ok(true) => (r matches Err(FirewallError::RuleAlreadyExists(id)) && id@ == rule.id@)
                    && final(self)@ == old(self)@,
                Ok(false) => match added {
                    Ok(()) => final(self)@ == (FirewallModuleView {
                        active_rules: old(self)@.active_rules.push(rule@),
                        ..old(self)@
                    }) && (r matches Ok(ModuleEvent::FirewallRuleAdded { rule_id, description })
                        && rule_id@ == rule.id@ && description@ == rule.description@),
                    Err(e) => r == Err::<ModuleEvent, FirewallError>(e) && final(self)@ == old(self)@,
                },
            }),
    {
        match Self::check_add_allowed(&rule.id, exists) {
            Ok(()) => self.finish_add(rule, added),
            Err(e) => Err(e),
        }
    }

    /// Finishes removing the rule `rule_id` with the platform's answer: on success the
    /// rule is dropped from the record and the event that reports it is returned; on
    /// failure nothing changes and the platform's error is handed back.
    pub fn finish_remove(&mut self, rule_id: &str, outcome: Result<(), FirewallError>) -> (r: Result<ModuleEvent, FirewallError>)
        ensures
            (match outcome {
                Ok(()) => final(self)@ == (FirewallModuleView { active_rules: without_id(old(self)@.active_rules, rule_id@), ..old(self)@ })
                    && (r matches Ok(ModuleEvent::FirewallRuleRemoved { rule_id: id }) && id@ == rule_id@),
                Err(e) => r == Err::<ModuleEvent, FirewallError>(e) && final(self)@ == old(self)@,
            }),
    {
        match outcome {
            Ok(()) => Ok(self.rule_removed(rule_id)),
            Err(e) => Err(e),
        }
    }

    /// Records that the platform's rules were flushed.
    pub fn rules_flushed(&mut self)
        ensures
            final(self)@ == (FirewallModuleView { active_rules: Seq::empty(), ..old(self)@ }),
    {
        self.active_rules.clear();
        assert(rules_view(self.active_rules@) =~= Seq::<FirewallRuleView>::empty());
    }

    /// Number of rules the module has applied.
    pub fn rule_count(&self) -> (n: usize)
        ensures
            n == self@.active_rules.len(),
    {
        self.active_rules.len()
    }

    /// Stores the configuration and returns the rules it asks for, in order
    /// (entries with an unrecognised action or direction are skipped).
    pub fn load_config(&mut self, config: FirewallConfig) -> (rules: Vec<FirewallRule>)
        ensures
            final(self)@ == (FirewallModuleView { config: Some(config), ..old(self)@ }),
            rules_view(rules@) == configured_rules(config.rules@),
    {
        let rules = rules_from_config(&config);
        self.config = Some(config);
        rules
    }
}

} // verus!
