//! Firewall backends, and an in-memory one for tests.
pub mod linux;
pub mod macos;
pub mod windows;

use vstd::prelude::*;
use crate::network::firewall::{clone_rules, contains_rule_id, has_rule_id, retain_other_ids, without_id};
use crate::network::firewall::rules::{rules_view, FirewallError, FirewallRule, FirewallRuleView};
use crate::text::{concat2, owned};

verus! {

/// An in-memory firewall backend: it keeps the rules it was given, in order,
/// and never holds two rules with the same identifier.
pub struct MockFirewallPlatform {
    rules: Vec<FirewallRule>,
}

impl View for MockFirewallPlatform {
    type V = Seq<FirewallRuleView>;

    closed spec fn view(&self) -> Seq<FirewallRuleView> {
        rules_view(self.rules@)
    }
}

impl MockFirewallPlatform {
    /// A backend with no rules.
    pub fn new() -> (p: Self)
        ensures
            p@ == Seq::<FirewallRuleView>::empty(),
    {
        let p = MockFirewallPlatform { rules: Vec::new() };
        assert(p@ =~= Seq::<FirewallRuleView>::empty());
        p
    }

    /// The rules currently held, in order.
    pub fn get_rules(&self) -> (r: Vec<FirewallRule>)
        ensures
            rules_view(r@) == self@,
    {
        clone_rules(&self.rules)
    }

    /// Adds a rule; fails with `RuleAlreadyExists(id)`, changing nothing, when a rule
    /// with the same identifier is held.
    pub fn add_rule(&mut self, rule: &FirewallRule) -> (r: Result<(), FirewallError>)
        ensures
            has_rule_id(old(self)@, rule@.id) ==> final(self)@ == old(self)@
                && (r matches Err(FirewallError::RuleAlreadyExists(id)) && id@ == rule@.id),
            !has_rule_id(old(self)@, rule@.id) ==> final(self)@ == old(self)@.push(rule@) && r is Ok,
    {
        if contains_rule_id(&self.rules, rule.id.as_str()) {
            return Err(FirewallError::RuleAlreadyExists(rule.id.clone()));
        }
        self.rules.push(rule.clone());
        assert(self@ =~= old(self)@.push(rule@));
        Ok(())
    }

    /// Removes the rules with identifier `rule_id`; fails with `RuleNotFound(rule_id)`,
    /// changing nothing, when there is none.
    pub fn remove_rule(&mut self, rule_id: &str) -> (r: Result<(), FirewallError>)
        ensures
            final(self)@ == without_id(old(self)@, rule_id@),
            has_rule_id(old(self)@, rule_id@) ==> r is Ok,
            !has_rule_id(old(self)@, rule_id@) ==> (r matches Err(FirewallError::RuleNotFound(id)) && id@ == rule_id@),
    {
        let found = contains_rule_id(&self.rules, rule_id);
        retain_other_ids(&mut self.rules, rule_id);
        if !found {
            proof { lemma_without_absent_id(old(self)@, rule_id@); }
            return Err(FirewallError::RuleNotFound(owned(rule_id)));
        }
        Ok(())
    }

    /// All rules held, in order.
    pub fn list_rules(&self) -> (r: Result<Vec<FirewallRule>, FirewallError>)
        ensures
            r matches Ok(v) && rules_view(v@) == self@,
    {
        Ok(clone_rules(&self.rules))
    }

    /// Removes every rule.
    pub fn flush_rules(&mut self) -> (r: Result<(), FirewallError>)
        ensures
            final(self)@ == Seq::<FirewallRuleView>::empty(),
            r is Ok,
    {
        self.rules.clear();
        assert(self@ =~= Seq::<FirewallRuleView>::empty());
        Ok(())
    }

    /// Whether a rule with identifier `rule_id` is held.
    pub fn check_rule_exists(&self, rule_id: &str) -> (r: Result<bool, FirewallError>)
        ensures
            r == Ok::<bool, FirewallError>(has_rule_id(self@, rule_id@)),
    {
        Ok(contains_rule_id(&self.rules, rule_id))
    }
}

impl Default for MockFirewallPlatform {
    fn default() -> (p: Self)
        ensures
            p@ == Seq::<FirewallRuleView>::empty(),
    {
        Self::new()
    }
}

/// The error for a firewall tool that could not be launched:
/// "Failed to execute <tool>: <reason>".
pub fn launch_error(tool: &str, reason: &str) -> (e: FirewallError)
    ensures
        (e matches FirewallError::PlatformError(m) && m@ == "Failed to execute "@ + tool@ + ": "@ + reason@),
{
    let a = concat2("Failed to execute ", tool);
    let b = concat2(a.as_str(), ": ");
    FirewallError::PlatformError(concat2(b.as_str(), reason))
}

/// The outcome of a firewall tool run: success, or the error
/// "<tool> failed: <stderr>" carrying what the tool wrote to its error stream.
pub fn command_outcome(tool: &str, success: bool, stderr: &str) -> (r: Result<(), FirewallError>)
    ensures
        success ==> r is Ok,
        !success ==> (r matches Err(FirewallError::PlatformError(m)) && m@ == tool@ + " failed: "@ + stderr@),
{
    if success {
        Ok(())
    } else {
        let a = concat2(tool, " failed: ");
        Err(FirewallError::PlatformError(concat2(a.as_str(), stderr)))
    }
}

/// The rules that stay when the rule `rule_id` is removed from the listed `rules`, in
/// order; `RuleNotFound(rule_id)` when no listed rule has that identifier.
pub fn remaining_after_remove(rules: &Vec<FirewallRule>, rule_id: &str) -> (r: Result<Vec<FirewallRule>, FirewallError>)
    ensures
        (match r {
            Ok(rest) => has_rule_id(rules_view(rules@), rule_id@)
                && rules_view(rest@) == without_id(rules_view(rules@), rule_id@),
            Err(e) => !has_rule_id(rules_view(rules@), rule_id@)
                && (e matches FirewallError::RuleNotFound(id) && id@ == rule_id@),
        }),
{
    if !contains_rule_id(rules, rule_id) {
        return Err(FirewallError::RuleNotFound(owned(rule_id)));
    }
    let mut rest = clone_rules(rules);
    retain_other_ids(&mut rest, rule_id);
    Ok(rest)
}

/// Removing an identifier that no rule has changes nothing.
pub proof fn lemma_without_absent_id(rules: Seq<FirewallRuleView>, id: Seq<char>)
    requires
        !has_rule_id(rules, id),
    ensures
        without_id(rules, id) == rules,
    decreases rules.len(),
{
    reveal(Seq::filter);
    if rules.len() > 0 {
        assert(!has_rule_id(rules.drop_last(), id)) by {
            if has_rule_id(rules.drop_last(), id) {
                let i = choose|i: int| 0 <= i < rules.drop_last().len() && (#[trigger] rules.drop_last()[i]).id == id;
                assert(rules[i].id == id);
            }
        }
        lemma_without_absent_id(rules.drop_last(), id);
        assert(rules.last().id != id) by {
            assert(rules[rules.len() - 1].id != id);
        }
        assert(rules.drop_last().push(rules.last()) =~= rules);
    }
}

} // verus!
