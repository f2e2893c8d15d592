//! Kill switch: blocks all traffic while the VPN is down. The platform that applies
//! the blocking rule is driven by the caller, who asks here what to do and reports
//! each success back.
pub mod platform;

use vstd::prelude::*;
use crate::engine::mod_trait::{ModuleEvent, ModuleStatus};
use crate::platform::types::{platform_rules_view, FirewallAction, FirewallRule, PlatformRuleView};
use crate::text::owned;

verus! {

/// The identifier of the kill switch's blocking rule.
pub open spec fn block_rule_id() -> Seq<char> {
    "killswitch-block"@
}

/// The rule the kill switch applies: block everything.
pub open spec fn block_rule_view() -> PlatformRuleView {
    PlatformRuleView {
        id: block_rule_id(),
        action: FirewallAction::Block,
        src_ip: None,
        dst_ip: None,
        dst_port: None,
        protocol: None,
        description: "Kill switch - block all traffic"@,
    }
}

/// The blocking rule: id "killswitch-block", action `Block`, matching any traffic.
pub fn block_rule() -> (r: FirewallRule)
    ensures
        r@ == block_rule_view(),
{
    FirewallRule {
        id: owned("killswitch-block"),
        action: FirewallAction::Block,
        src_ip: None,
        dst_ip: None,
        dst_port: None,
        protocol: None,
        description: owned("Kill switch - block all traffic"),
    }
}

/// How the kill switch answers a module event.
#[derive(Debug, Clone, Copy, PartialEq, Eq, Structural)]
pub enum KillSwitchResponse {
    /// The VPN went down: activate, then publish `ModuleStarted` for "killswitch".
    Activate,
    /// The VPN came up: deactivate.
    Deactivate,
    /// Any other event: nothing.
    Ignore,
}

/// The response to an event: activate on `VpnDisconnected`, deactivate on `VpnConnected`.
pub open spec fn response_to(e: ModuleEvent) -> KillSwitchResponse {
    match e {
        ModuleEvent::VpnDisconnected { .. } => KillSwitchResponse::Activate,
        ModuleEvent::VpnConnected { .. } => KillSwitchResponse::Deactivate,
        _ => KillSwitchResponse::Ignore,
    }
}

/// The abstract state of a [`KillSwitchModule`].
pub struct KillSwitchView {
    pub status: ModuleStatus,
    pub active: bool,
    /// The rules the kill switch has applied.
    pub saved_rules: Seq<PlatformRuleView>,
}

/// The state after the blocking rule was applied: active, holding that rule.
pub open spec fn activated_view(v: KillSwitchView) -> KillSwitchView {
    KillSwitchView { active: true, saved_rules: seq![block_rule_view()], ..v }
}

/// The state after the blocking rule was removed: inactive, holding no rule.
pub open spec fn deactivated_view(v: KillSwitchView) -> KillSwitchView {
    KillSwitchView { active: false, saved_rules: Seq::empty(), ..v }
}

/// Activating an inactive kill switch and then deactivating it gives back the state it
/// started from; and while active it holds exactly the blocking rule.
pub proof fn lemma_activate_then_deactivate(v: KillSwitchView)
    requires
        !v.active,
        v.saved_rules.len() == 0,
    ensures
        deactivated_view(activated_view(v)) == v,
        activated_view(v).active,
        activated_view(v).saved_rules == seq![block_rule_view()],
{
    assert(deactivated_view(activated_view(v)).saved_rules =~= v.saved_rules);
}

/// State of the kill switch: its status, whether it is blocking traffic, and the
/// rules it has applied.
pub struct KillSwitchModule {
    status: ModuleStatus,
    active: bool,
    saved_rules: Vec<FirewallRule>,
}

impl View for KillSwitchModule {
    type V = KillSwitchView;

    closed spec fn view(&self) -> KillSwitchView {
        KillSwitchView { status: self.status, active: self.active, saved_rules: platform_rules_view(self.saved_rules@) }
    }
}

impl KillSwitchModule {
    /// The kill switch's own invariant: it is active exactly when it holds the
    /// blocking rule, and it holds no other rule.
    pub open spec fn wf(&self) -> bool {
        if self@.active {
            self@.saved_rules == seq![block_rule_view()]
        } else {
            self@.saved_rules.len() == 0
        }
    }

    /// A kill switch, created and inactive, with no rules.
    pub fn new() -> (k: Self)
        ensures
            k.wf(),
            k@.status == ModuleStatus::Created,
            !k@.active,
            k@.saved_rules == Seq::<PlatformRuleView>::empty(),
    {
        let k = KillSwitchModule { status: ModuleStatus::Created, active: false, saved_rules: Vec::new() };
        assert(k@.saved_rules =~= Seq::<PlatformRuleView>::empty());
        k
    }

    /// Whether the kill switch is blocking traffic.
    pub fn is_active(&self) -> (r: bool)
        ensures
            r == self@.active,
    {
        self.active
    }

    /// A copy of the rules the kill switch has applied.
    pub fn get_firewall_rules(&self) -> (r: Vec<FirewallRule>)
        ensures
            platform_rules_view(r@) == self@.saved_rules,
    {
        let mut out: Vec<FirewallRule> = Vec::new();
        let n = self.saved_rules.len();
        for i in 0..n
            invariant
                n == self.saved_rules@.len(),
                out@ == self.saved_rules@.take(i as int),
        {
            out.push(self.saved_rules[i].clone());
            assert(out@ =~= self.saved_rules@.take(i + 1));
        }
        assert(self.saved_rules@.take(n as int) =~= self.saved_rules@);
        out
    }

    /// The rule to add to the platform to activate, or `None` when already active.
    pub fn plan_activate(&self) -> (r: Option<FirewallRule>)
        ensures
            (match r {
                Some(rule) => !self@.active && rule@ == block_rule_view(),
                None => self@.active,
            }),
    {
        if self.active {
            None
        } else {
            Some(block_rule())
        }
    }

    /// Records that the platform accepted the blocking rule: the kill switch is active
    /// and holds that rule.
    pub fn activated(&mut self, rule: FirewallRule)
        requires
            old(self).wf(),
            !old(self)@.active,
            rule@ == block_rule_view(),
        ensures
            final(self).wf(),
            final(self)@ == activated_view(old(self)@),
    {
        self.saved_rules.push(rule);
        self.active = true;
        assert(platform_rules_view(self.saved_rules@) =~= seq![block_rule_view()]);
    }

    /// Finishes an activation with the platform's answer to adding the blocking rule:
    /// on success the kill switch is active and holds the rule; on failure nothing
    /// changes and the platform's error is handed back.
    pub fn finish_activation(&mut self, rule: FirewallRule, outcome: Result<(), String>) -> (r: Result<(), String>)
        requires
            old(self).wf(),
            !old(self)@.active,
            rule@ == block_rule_view(),
        ensures
            final(self).wf(),
            (match outcome {
                Ok(()) => r is Ok && final(self)@ == activated_view(old(self)@),
                Err(e) => r == Err::<(), String>(e) && final(self)@ == old(self)@,
            }),
    {
        match outcome {
            Ok(()) => {
                self.activated(rule);
                Ok(())
            },
            Err(e) => Err(e),
        }
    }

    /// The id of the rule to remove from the platform to deactivate, or `None` when
    /// already inactive.
    pub fn plan_deactivate(&self) -> (r: Option<String>)
        ensures
            (match r {
                Some(id) => self@.active && id@ == block_rule_id(),
                None => !self@.active,
            }),
    {
        if self.active {
            Some(owned("killswitch-block"))
        } else {
            None
        }
    }

    /// Records that the platform removed the blocking rule: inactive, no rules.
    pub fn deactivated(&mut self)
        requires
            old(self).wf(),
        ensures
            final(self).wf(),
            final(self)@ == deactivated_view(old(self)@),
    {
        self.saved_rules.clear();
        self.active = false;
        assert(platform_rules_view(self.saved_rules@) =~= Seq::<PlatformRuleView>::empty());
    }

    /// Finishes a deactivation with the platform's answer to removing the blocking rule:
    /// on success the kill switch is inactive and holds no rule; on failure nothing
    /// changes and the platform's error is handed back.
    pub fn finish_deactivation(&mut self, outcome: Result<(), String>) -> (r: Result<(), String>)
        requires
            old(self).wf(),
        ensures
            final(self).wf(),
            (match outcome {
                Ok(()) => r is Ok && final(self)@ == deactivated_view(old(self)@),
                Err(e) => r == Err::<(), String>(e) && final(self)@ == old(self)@,
            }),
    {
        match outcome {
            Ok(()) => {
                self.deactivated();
                Ok(())
            },
            Err(e) => Err(e),
        }
    }

    /// How the kill switch answers `event`.
    pub fn respond_to(event: &ModuleEvent) -> (r: KillSwitchResponse)
        ensures
            r == response_to(*event),
    {
        match event {
            ModuleEvent::VpnDisconnected { .. } => KillSwitchResponse::Activate,
            ModuleEvent::VpnConnected { .. } => KillSwitchResponse::Deactivate,
            _ => KillSwitchResponse::Ignore,
        }
    }

    /// Settles the kill switch's reaction to `event`, given the platform's answer to the
    /// rule change that the reaction called for: adding the blocking rule when a VPN
    /// disconnection finds the kill switch inactive, removing it when a VPN connection
    /// finds it active. Where no change was called for, `outcome` is not consulted.
    /// A VPN disconnection that leaves the kill switch active returns the event to
    /// publish, `ModuleStarted` for "killswitch"; a platform error leaves the state as it
    /// was and is handed back; any other event changes nothing.
    pub fn react(&mut self, event: &ModuleEvent, outcome: Result<(), String>) -> (r: Result<Option<ModuleEvent>, String>)
        requires
            old(self).wf(),
        ensures
            final(self).wf(),
            (match response_to(*event) {
                KillSwitchResponse::Activate => if old(self)@.active {
                    final(self)@ == old(self)@
                        && (r matches Ok(Some(ModuleEvent::ModuleStarted { module_id })) && module_id@ == "killswitch"@)
                } else {
                    match outcome {
                        Ok(()) => final(self)@ == activated_view(old(self)@)
                            && (r matches Ok(Some(ModuleEvent::ModuleStarted { module_id })) && module_id@ == "killswitch"@),
                        Err(e) => final(self)@ == old(self)@ && r == Err::<Option<ModuleEvent>, String>(e),
                    }
                },
                KillSwitchResponse::Deactivate => if old(self)@.active {
                    match outcome {
                        Ok(()) => final(self)@ == deactivated_view(old(self)@) && r == Ok::<Option<ModuleEvent>, String>(None),
                        Err(e) => final(self)@ == old(self)@ && r == Err::<Option<ModuleEvent>, String>(e),
                    }
                } else {
                    final(self)@ == old(self)@ && r == Ok::<Option<ModuleEvent>, String>(None)
                },
                KillSwitchResponse::Ignore => final(self)@ == old(self)@ && r == Ok::<Option<ModuleEvent>, String>(None),
            }),
    {
        match Self::respond_to(event) {
            KillSwitchResponse::Activate => {
                match self.plan_activate() {
                    Some(rule) => match self.finish_activation(rule, outcome) {
                        Ok(()) => {},
                        Err(e) => return Err(e),
                    },
                    None => {},
                }
                Ok(Some(Self::activation_event()))
            },
            KillSwitchResponse::Deactivate => {
                match self.plan_deactivate() {
                    Some(_) => match self.finish_deactivation(outcome) {
                        Ok(()) => {},
                        Err(e) => return Err(e),
                    },
                    None => {},
                }
                Ok(None)
            },
            KillSwitchResponse::Ignore => Ok(None),
        }
    }

    /// The event published after activating on a VPN disconnect: `ModuleStarted` for
    /// "killswitch".
    pub fn activation_event() -> (e: ModuleEvent)
        ensures
            (e matches ModuleEvent::ModuleStarted { module_id } && module_id@ == "killswitch"@),
    {
        ModuleEvent::ModuleStarted { module_id: owned("killswitch") }
    }

    pub fn id(&self) -> (r: &'static str)
        ensures
            r@ == "killswitch"@,
    {
        "killswitch"
    }

    pub fn name(&self) -> (r: &'static str)
        ensures
            r@ == "Kill Switch"@,
    {
        "Kill Switch"
    }

    pub fn priority(&self) -> (r: u32)
        ensures
            r == 2,
    {
        2
    }

    /// The kill switch depends on the VPN module.
    pub fn dependencies(&self) -> (r: Vec<String>)
        ensures
            r@.len() == 1,
            r@[0]@ == "vpn"@,
    {
        let mut v: Vec<String> = Vec::new();
        v.push(owned("vpn"));
        v
    }

    pub fn status(&self) -> (s: ModuleStatus)
        ensures
            s == self@.status,
    {
        self.status.clone()
    }

    /// Marks the kill switch initialized; nothing else changes.
    pub fn initialize(&mut self)
        requires
            old(self).wf(),
        ensures
            final(self).wf(),
            final(self)@ == (KillSwitchView { status: ModuleStatus::Initialized, ..old(self)@ }),
    {
        self.status = ModuleStatus::Initialized;
    }

    /// Marks the kill switch running; nothing else changes.
    pub fn start(&mut self)
        requires
            old(self).wf(),
        ensures
            final(self).wf(),
            final(self)@ == (KillSwitchView { status: ModuleStatus::Running, ..old(self)@ }),
    {
        self.status = ModuleStatus::Running;
    }

    /// Marks the kill switch stopped, once it has been deactivated.
    pub fn stopped(&mut self)
        requires
            old(self).wf(),
            !old(self)@.active,
        ensures
            final(self).wf(),
            final(self)@ == (KillSwitchView { status: ModuleStatus::Stopped, ..old(self)@ }),
    {
        self.status = ModuleStatus::Stopped;
    }
}

} // verus!
