//! The alert manager: turns module events into security alerts and keeps the most
//! recent ones in memory.
pub mod log;
pub mod types;

use vstd::prelude::*;
use crate::alert::types::{Alert, AlertCategory, AlertConfig, AlertSeverity, AlertView};
use crate::engine::clock::{later_than, now, UtcTimestamp};
use crate::engine::mod_trait::{ModuleEvent, ModuleStatus};
use crate::text::{concat2, decimal, decimal_string, owned, str_eq};

verus! {

/// The views of a list of alerts.
pub open spec fn alerts_view(s: Seq<Alert>) -> Seq<AlertView> {
    s.map_values(|a: Alert| a@)
}

/// `s` after adding `a` to a store that keeps at most `max` alerts: when the store is
/// full the oldest alert (the first) makes way.
pub open spec fn push_evicting(s: Seq<AlertView>, a: AlertView, max: nat) -> Seq<AlertView> {
    if s.len() >= max {
        s.drop_first().push(a)
    } else {
        s.push(a)
    }
}

/// Storing an alert never lets the store grow past `max`: it keeps the newest alerts,
/// in the order they came, the new one last; only when full does the oldest go.
pub proof fn lemma_store_keeps_newest(s: Seq<AlertView>, a: AlertView, max: nat)
    requires
        s.len() <= max,
        max > 0,
    ensures
        push_evicting(s, a, max).len() == (if s.len() < max { s.len() + 1 } else { max }) as int,
        push_evicting(s, a, max).last() == a,
        push_evicting(s, a, max) == s.push(a).subrange(
            s.push(a).len() - push_evicting(s, a, max).len(),
            s.push(a).len() as int,
        ),
{
    let r = push_evicting(s, a, max);
    assert(r =~= s.push(a).subrange(s.push(a).len() - r.len(), s.push(a).len() as int));
}

/// The alerts of `s` with severity `sev`, in order.
pub open spec fn with_severity(s: Seq<AlertView>, sev: AlertSeverity) -> Seq<AlertView> {
    s.filter(|a: AlertView| a.severity == sev)
}

/// The alerts of `s` not yet acknowledged, in order.
pub open spec fn unacknowledged(s: Seq<AlertView>) -> Seq<AlertView> {
    s.filter(|a: AlertView| !a.acknowledged)
}

/// The alerts of `s` raised after `cutoff`, in order.
pub open spec fn newer_than(s: Seq<AlertView>, cutoff: UtcTimestamp) -> Seq<AlertView> {
    s.filter(|a: AlertView| later_than(a.timestamp, cutoff))
}

/// An age longer than the longest span the clock can subtract (`i64::MAX` milliseconds).
pub open spec fn beyond_clock_span(secs: u64, nanos: u32) -> bool {
    secs > 9_223_372_036_854_775 || (secs == 9_223_372_036_854_775 && nanos > 807_000_000)
}

/// The moment `secs` seconds and `nanos` nanoseconds before `t` (with `t.nanos` below one
/// second); an age beyond the clock's span counts as one day.
pub open spec fn age_cutoff(t: UtcTimestamp, secs: u64, nanos: u32) -> UtcTimestamp {
    let (s, n): (int, int) = if beyond_clock_span(secs, nanos) { (86400, 0) } else { (secs as int, nanos as int) };
    if t.nanos >= n {
        UtcTimestamp { secs: (t.secs - s) as i64, nanos: (t.nanos - n) as u32 }
    } else {
        UtcTimestamp { secs: (t.secs - s - 1) as i64, nanos: (t.nanos + 1_000_000_000 - n) as u32 }
    }
}

/// The whole seconds of `age_cutoff(t, secs, nanos)`, as an unbounded integer.
pub open spec fn age_cutoff_secs(t: UtcTimestamp, secs: u64, nanos: u32) -> int {
    let (s, n): (int, int) = if beyond_clock_span(secs, nanos) { (86400, 0) } else { (secs as int, nanos as int) };
    if t.nanos >= n { t.secs - s } else { t.secs - s - 1 }
}

/// The first second of the earliest date the clock can represent (1 January of year
/// -262143), counted from the Unix epoch.
pub open spec fn earliest_clock_second() -> int {
    -8_334_601_315_200
}

/// The last `limit` alerts of `s` (all of them when there are fewer), newest first.
pub open spec fn most_recent(s: Seq<AlertView>, limit: nat) -> Seq<AlertView> {
    let n: nat = if limit < s.len() { limit } else { s.len() };
    Seq::new(n, |i: int| s[s.len() - 1 - i])
}

/// `i` is the position of the first alert of `s` with identifier `id`.
pub open spec fn first_with_id(s: Seq<AlertView>, id: Seq<char>, i: int) -> bool {
    &&& 0 <= i < s.len()
    &&& s[i].id == id
    &&& forall|j: int| 0 <= j < i ==> s[j].id != id
}

/// Some alert of `s` has identifier `id`.
pub open spec fn has_alert_id(s: Seq<AlertView>, id: Seq<char>) -> bool {
    exists|i: int| 0 <= i < s.len() && (#[trigger] s[i]).id == id
}

/// The alert `a`, acknowledged.
pub open spec fn acknowledged(a: AlertView) -> AlertView {
    AlertView { acknowledged: true, ..a }
}

/// Acknowledging a pending alert takes exactly that alert off the pending list: one
/// alert fewer is pending, and the others stay pending, in order.
pub proof fn lemma_acknowledging_clears_pending(s: Seq<AlertView>, i: int)
    requires
        0 <= i < s.len(),
        !s[i].acknowledged,
    ensures
        unacknowledged(s.update(i, acknowledged(s[i]))).len() + 1 == unacknowledged(s).len(),
        unacknowledged(s.update(i, acknowledged(s[i])))
            == unacknowledged(s.take(i)) + unacknowledged(s.skip(i + 1)),
{
    let p = |a: AlertView| !a.acknowledged;
    let u = s.update(i, acknowledged(s[i]));
    assert(s =~= s.take(i) + seq![s[i]] + s.skip(i + 1));
    assert(u =~= s.take(i) + seq![acknowledged(s[i])] + s.skip(i + 1));
    Seq::filter_distributes_over_add(s.take(i) + seq![s[i]], s.skip(i + 1), p);
    Seq::filter_distributes_over_add(s.take(i), seq![s[i]], p);
    Seq::filter_distributes_over_add(s.take(i) + seq![acknowledged(s[i])], s.skip(i + 1), p);
    Seq::filter_distributes_over_add(s.take(i), seq![acknowledged(s[i])], p);
    reveal(Seq::filter);
    assert(seq![s[i]].drop_last() =~= Seq::<AlertView>::empty());
    assert(seq![acknowledged(s[i])].drop_last() =~= Seq::<AlertView>::empty());
    assert(seq![s[i]].filter(p) =~= seq![s[i]]);
    assert(seq![acknowledged(s[i])].filter(p) =~= Seq::<AlertView>::empty());
    assert(unacknowledged(u) =~= unacknowledged(s.take(i)) + unacknowledged(s.skip(i + 1)));
}

/// The severity, title and message of the alert that an event raises; `None` for an
/// event that raises no alert.
pub open spec fn event_alert(e: ModuleEvent) -> Option<(AlertSeverity, Seq<char>, Seq<char>)> {
    match e {
        ModuleEvent::ArpSpoofDetected { attacker_mac, victim_ip } => Some((
            AlertSeverity::Critical,
            "ARP Spoof Detected"@,
            "ARP spoofing detected: MAC "@ + attacker_mac@ + " is impersonating IP "@ + victim_ip@,
        )),
        ModuleEvent::VpnDisconnected { reason } => Some((
            AlertSeverity::High,
            "VPN Disconnected"@,
            "VPN connection lost: "@ + reason@,
        )),
        ModuleEvent::VpnConnectionFailed { error } => Some((
            AlertSeverity::High,
            "VPN Connection Failed"@,
            "Failed to connect to VPN: "@ + error@,
        )),
        ModuleEvent::DnsLeakDetected { dns_server, interface } => Some((
            AlertSeverity::High,
            "DNS Leak Detected"@,
            "DNS leak detected: "@ + dns_server@ + " responded on interface "@ + interface@,
        )),
        ModuleEvent::FirewallRuleBlocked { src_ip, dst_port } => Some((
            AlertSeverity::Medium,
            "Traffic Blocked"@,
            "Firewall blocked traffic from "@ + src_ip@ + " to port "@ + decimal(dst_port as nat),
        )),
        ModuleEvent::ModuleFailed { module_id, error } => Some((
            AlertSeverity::High,
            "Module Failed"@,
            "Module '"@ + module_id@ + "' failed: "@ + error@,
        )),
        ModuleEvent::VpnConnected { server, ip } => Some((
            AlertSeverity::Info,
            "VPN Connected"@,
            "Connected to VPN server "@ + server@ + " (IP: "@ + ip@ + ")"@,
        )),
        ModuleEvent::FirewallRuleAdded { rule_id, description } => Some((
            AlertSeverity::Info,
            "Firewall Rule Added"@,
            "Rule '"@ + rule_id@ + "' added: "@ + description@,
        )),
        _ => None,
    }
}

fn join3(a: &str, b: &str, c: &str) -> (r: String)
    ensures
        r@ == a@ + b@ + c@,
{
    let ab = concat2(a, b);
    concat2(ab.as_str(), c)
}

fn join4(a: &str, b: &str, c: &str, d: &str) -> (r: String)
    ensures
        r@ == a@ + b@ + c@ + d@,
{
    let abc = join3(a, b, c);
    concat2(abc.as_str(), d)
}

fn join5(a: &str, b: &str, c: &str, d: &str, e: &str) -> (r: String)
    ensures
        r@ == a@ + b@ + c@ + d@ + e@,
{
    let abcd = join4(a, b, c, d);
    concat2(abcd.as_str(), e)
}

/// The severity, title and message of the alert that `event` raises, if any.
pub fn alert_content(event: &ModuleEvent) -> (r: Option<(AlertSeverity, String, String)>)
    ensures
        (match r {
            Some((sev, title, message)) => event_alert(*event) == Some((sev, title@, message@)),
            None => event_alert(*event) is None,
        }),
{
    match event {
        ModuleEvent::ArpSpoofDetected { attacker_mac, victim_ip } => Some((
            AlertSeverity::Critical,
            owned("ARP Spoof Detected"),
            join4("ARP spoofing detected: MAC ", attacker_mac.as_str(), " is impersonating IP ", victim_ip.as_str()),
        )),
        ModuleEvent::VpnDisconnected { reason } => Some((
            AlertSeverity::High,
            owned("VPN Disconnected"),
            concat2("VPN connection lost: ", reason.as_str()),
        )),
        ModuleEvent::VpnConnectionFailed { error } => Some((
            AlertSeverity::High,
            owned("VPN Connection Failed"),
            concat2("Failed to connect to VPN: ", error.as_str()),
        )),
        ModuleEvent::DnsLeakDetected { dns_server, interface } => Some((
            AlertSeverity::High,
            owned("DNS Leak Detected"),
            join4("DNS leak detected: ", dns_server.as_str(), " responded on interface ", interface.as_str()),
        )),
        ModuleEvent::FirewallRuleBlocked { src_ip, dst_port } => {
            let port = decimal_string(*dst_port as u64);
            Some((
                AlertSeverity::Medium,
                owned("Traffic Blocked"),
                join4("Firewall blocked traffic from ", src_ip.as_str(), " to port ", port.as_str()),
            ))
        },
        ModuleEvent::ModuleFailed { module_id, error } => Some((
            AlertSeverity::High,
            owned("Module Failed"),
            join4("Module '", module_id.as_str(), "' failed: ", error.as_str()),
        )),
        ModuleEvent::VpnConnected { server, ip } => Some((
            AlertSeverity::Info,
            owned("VPN Connected"),
            join5("Connected to VPN server ", server.as_str(), " (IP: ", ip.as_str(), ")"),
        )),
        ModuleEvent::FirewallRuleAdded { rule_id, description } => Some((
            AlertSeverity::Info,
            owned("Firewall Rule Added"),
            join4("Rule '", rule_id.as_str(), "' added: ", description.as_str()),
        )),
        _ => None,
    }
}

/// The abstract state of an [`AlertManager`].
pub struct AlertManagerView {
    pub status: ModuleStatus,
    /// The stored alerts, oldest first.
    pub alerts: Seq<AlertView>,
    pub config: AlertConfig,
}

/// Alert module: listens to events and keeps the security alerts they raise, at most
/// `config.max_alerts` of them, oldest first.
pub struct AlertManager {
    status: ModuleStatus,
    alerts: Vec<Alert>,
    config: AlertConfig,
}

impl View for AlertManager {
    type V = AlertManagerView;

    closed spec fn view(&self) -> AlertManagerView {
        AlertManagerView { status: self.status, alerts: alerts_view(self.alerts@), config: self.config }
    }
}

impl AlertManager {
    /// Well-formedness: no more alerts are stored than the configuration allows.
    pub open spec fn wf(&self) -> bool {
        self@.alerts.len() <= self@.config.max_alerts
    }

    /// A manager with the default configuration (at most 1000 alerts), created, with no alerts.
    pub fn new() -> (m: Self)
        ensures
            m.wf(),
            m@.status == ModuleStatus::Created,
            m@.alerts == Seq::<AlertView>::empty(),
            m@.config.max_alerts == 1000,
            m@.config.enabled,
            m@.config.log_to_file,
            m@.config.log_file_path is None,
            m@.config.max_age_secs == 86400,
            m@.config.min_severity == AlertSeverity::Info,
    {
        Self::with_config(AlertConfig::default())
    }

    /// A manager with the given configuration, created, with no alerts.
    pub fn with_config(config: AlertConfig) -> (m: Self)
        ensures
            m.wf(),
            m@.status == ModuleStatus::Created,
            m@.alerts == Seq::<AlertView>::empty(),
            m@.config == config,
    {
        let m = AlertManager { status: ModuleStatus::Created, alerts: Vec::new(), config };
        assert(m@.alerts =~= Seq::<AlertView>::empty());
        m
    }

    /// The configuration.
    pub fn config(&self) -> (c: &AlertConfig)
        ensures
            *c == self@.config,
    {
        &self.config
    }

    /// Stores an alert; when `max_alerts` alerts are already stored, the oldest is dropped
    /// first.
    pub fn add_alert(&mut self, alert: Alert)
        requires
            old(self).wf(),
            old(self)@.config.max_alerts > 0,
        ensures
            final(self).wf(),
            final(self)@ == (AlertManagerView {
                alerts: push_evicting(old(self)@.alerts, alert@, old(self)@.config.max_alerts as nat),
                ..old(self)@
            }),
    {
        let ghost before = alerts_view(self.alerts@);
        if self.alerts.len() >= self.config.max_alerts {
            self.alerts.remove(0);
            assert(alerts_view(self.alerts@) =~= before.drop_first());
        }
        self.alerts.push(alert);
        assert(alerts_view(self.alerts@) =~= push_evicting(before, alert@, self.config.max_alerts as nat));
    }

    /// A copy of all stored alerts, oldest first.
    pub fn get_alerts(&self) -> (r: Vec<Alert>)
        ensures
            alerts_view(r@) == self@.alerts,
    {
        let mut out: Vec<Alert> = Vec::new();
        let n = self.alerts.len();
        for i in 0..n
            invariant
                n == self.alerts@.len(),
                out@ == self.alerts@.take(i as int),
        {
            out.push(self.alerts[i].clone());
            assert(out@ =~= self.alerts@.take(i + 1));
        }
        assert(self.alerts@.take(n as int) =~= self.alerts@);
        out
    }

    /// The stored alerts with the given severity, oldest first.
    pub fn get_alerts_by_severity(&self, severity: AlertSeverity) -> (r: Vec<Alert>)
        ensures
            alerts_view(r@) == with_severity(self@.alerts, severity),
    {
        let ghost s = alerts_view(self.alerts@);
        let mut out: Vec<Alert> = Vec::new();
        let n = self.alerts.len();
        for i in 0..n
            invariant
                n == self.alerts@.len(),
                s == alerts_view(self.alerts@),
                alerts_view(out@) == with_severity(s.take(i as int), severity),
        {
            proof {
                reveal(Seq::filter);
                assert(s.take(i + 1).drop_last() == s.take(i as int));
            }
            if self.alerts[i].severity == severity {
                out.push(self.alerts[i].clone());
            }
            assert(alerts_view(out@) =~= with_severity(s.take(i + 1), severity));
        }
        assert(s.take(n as int) =~= s);
        out
    }

    /// Number of stored alerts.
    pub fn alert_count(&self) -> (n: usize)
        ensures
            n == self@.alerts.len(),
    {
        self.alerts.len()
    }

    /// Number of stored alerts with the given severity.
    pub fn count_by_severity(&self, severity: AlertSeverity) -> (c: usize)
        ensures
            c == with_severity(self@.alerts, severity).len(),
    {
        let ghost s = alerts_view(self.alerts@);
        let mut c: usize = 0;
        let n = self.alerts.len();
        for i in 0..n
            invariant
                n == self.alerts@.len(),
                s == alerts_view(self.alerts@),
                c == with_severity(s.take(i as int), severity).len(),
                c <= i,
        {
            proof {
                reveal(Seq::filter);
                assert(s.take(i + 1).drop_last() == s.take(i as int));
            }
            if self.alerts[i].severity == severity {
                c = c + 1;
            }
        }
        assert(s.take(n as int) =~= s);
        c
    }

    /// Removes every stored alert.
    pub fn clear_alerts(&mut self)
        requires
            old(self).wf(),
        ensures
            final(self).wf(),
            final(self)@ == (AlertManagerView { alerts: Seq::empty(), ..old(self)@ }),
    {
        self.alerts.clear();
        assert(alerts_view(self.alerts@) =~= Seq::<AlertView>::empty());
    }

    /// Keeps only the alerts raised after `cutoff`, in order.
    pub fn retain_newer_than(&mut self, cutoff: UtcTimestamp)
        requires
            old(self).wf(),
        ensures
            final(self).wf(),
            final(self)@ == (AlertManagerView { alerts: newer_than(old(self)@.alerts, cutoff), ..old(self)@ }),
    {
        let ghost s = alerts_view(self.alerts@);
        let mut kept: Vec<Alert> = Vec::new();
        let n = self.alerts.len();
        for i in 0..n
            invariant
                n == self.alerts@.len(),
                s == alerts_view(self.alerts@),
                alerts_view(kept@) == newer_than(s.take(i as int), cutoff),
                kept@.len() <= i,
        {
            proof {
                reveal(Seq::filter);
                assert(s.take(i + 1).drop_last() == s.take(i as int));
            }
            if crate::engine::clock::is_later(self.alerts[i].timestamp, cutoff) {
                kept.push(self.alerts[i].clone());
            }
            assert(alerts_view(kept@) =~= newer_than(s.take(i + 1), cutoff));
        }
        assert(s.take(n as int) =~= s);
        self.alerts = kept;
    }

    /// Drops the alerts that are `max_age_secs` seconds and `max_age_nanos` nanoseconds
    /// old or older at the moment `now`: only those raised after that moment stay. An
    /// age beyond the longest span the clock can subtract (`i64::MAX` milliseconds)
    /// counts as one day. The moment must not fall before the earliest date the clock
    /// can represent.
    pub fn clear_alerts_older_than(&mut self, now: UtcTimestamp, max_age_secs: u64, max_age_nanos: u32)
        requires
            old(self).wf(),
            now.nanos < 1_000_000_000,
            max_age_nanos < 1_000_000_000,
            age_cutoff_secs(now, max_age_secs, max_age_nanos) >= earliest_clock_second(),
        ensures
            final(self).wf(),
            final(self)@ == (AlertManagerView {
                alerts: newer_than(old(self)@.alerts, age_cutoff(now, max_age_secs, max_age_nanos)),
                ..old(self)@
            }),
    {
        let beyond = max_age_secs > 9_223_372_036_854_775
            || (max_age_secs == 9_223_372_036_854_775 && max_age_nanos > 807_000_000);
        let (s, n): (i64, u32) = if beyond { (86400, 0) } else { (max_age_secs as i64, max_age_nanos) };
        let cutoff = if now.nanos >= n {
            UtcTimestamp { secs: now.secs - s, nanos: now.nanos - n }
        } else {
            UtcTimestamp { secs: now.secs - s - 1, nanos: now.nanos + 1_000_000_000 - n }
        };
        assert(cutoff == age_cutoff(now, max_age_secs, max_age_nanos));
        self.retain_newer_than(cutoff);
    }

    /// Drops the alerts that are `max_age_secs` seconds and `max_age_nanos` nanoseconds
    /// old or older, reading the clock for the present moment (see
    /// `clear_alerts_older_than`, which decides for a given moment). Ages from
    /// 8,334,601,315,200 seconds (the distance from the epoch back to the earliest
    /// representable date) up to the clock's span are left out: for a clock reading at
    /// the epoch, subtracting them would leave the range of representable dates.
    pub fn clear_old_alerts(&mut self, max_age_secs: u64, max_age_nanos: u32)
        requires
            old(self).wf(),
            max_age_nanos < 1_000_000_000,
            max_age_secs < 8_334_601_315_200 || beyond_clock_span(max_age_secs, max_age_nanos),
        ensures
            final(self).wf(),
            exists|t: UtcTimestamp|
                0 <= t.secs <= 8_210_266_876_799 && t.nanos < 1_000_000_000
                && final(self)@ == (AlertManagerView {
                    alerts: newer_than(old(self)@.alerts, #[trigger] age_cutoff(t, max_age_secs, max_age_nanos)),
                    ..old(self)@
                }),
    {
        let t = now();
        self.clear_alerts_older_than(t, max_age_secs, max_age_nanos);
    }

    /// The `limit` most recent alerts (all of them when fewer are stored), newest first.
    pub fn recent_alerts(&self, limit: usize) -> (r: Vec<Alert>)
        ensures
            alerts_view(r@) == most_recent(self@.alerts, limit as nat),
    {
        let ghost s = alerts_view(self.alerts@);
        let n = self.alerts.len();
        let k: usize = if limit < n { limit } else { n };
        let mut out: Vec<Alert> = Vec::new();
        for i in 0..k
            invariant
                n == self.alerts@.len(),
                k <= n,
                s == alerts_view(self.alerts@),
                out@.len() == i,
                forall|j: int| 0 <= j < i ==> out@[j] == self.alerts@[n - 1 - j],
                k == most_recent(s, limit as nat).len(),
        {
            out.push(self.alerts[n - 1 - i].clone());
        }
        assert(alerts_view(out@) =~= most_recent(s, limit as nat));
        out
    }

    /// The stored alerts not yet acknowledged, oldest first.
    pub fn unacknowledged_alerts(&self) -> (r: Vec<Alert>)
        ensures
            alerts_view(r@) == unacknowledged(self@.alerts),
    {
        let ghost s = alerts_view(self.alerts@);
        let mut out: Vec<Alert> = Vec::new();
        let n = self.alerts.len();
        for i in 0..n
            invariant
                n == self.alerts@.len(),
                s == alerts_view(self.alerts@),
                alerts_view(out@) == unacknowledged(s.take(i as int)),
        {
            proof {
                reveal(Seq::filter);
                assert(s.take(i + 1).drop_last() == s.take(i as int));
            }
            if !self.alerts[i].acknowledged {
                out.push(self.alerts[i].clone());
            }
            assert(alerts_view(out@) =~= unacknowledged(s.take(i + 1)));
        }
        assert(s.take(n as int) =~= s);
        out
    }

    /// Marks the first stored alert with identifier `alert_id` as acknowledged and returns
    /// `true`; returns `false`, changing nothing, when no stored alert has that identifier.
    pub fn acknowledge_alert(&mut self, alert_id: &str) -> (found: bool)
        requires
            old(self).wf(),
        ensures
            final(self).wf(),
            found == has_alert_id(old(self)@.alerts, alert_id@),
            !found ==> final(self)@ == old(self)@,
            found ==> exists|i: int| first_with_id(old(self)@.alerts, alert_id@, i)
                && final(self)@ == (AlertManagerView {
                    alerts: old(self)@.alerts.update(i, acknowledged(old(self)@.alerts[i])),
                    ..old(self)@
                }),
    {
        let ghost s = alerts_view(self.alerts@);
        let n = self.alerts.len();
        for i in 0..n
            invariant
                n == self.alerts@.len(),
                s == alerts_view(self.alerts@),
                old(self).wf(),
                self.alerts@ == old(self).alerts@,
                self.status == old(self).status,
                self.config == old(self).config,
                forall|j: int| 0 <= j < i ==> s[j].id != alert_id@,
        {
            if str_eq(self.alerts[i].id.as_str(), alert_id) {
                let mut a = self.alerts[i].clone();
                a.acknowledged = true;
                self.alerts.set(i, a);
                assert(self.alerts@.len() == old(self).alerts@.len());
                assert(first_with_id(s, alert_id@, i as int));
                assert(alerts_view(self.alerts@) =~= s.update(i as int, acknowledged(s[i as int])));
                assert(self@ == (AlertManagerView {
                    alerts: old(self)@.alerts.update(i as int, acknowledged(old(self)@.alerts[i as int])),
                    ..old(self)@
                }));
                return true;
            }
        }
        assert(self@ == old(self)@);
        false
    }

    /// The alert that `event` raises, if any: its severity, title and message are those
    /// of `event_alert`, in the `General` category, with a fresh id and the current time.
    pub fn event_to_alert(event: &ModuleEvent) -> (r: Option<Alert>)
        ensures
            (match r {
                Some(a) => event_alert(*event) == Some((a.severity, a.title@, a.message@)) && !a.acknowledged
                    && a.category == AlertCategory::General && a.id@.len() == 36,
                None => event_alert(*event) is None,
            }),
    {
        match alert_content(event) {
            Some((severity, title, message)) => Some(Alert::new(severity, title, message)),
            None => None,
        }
    }

    /// Stores the alert that `event` raises, if any.
    pub fn on_event(&mut self, event: &ModuleEvent)
        requires
            old(self).wf(),
            event_alert(*event) is Some ==> old(self)@.config.max_alerts > 0,
        ensures
            final(self).wf(),
            event_alert(*event) is None ==> final(self)@ == old(self)@,
            event_alert(*event) is Some ==> exists|a: AlertView|
                #![trigger push_evicting(old(self)@.alerts, a, old(self)@.config.max_alerts as nat)]
            {
                &&& event_alert(*event) == Some((a.severity, a.title, a.message))
                &&& !a.acknowledged
                &&& a.category == AlertCategory::General
                &&& a.id.len() == 36
                &&& final(self)@ == (AlertManagerView {
                    alerts: push_evicting(old(self)@.alerts, a, old(self)@.config.max_alerts as nat),
                    ..old(self)@
                })
            },
    {
        match Self::event_to_alert(event) {
            Some(alert) => {
                let ghost a = alert@;
                self.add_alert(alert);
                assert(event_alert(*event) == Some((a.severity, a.title, a.message)));
                assert(self@ == (AlertManagerView {
                    alerts: push_evicting(old(self)@.alerts, a, old(self)@.config.max_alerts as nat),
                    ..old(self)@
                }));
            },
            None => {},
        }
    }

    pub fn id(&self) -> (r: &'static str)
        ensures
            r@ == "alert_manager"@,
    {
        "alert_manager"
    }

    pub fn name(&self) -> (r: &'static str)
        ensures
            r@ == "Alert Manager"@,
    {
        "Alert Manager"
    }

    pub fn priority(&self) -> (r: u32)
        ensures
            r == 6,
    {
        6
    }

    /// The alert manager depends on no other module.
    pub fn dependencies(&self) -> (r: Vec<String>)
        ensures
            r@.len() == 0,
    {
        Vec::new()
    }

    pub fn status(&self) -> (s: ModuleStatus)
        ensures
            s == self@.status,
    {
        self.status.clone()
    }

    /// Marks the manager initialized; nothing else changes.
    pub fn initialize(&mut self)
        requires
            old(self).wf(),
        ensures
            final(self).wf(),
            final(self)@ == (AlertManagerView { status: ModuleStatus::Initialized, ..old(self)@ }),
    {
        self.status = ModuleStatus::Initialized;
    }

    /// Marks the manager running; nothing else changes.
    pub fn start(&mut self)
        requires
            old(self).wf(),
        ensures
            final(self).wf(),
            final(self)@ == (AlertManagerView { status: ModuleStatus::Running, ..old(self)@ }),
    {
        self.status = ModuleStatus::Running;
    }

    /// Marks the manager stopped; nothing else changes.
    pub fn stop(&mut self)
        requires
            old(self).wf(),
        ensures
            final(self).wf(),
            final(self)@ == (AlertManagerView { status: ModuleStatus::Stopped, ..old(self)@ }),
    {
        self.status = ModuleStatus::Stopped;
    }
}

} // verus!
