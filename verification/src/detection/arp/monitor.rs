//! ARP monitoring: known IP-to-MAC mappings and detection of MAC changes.
//!
//! Detection strategies the monitor supports:
//! 1. Periodic ARP table scanning for duplicate IP-to-MAC mappings
//! 2. Passive ARP reply monitoring for unsolicited replies
//! 3. Detection of MAC address changes for known gateway IPs
use vstd::prelude::*;
use crate::engine::clock::{now, UtcTimestamp};
use crate::engine::string_map::StringMap;
use crate::network::firewall::rules::{clone_opt, opt_view};
use crate::text::{concat2, str_eq};

verus! {

/// Configuration for a known gateway.
#[derive(Debug, Clone)]
pub struct GatewayConfig {
    /// IP address of the gateway.
    pub ip: String,
    /// Expected MAC address.
    pub mac: String,
    /// Optional description.
    pub description: Option<String>,
}

/// Configuration for the ARP detection module.
#[derive(Debug, Clone)]
pub struct ArpConfig {
    /// Whether ARP detection is enabled.
    pub enabled: bool,
    /// Scan interval in seconds.
    pub scan_interval_secs: u64,
    /// Known gateway IP-to-MAC mappings to monitor.
    pub known_gateways: Vec<GatewayConfig>,
    /// Maximum number of anomalies to retain in memory.
    pub max_anomalies: usize,
    /// Whether to log all ARP table changes (not just anomalies).
    pub log_all_changes: bool,
}

impl Default for ArpConfig {
    /// Enabled, scanning every 5 seconds, no known gateways, keeping at most 1000
    /// anomalies, logging anomalies only.
    fn default() -> (c: Self)
        ensures
            c.enabled,
            c.scan_interval_secs == 5,
            c.known_gateways@.len() == 0,
            c.max_anomalies == 1000,
            !c.log_all_changes,
    {
        ArpConfig { enabled: true, scan_interval_secs: 5, known_gateways: Vec::new(), max_anomalies: 1000, log_all_changes: false }
    }
}

/// A single ARP table entry.
#[derive(Debug, Clone)]
pub struct ArpEntry {
    pub ip: String,
    pub mac: String,
    pub interface: String,
}

/// A detected change of the MAC address seen for a known IP.
#[derive(Debug, Clone)]
pub struct ArpAnomaly {
    pub ip: String,
    pub previous_mac: String,
    pub new_mac: String,
    pub timestamp: UtcTimestamp,
    /// Optional description of the anomaly.
    pub description: Option<String>,
}

/// What an anomaly reports, apart from when it was detected.
pub struct AnomalyReport {
    pub ip: Seq<char>,
    pub previous_mac: Seq<char>,
    pub new_mac: Seq<char>,
    pub description: Option<Seq<char>>,
}

/// The abstract content of an [`ArpAnomaly`].
pub struct ArpAnomalyView {
    pub report: AnomalyReport,
    pub timestamp: UtcTimestamp,
}

impl View for ArpAnomaly {
    type V = ArpAnomalyView;

    open spec fn view(&self) -> ArpAnomalyView {
        ArpAnomalyView {
            report: AnomalyReport {
                ip: self.ip@,
                previous_mac: self.previous_mac@,
                new_mac: self.new_mac@,
                description: opt_view(self.description),
            },
            timestamp: self.timestamp,
        }
    }
}

/// The views of a list of anomalies.
pub open spec fn anomalies_view(s: Seq<ArpAnomaly>) -> Seq<ArpAnomalyView> {
    s.map_values(|a: ArpAnomaly| a@)
}

/// What checking an entry against known mappings reports: nothing for an unknown IP or the
/// expected MAC; otherwise the IP, the expected and the seen MAC, and the description
/// "MAC changed from <expected> to <seen> on <interface>".
pub open spec fn entry_report(known: Map<Seq<char>, Seq<char>>, ip: Seq<char>, mac: Seq<char>, interface: Seq<char>) -> Option<AnomalyReport> {
    if known.contains_key(ip) && known[ip] != mac {
        Some(AnomalyReport {
            ip,
            previous_mac: known[ip],
            new_mac: mac,
            description: Some("MAC changed from "@ + known[ip] + " to "@ + mac + " on "@ + interface),
        })
    } else {
        None
    }
}

/// `s` with `a` appended, then its oldest element dropped if it holds more than `max`.
pub open spec fn push_bounded<A>(s: Seq<A>, a: A, max: nat) -> Seq<A> {
    if s.len() + 1 > max {
        s.push(a).drop_first()
    } else {
        s.push(a)
    }
}

/// `s` after recording each of `found` in turn with [`push_bounded`].
pub open spec fn push_all_bounded<A>(s: Seq<A>, found: Seq<A>, max: nat) -> Seq<A>
    decreases found.len(),
{
    if found.len() == 0 {
        s
    } else {
        push_bounded(push_all_bounded(s, found.drop_last(), max), found.last(), max)
    }
}

/// Recording an anomaly never lets the record grow past `max`: it keeps the newest
/// anomalies, in the order they came, the new one last; only when full does the oldest go.
pub proof fn lemma_record_keeps_newest<A>(s: Seq<A>, a: A, max: nat)
    requires
        s.len() <= max,
        max > 0,
    ensures
        push_bounded(s, a, max).len() == (if s.len() < max { s.len() + 1 } else { max }) as int,
        push_bounded(s, a, max).last() == a,
        push_bounded(s, a, max) == s.push(a).subrange(
            s.push(a).len() - push_bounded(s, a, max).len(),
            s.push(a).len() as int,
        ),
{
    let r = push_bounded(s, a, max);
    assert(r =~= s.push(a).subrange(s.push(a).len() - r.len(), s.push(a).len() as int));
}

/// The abstract state of an [`ArpMonitor`].
pub struct ArpMonitorView {
    pub known: Map<Seq<char>, Seq<char>>,
    pub anomalies: Seq<ArpAnomalyView>,
    pub max_anomalies: nat,
}

/// Tracks known ARP mappings and the anomalies detected against them (the most recent
/// ones, at most `max_anomalies` of them).
pub struct ArpMonitor {
    /// Known IP-to-MAC mappings (IP -> MAC).
    known_mappings: StringMap<String>,
    /// Detected anomalies, oldest first.
    anomalies: Vec<ArpAnomaly>,
    /// Maximum anomalies to retain.
    max_anomalies: usize,
}

impl View for ArpMonitor {
    type V = ArpMonitorView;

    closed spec fn view(&self) -> ArpMonitorView {
        ArpMonitorView {
            known: self.known_mappings@.map_values(|m: String| m@),
            anomalies: anomalies_view(self.anomalies@),
            max_anomalies: self.max_anomalies as nat,
        }
    }
}

impl ArpMonitor {
    /// Well-formedness: the mapping table is well formed and no more anomalies are kept
    /// than the limit allows.
    pub closed spec fn wf(&self) -> bool {
        &&& self.known_mappings.wf()
        &&& self.anomalies@.len() <= self.max_anomalies
    }

    /// A monitor with no mappings or anomalies that keeps at most 1000 anomalies.
    pub fn new() -> (m: Self)
        ensures
            m.wf(),
            m@.known == Map::<Seq<char>, Seq<char>>::empty(),
            m@.anomalies == Seq::<ArpAnomalyView>::empty(),
            m@.max_anomalies == 1000,
    {
        Self::with_max_anomalies(1000)
    }

    /// A monitor with no mappings or anomalies that keeps at most `max_anomalies` anomalies.
    pub fn with_max_anomalies(max_anomalies: usize) -> (m: Self)
        ensures
            m.wf(),
            m@.known == Map::<Seq<char>, Seq<char>>::empty(),
            m@.anomalies == Seq::<ArpAnomalyView>::empty(),
            m@.max_anomalies == max_anomalies,
    {
        let m = ArpMonitor { known_mappings: StringMap::new(), anomalies: Vec::new(), max_anomalies };
        assert(m@.known =~= Map::<Seq<char>, Seq<char>>::empty());
        assert(m@.anomalies =~= Seq::<ArpAnomalyView>::empty());
        m
    }

    /// A monitor pre-loaded with the gateways of `config` (a later gateway with the same
    /// IP replaces an earlier one) that keeps at most `config.max_anomalies` anomalies.
    pub fn from_config(config: &ArpConfig) -> (m: Self)
        ensures
            m.wf(),
            m@.known == gateway_map(config.known_gateways@),
            m@.anomalies == Seq::<ArpAnomalyView>::empty(),
            m@.max_anomalies == config.max_anomalies,
    {
        let mut monitor = Self::with_max_anomalies(config.max_anomalies);
        let n = config.known_gateways.len();
        for i in 0..n
            invariant
                n == config.known_gateways@.len(),
                monitor.wf(),
                monitor@.known == gateway_map(config.known_gateways@.take(i as int)),
                monitor@.anomalies == Seq::<ArpAnomalyView>::empty(),
                monitor@.max_anomalies == config.max_anomalies,
        {
            let gw = &config.known_gateways[i];
            assert(config.known_gateways@.take(i + 1).drop_last() == config.known_gateways@.take(i as int));
            monitor.add_known_mapping(gw.ip.as_str(), gw.mac.as_str());
        }
        assert(config.known_gateways@.take(n as int) == config.known_gateways@);
        monitor
    }

    /// Records the expected MAC of an IP (replacing any earlier one).
    pub fn add_known_mapping(&mut self, ip: &str, mac: &str)
        requires
            old(self).wf(),
        ensures
            final(self).wf(),
            final(self)@ == (ArpMonitorView { known: old(self)@.known.insert(ip@, mac@), ..old(self)@ }),
    {
        self.known_mappings.insert(ip.to_owned(), mac.to_owned());
        assert(self@.known =~= old(self)@.known.insert(ip@, mac@));
    }

    /// Forgets the expected MAC of an IP, returning it.
    pub fn remove_known_mapping(&mut self, ip: &str) -> (r: Option<String>)
        requires
            old(self).wf(),
        ensures
            final(self).wf(),
            final(self)@ == (ArpMonitorView { known: old(self)@.known.remove(ip@), ..old(self)@ }),
            opt_view(r) == (if old(self)@.known.contains_key(ip@) { Some(old(self)@.known[ip@]) } else { None }),
    {
        let r = self.known_mappings.remove(ip);
        assert(self@.known =~= old(self)@.known.remove(ip@));
        r
    }

    /// Whether an expected MAC is recorded for the IP.
    pub fn has_known_mapping(&self, ip: &str) -> (r: bool)
        requires
            self.wf(),
        ensures
            r == self@.known.contains_key(ip@),
    {
        self.known_mappings.contains_key(ip)
    }

    /// The expected MAC for an IP, if known.
    pub fn get_expected_mac(&self, ip: &str) -> (r: Option<&str>)
        requires
            self.wf(),
        ensures
            match r {
                Some(m) => self@.known.contains_key(ip@) && m@ == self@.known[ip@],
                None => !self@.known.contains_key(ip@),
            },
    {
        match self.known_mappings.get(ip) {
            Some(m) => Some(m.as_str()),
            None => None,
        }
    }

    /// Number of known mappings.
    pub fn known_mapping_count(&self) -> (n: usize)
        requires
            self.wf(),
        ensures
            n == self@.known.dom().len(),
    {
        let n = self.known_mappings.len();
        assert(self@.known.dom() =~= self.known_mappings@.dom());
        n
    }

    /// Checks an entry against the known mappings, at time `at`. When the MAC seen for a
    /// known IP differs from the expected one, the anomaly is recorded (dropping the oldest
    /// one beyond the limit) and returned.
    pub fn check_entry_at(&mut self, entry: &ArpEntry, at: UtcTimestamp) -> (r: Option<ArpAnomaly>)
        requires
            old(self).wf(),
        ensures
            final(self).wf(),
            final(self)@.known == old(self)@.known,
            final(self)@.max_anomalies == old(self)@.max_anomalies,
            match entry_report(old(self)@.known, entry.ip@, entry.mac@, entry.interface@) {
                Some(rep) => r matches Some(a) && a@ == (ArpAnomalyView { report: rep, timestamp: at })
                    && final(self)@.anomalies == push_bounded(old(self)@.anomalies, a@, old(self)@.max_anomalies),
                None => r is None && final(self)@.anomalies == old(self)@.anomalies,
            },
    {
        let ghost known = self@.known;
        proof { self.known_mappings.lemma_entries(); }
        match self.known_mappings.get(entry.ip.as_str()) {
            Some(expected_mac) => {
                assert(known[entry.ip@] == expected_mac@);
                if !str_eq(expected_mac.as_str(), entry.mac.as_str()) {
                    let d1 = concat2("MAC changed from ", expected_mac.as_str());
                    let d2 = concat2(d1.as_str(), " to ");
                    let d3 = concat2(d2.as_str(), entry.mac.as_str());
                    let d4 = concat2(d3.as_str(), " on ");
                    let d5 = concat2(d4.as_str(), entry.interface.as_str());
                    let anomaly = ArpAnomaly {
                        ip: entry.ip.clone(),
                        previous_mac: expected_mac.clone(),
                        new_mac: entry.mac.clone(),
                        timestamp: at,
                        description: Some(d5),
                    };
                    let copy = ArpAnomaly {
                        ip: entry.ip.clone(),
                        previous_mac: expected_mac.clone(),
                        new_mac: entry.mac.clone(),
                        timestamp: at,
                        description: clone_opt(&anomaly.description),
                    };
                    let ghost av = anomaly@;
                    self.anomalies.push(copy);
                    if self.anomalies.len() > self.max_anomalies {
                        self.anomalies.remove(0);
                    }
                    assert(anomalies_view(self.anomalies@) =~= push_bounded(old(self)@.anomalies, av, old(self)@.max_anomalies));
                    return Some(anomaly);
                }
                None
            },
            None => None,
        }
    }

    /// Checks an entry against the known mappings at the current time (see
    /// [`ArpMonitor::check_entry_at`]); the anomaly's timestamp is the clock's reading.
    pub fn check_entry(&mut self, entry: &ArpEntry) -> (r: Option<ArpAnomaly>)
        requires
            old(self).wf(),
        ensures
            final(self).wf(),
            final(self)@.known == old(self)@.known,
            final(self)@.max_anomalies == old(self)@.max_anomalies,
            match entry_report(old(self)@.known, entry.ip@, entry.mac@, entry.interface@) {
                Some(rep) => r matches Some(a) && a@.report == rep
                    && final(self)@.anomalies == push_bounded(old(self)@.anomalies, a@, old(self)@.max_anomalies),
                None => r is None && final(self)@.anomalies == old(self)@.anomalies,
            },
    {
        let at = now();
        self.check_entry_at(entry, at)
    }

    /// Checks a batch of entries in order, returning the anomalies found (one per entry
    /// whose MAC differs from the expected one, in entry order); each is recorded in turn,
    /// as [`ArpMonitor::check_entry`] records it.
    pub fn check_entries(&mut self, entries: &[ArpEntry]) -> (r: Vec<ArpAnomaly>)
        requires
            old(self).wf(),
        ensures
            final(self).wf(),
            final(self)@.known == old(self)@.known,
            final(self)@.max_anomalies == old(self)@.max_anomalies,
            reports_of(anomalies_view(r@)) == batch_reports(old(self)@.known, entries@),
            final(self)@.anomalies == push_all_bounded(old(self)@.anomalies, anomalies_view(r@), old(self)@.max_anomalies),
    {
        let mut found: Vec<ArpAnomaly> = Vec::new();
        let n = entries.len();
        for i in 0..n
            invariant
                n == entries@.len(),
                self.wf(),
                self@.known == old(self)@.known,
                self@.max_anomalies == old(self)@.max_anomalies,
                reports_of(anomalies_view(found@)) == batch_reports(old(self)@.known, entries@.take(i as int)),
                self@.anomalies == push_all_bounded(old(self)@.anomalies, anomalies_view(found@), old(self)@.max_anomalies),
        {
            let ghost before = reports_of(anomalies_view(found@));
            let ghost fv = anomalies_view(found@);
            assert(entries@.take(i + 1).drop_last() == entries@.take(i as int));
            assert(entries@.take(i + 1).last() == entries@[i as int]);
            match self.check_entry(&entries[i]) {
                Some(a) => {
                    found.push(a);
                    assert(reports_of(anomalies_view(found@)) =~= before.push(a@.report));
                    assert(anomalies_view(found@) =~= fv.push(a@));
                    assert(anomalies_view(found@).drop_last() =~= fv);
                },
                None => {},
            }
        }
        assert(entries@.take(n as int) == entries@);
        found
    }

    /// The recorded anomalies, oldest first.
    pub fn anomalies(&self) -> (r: &[ArpAnomaly])
        ensures
            anomalies_view(r@) == self@.anomalies,
    {
        self.anomalies.as_slice()
    }

    /// Number of recorded anomalies.
    pub fn anomaly_count(&self) -> (n: usize)
        ensures
            n == self@.anomalies.len(),
    {
        self.anomalies.len()
    }

    /// Forgets all mappings and anomalies.
    pub fn reset(&mut self)
        requires
            old(self).wf(),
        ensures
            final(self).wf(),
            final(self)@ == (ArpMonitorView {
                known: Map::empty(),
                anomalies: Seq::empty(),
                ..old(self)@
            }),
    {
        self.known_mappings.clear();
        self.anomalies.clear();
        assert(self@.known =~= Map::<Seq<char>, Seq<char>>::empty());
        assert(self@.anomalies =~= Seq::<ArpAnomalyView>::empty());
    }

    /// Forgets the anomalies, keeping the mappings.
    pub fn clear_anomalies(&mut self)
        requires
            old(self).wf(),
        ensures
            final(self).wf(),
            final(self)@ == (ArpMonitorView { anomalies: Seq::empty(), ..old(self)@ }),
    {
        self.anomalies.clear();
        assert(self@.anomalies =~= Seq::<ArpAnomalyView>::empty());
    }

    /// All known mappings as (ip, mac) pairs, each once.
    pub fn known_mappings(&self) -> (r: Vec<(&str, &str)>)
        requires
            self.wf(),
        ensures
            r@.len() == self@.known.dom().len(),
            forall|i: int| 0 <= i < r@.len() ==> #[trigger] self@.known.contains_key(r@[i].0@) && self@.known[r@[i].0@] == r@[i].1@,
            forall|i: int, j: int| 0 <= i < j < r@.len() ==> r@[i].0@ != r@[j].0@,
    {
        proof { self.known_mappings.lemma_entries(); }
        let mut out: Vec<(&str, &str)> = Vec::new();
        let n = self.known_mappings.len();
        for i in 0..n
            invariant
                n == self.known_mappings.key_seq().len(),
                self.known_mappings.wf(),
                self.known_mappings.key_seq().no_duplicates(),
                self.known_mappings.key_seq().len() == self.known_mappings.value_seq().len(),
                forall|a: int| 0 <= a < n ==> #[trigger] self.known_mappings@.contains_key(self.known_mappings.key_seq()[a])
                    && self.known_mappings@[self.known_mappings.key_seq()[a]] == self.known_mappings.value_seq()[a],
                out@.len() == i,
                forall|a: int| 0 <= a < i ==> (#[trigger] out@[a]).0@ == self.known_mappings.key_seq()[a]
                    && out@[a].1@ == self.known_mappings.value_seq()[a]@,
        {
            out.push((self.known_mappings.key_at(i).as_str(), self.known_mappings.value_at(i).as_str()));
        }
        proof {
            assert forall|i: int| 0 <= i < out@.len() implies #[trigger] self@.known.contains_key(out@[i].0@) && self@.known[out@[i].0@] == out@[i].1@ by {
                assert(self.known_mappings@.contains_key(self.known_mappings.key_seq()[i]));
            }
            assert forall|i: int, j: int| 0 <= i < j < out@.len() implies out@[i].0@ != out@[j].0@ by {
                assert(out@[i].0@ == self.known_mappings.key_seq()[i]);
                assert(out@[j].0@ == self.known_mappings.key_seq()[j]);
            }
            assert(self@.known.dom() =~= self.known_mappings@.dom());
        }
        out
    }
}

impl Default for ArpMonitor {
    fn default() -> (m: Self)
        ensures
            m.wf(),
            m@.known == Map::<Seq<char>, Seq<char>>::empty(),
            m@.anomalies == Seq::<ArpAnomalyView>::empty(),
            m@.max_anomalies == 1000,
    {
        Self::new()
    }
}

/// The expected MACs the gateways describe: each gateway's IP mapped to its MAC, a later
/// gateway replacing an earlier one with the same IP.
pub open spec fn gateway_map(gws: Seq<GatewayConfig>) -> Map<Seq<char>, Seq<char>>
    decreases gws.len(),
{
    if gws.len() == 0 {
        Map::empty()
    } else {
        gateway_map(gws.drop_last()).insert(gws.last().ip@, gws.last().mac@)
    }
}

/// The reports of a list of anomalies.
pub open spec fn reports_of(s: Seq<ArpAnomalyView>) -> Seq<AnomalyReport> {
    s.map_values(|a: ArpAnomalyView| a.report)
}

/// The reports that checking `entries` in order against `known` produces.
pub open spec fn batch_reports(known: Map<Seq<char>, Seq<char>>, entries: Seq<ArpEntry>) -> Seq<AnomalyReport>
    decreases entries.len(),
{
    if entries.len() == 0 {
        Seq::empty()
    } else {
        batch_reports(known, entries.drop_last()) + match entry_report(known, entries.last().ip@, entries.last().mac@, entries.last().interface@) {
            Some(r) => seq![r],
            None => Seq::empty(),
        }
    }
}

} // verus!
