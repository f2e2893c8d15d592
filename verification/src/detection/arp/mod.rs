//! ARP spoof detection module.
pub mod monitor;

use vstd::prelude::*;
use crate::engine::mod_trait::{ModuleEvent, ModuleStatus};
use crate::detection::arp::monitor::{
    anomalies_view, batch_reports, entry_report, gateway_map, push_all_bounded, push_bounded, reports_of, ArpAnomaly, ArpAnomalyView,
    ArpConfig, ArpEntry, ArpMonitor, ArpMonitorView,
};
use crate::network::firewall::rules::opt_view;
use crate::text::owned;

verus! {

/// The event that reports an ARP spoof: the MAC now claiming the IP, and the IP.
pub fn spoof_event(attacker_mac: &str, victim_ip: &str) -> (e: ModuleEvent)
    ensures
        e matches ModuleEvent::ArpSpoofDetected { attacker_mac: m, victim_ip: v } && m@ == attacker_mac@ && v@ == victim_ip@,
{
    ModuleEvent::ArpSpoofDetected { attacker_mac: owned(attacker_mac), victim_ip: owned(victim_ip) }
}

/// ARP spoof detector: its status, its configuration and the monitor that holds the
/// known gateway mappings and detected anomalies.
pub struct ArpDetectorModule {
    status: ModuleStatus,
    config: ArpConfig,
    monitor: ArpMonitor,
}

impl ArpDetectorModule {
    /// Well-formedness of the monitor inside.
    pub closed spec fn wf(&self) -> bool {
        self.monitor.wf()
    }

    /// The monitor's state.
    pub closed spec fn monitor_view(&self) -> ArpMonitorView {
        self.monitor@
    }

    /// The current status.
    pub closed spec fn status_view(&self) -> ModuleStatus {
        self.status
    }

    /// The configuration.
    pub closed spec fn config_view(&self) -> ArpConfig {
        self.config
    }

    /// A detector with the default configuration, created.
    pub fn new() -> (d: Self)
        ensures
            d.wf(),
            d.status_view() == ModuleStatus::Created,
            d.monitor_view().known == Map::<Seq<char>, Seq<char>>::empty(),
            d.monitor_view().anomalies == Seq::<ArpAnomalyView>::empty(),
            d.monitor_view().max_anomalies == 1000,
            d.config_view().enabled,
            d.config_view().scan_interval_secs == 5,
            d.config_view().known_gateways@.len() == 0,
            d.config_view().max_anomalies == 1000,
            !d.config_view().log_all_changes,
    {
        let d = Self::with_config(ArpConfig::default());
        assert(gateway_map(d.config.known_gateways@) =~= Map::<Seq<char>, Seq<char>>::empty());
        d
    }

    /// A detector watching the gateways of `config`, created.
    pub fn with_config(config: ArpConfig) -> (d: Self)
        ensures
            d.wf(),
            d.status_view() == ModuleStatus::Created,
            d.config_view() == config,
            d.monitor_view().known == gateway_map(config.known_gateways@),
            d.monitor_view().anomalies == Seq::<ArpAnomalyView>::empty(),
            d.monitor_view().max_anomalies == config.max_anomalies,
    {
        let monitor = ArpMonitor::from_config(&config);
        ArpDetectorModule { status: ModuleStatus::Created, config, monitor }
    }

    /// The configuration the detector was made with.
    pub fn config(&self) -> (c: &ArpConfig)
        ensures
            *c == self.config_view(),
    {
        &self.config
    }

    pub fn id(&self) -> (r: &'static str)
        ensures
            r@ == "arp_detector"@,
    {
        "arp_detector"
    }

    pub fn name(&self) -> (r: &'static str)
        ensures
            r@ == "ARP Spoof Detector"@,
    {
        "ARP Spoof Detector"
    }

    pub fn priority(&self) -> (r: u32)
        ensures
            r == 3,
    {
        3
    }

    /// The detector depends on no other module.
    pub fn dependencies(&self) -> (r: Vec<String>)
        ensures
            r@.len() == 0,
    {
        Vec::new()
    }

    pub fn status(&self) -> (s: ModuleStatus)
        ensures
            s == self.status_view(),
    {
        self.status.clone()
    }

    /// Marks the detector initialized.
    pub fn initialize(&mut self)
        ensures
            final(self).status_view() == ModuleStatus::Initialized,
            final(self).monitor_view() == old(self).monitor_view(),
            final(self).config_view() == old(self).config_view(),
            final(self).wf() == old(self).wf(),
    {
        self.status = ModuleStatus::Initialized;
    }

    /// Marks the detector running.
    pub fn start(&mut self)
        ensures
            final(self).status_view() == ModuleStatus::Running,
            final(self).monitor_view() == old(self).monitor_view(),
            final(self).config_view() == old(self).config_view(),
            final(self).wf() == old(self).wf(),
    {
        self.status = ModuleStatus::Running;
    }

    /// Marks the detector stopped.
    pub fn stop(&mut self)
        ensures
            final(self).status_view() == ModuleStatus::Stopped,
            final(self).monitor_view() == old(self).monitor_view(),
            final(self).config_view() == old(self).config_view(),
            final(self).wf() == old(self).wf(),
    {
        self.status = ModuleStatus::Stopped;
    }

    /// Records the expected MAC of an IP.
    pub fn add_known_mapping(&mut self, ip: &str, mac: &str)
        requires
            old(self).wf(),
        ensures
            final(self).wf(),
            final(self).monitor_view() == (ArpMonitorView { known: old(self).monitor_view().known.insert(ip@, mac@), ..old(self).monitor_view() }),
            final(self).status_view() == old(self).status_view(),
            final(self).config_view() == old(self).config_view(),
    {
        self.monitor.add_known_mapping(ip, mac);
    }

    /// Forgets the expected MAC of an IP, returning it.
    pub fn remove_known_mapping(&mut self, ip: &str) -> (r: Option<String>)
        requires
            old(self).wf(),
        ensures
            final(self).wf(),
            final(self).monitor_view() == (ArpMonitorView { known: old(self).monitor_view().known.remove(ip@), ..old(self).monitor_view() }),
            final(self).status_view() == old(self).status_view(),
            final(self).config_view() == old(self).config_view(),
            opt_view(r) == (if old(self).monitor_view().known.contains_key(ip@) { Some(old(self).monitor_view().known[ip@]) } else { None }),
    {
        self.monitor.remove_known_mapping(ip)
    }

    /// Whether an expected MAC is recorded for the IP.
    pub fn has_known_mapping(&self, ip: &str) -> (r: bool)
        requires
            self.wf(),
        ensures
            r == self.monitor_view().known.contains_key(ip@),
    {
        self.monitor.has_known_mapping(ip)
    }

    /// Number of known mappings.
    pub fn known_mapping_count(&self) -> (n: usize)
        requires
            self.wf(),
        ensures
            n == self.monitor_view().known.dom().len(),
    {
        self.monitor.known_mapping_count()
    }

    /// Checks an ARP entry against the known mappings (see [`ArpMonitor::check_entry`]);
    /// the caller reports a returned anomaly with [`anomaly_event`].
    pub fn check_arp_entry(&mut self, entry: &ArpEntry) -> (r: Option<ArpAnomaly>)
        requires
            old(self).wf(),
        ensures
            final(self).wf(),
            final(self).status_view() == old(self).status_view(),
            final(self).config_view() == old(self).config_view(),
            final(self).monitor_view().known == old(self).monitor_view().known,
            final(self).monitor_view().max_anomalies == old(self).monitor_view().max_anomalies,
            match entry_report(old(self).monitor_view().known, entry.ip@, entry.mac@, entry.interface@) {
                Some(rep) => r matches Some(a) && a@.report == rep
                    && final(self).monitor_view().anomalies == push_bounded(old(self).monitor_view().anomalies, a@, old(self).monitor_view().max_anomalies),
                None => r is None && final(self).monitor_view().anomalies == old(self).monitor_view().anomalies,
            },
    {
        self.monitor.check_entry(entry)
    }

    /// Checks a batch of entries in order (see [`ArpMonitor::check_entries`]).
    pub fn check_entries(&mut self, entries: &[ArpEntry]) -> (r: Vec<ArpAnomaly>)
        requires
            old(self).wf(),
        ensures
            final(self).wf(),
            final(self).status_view() == old(self).status_view(),
            final(self).config_view() == old(self).config_view(),
            final(self).monitor_view().known == old(self).monitor_view().known,
            reports_of(anomalies_view(r@)) == batch_reports(old(self).monitor_view().known, entries@),
            final(self).monitor_view().max_anomalies == old(self).monitor_view().max_anomalies,
            final(self).monitor_view().anomalies == push_all_bounded(
                old(self).monitor_view().anomalies,
                anomalies_view(r@),
                old(self).monitor_view().max_anomalies,
            ),
    {
        self.monitor.check_entries(entries)
    }

    /// Number of recorded anomalies.
    pub fn anomaly_count(&self) -> (n: usize)
        ensures
            n == self.monitor_view().anomalies.len(),
    {
        self.monitor.anomaly_count()
    }

    /// The recorded anomalies, oldest first.
    pub fn anomalies(&self) -> (r: &[ArpAnomaly])
        ensures
            anomalies_view(r@) == self.monitor_view().anomalies,
    {
        self.monitor.anomalies()
    }

    /// Forgets the anomalies, keeping the mappings.
    pub fn clear_anomalies(&mut self)
        requires
            old(self).wf(),
        ensures
            final(self).wf(),
            final(self).monitor_view() == (ArpMonitorView { anomalies: Seq::empty(), ..old(self).monitor_view() }),
            final(self).status_view() == old(self).status_view(),
            final(self).config_view() == old(self).config_view(),
    {
        self.monitor.clear_anomalies()
    }
}

/// The event that reports an anomaly: the new MAC as the attacker of the anomaly's IP.
pub fn anomaly_event(a: &ArpAnomaly) -> (e: ModuleEvent)
    ensures
        e matches ModuleEvent::ArpSpoofDetected { attacker_mac: m, victim_ip: v } && m@ == a.new_mac@ && v@ == a.ip@,
{
    spoof_event(a.new_mac.as_str(), a.ip.as_str())
}

} // verus!
