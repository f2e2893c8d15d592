//! Security alerts: their severity, category, content and configuration.
use vstd::prelude::*;
use crate::engine::clock::{now, UtcTimestamp};
use crate::network::firewall::rules::clone_opt;
use crate::text::{concat2, owned};

verus! {

/// How serious an alert is, from `Info` (least) to `Critical` (most).
#[derive(Debug, Clone, Copy, PartialEq, Eq, Structural, PartialOrd, Ord, Hash)]
pub enum AlertSeverity {
    Info,
    Medium,
    High,
    Critical,
}

impl AlertSeverity {
    /// The label of a severity, in capitals.
    pub open spec fn label(self) -> Seq<char> {
        match self {
            AlertSeverity::Info => "INFO"@,
            AlertSeverity::Medium => "MEDIUM"@,
            AlertSeverity::High => "HIGH"@,
            AlertSeverity::Critical => "CRITICAL"@,
        }
    }

    /// The position of a severity in the order `Info < Medium < High < Critical`.
    pub open spec fn level(self) -> nat {
        match self {
            AlertSeverity::Info => 0,
            AlertSeverity::Medium => 1,
            AlertSeverity::High => 2,
            AlertSeverity::Critical => 3,
        }
    }

    /// The label of the severity: "INFO", "MEDIUM", "HIGH" or "CRITICAL".
    pub fn to_string(&self) -> (s: String)
        ensures
            s@ == self.label(),
    {
        match self {
            AlertSeverity::Info => owned("INFO"),
            AlertSeverity::Medium => owned("MEDIUM"),
            AlertSeverity::High => owned("HIGH"),
            AlertSeverity::Critical => owned("CRITICAL"),
        }
    }

    /// The position of the severity in the order `Info < Medium < High < Critical`
    /// (0 to 3), the order the derived comparison follows.
    pub fn rank(&self) -> (r: u8)
        ensures
            r == self.level(),
    {
        match self {
            AlertSeverity::Info => 0,
            AlertSeverity::Medium => 1,
            AlertSeverity::High => 2,
            AlertSeverity::Critical => 3,
        }
    }
}

/// What part of the system an alert concerns.
#[derive(Debug, Clone, Copy, PartialEq, Eq, Structural, Hash)]
pub enum AlertCategory {
    General,
    Network,
    Vpn,
    Dns,
    Firewall,
    System,
}

/// A security alert.
#[derive(Debug)]
pub struct Alert {
    /// Unique identifier (a hyphenated UUID).
    pub id: String,
    pub severity: AlertSeverity,
    pub category: AlertCategory,
    pub title: String,
    pub message: String,
    /// When the alert was raised.
    pub timestamp: UtcTimestamp,
    /// Whether a user has acknowledged the alert.
    pub acknowledged: bool,
}

/// The abstract content of an [`Alert`].
pub struct AlertView {
    pub id: Seq<char>,
    pub severity: AlertSeverity,
    pub category: AlertCategory,
    pub title: Seq<char>,
    pub message: Seq<char>,
    pub timestamp: UtcTimestamp,
    pub acknowledged: bool,
}

impl View for Alert {
    type V = AlertView;

    open spec fn view(&self) -> AlertView {
        AlertView {
            id: self.id@,
            severity: self.severity,
            category: self.category,
            title: self.title@,
            message: self.message@,
            timestamp: self.timestamp,
            acknowledged: self.acknowledged,
        }
    }
}

impl Clone for Alert {
    fn clone(&self) -> (r: Self)
        ensures
            r == *self,
    {
        Alert {
            id: self.id.clone(),
            severity: self.severity,
            category: self.category,
            title: self.title.clone(),
            message: self.message.clone(),
            timestamp: self.timestamp,
            acknowledged: self.acknowledged,
        }
    }
}

/// A fresh random identifier: a version-4 UUID, written with `uuid::Uuid::new_v4()` and
/// `to_string()`.
/// Trusted: uuid's `Display` writes the hyphenated form, whose length is 36 characters
/// (`Hyphenated::LENGTH`); nothing else is stated, as the value is random.
#[verifier::external_body]
fn new_alert_id() -> (id: String)
    ensures
        id@.len() == 36,
{
    uuid::Uuid::new_v4().to_string()
}

/// The text of an alert: "[<SEVERITY>] <title>: <message>".
pub open spec fn alert_text(a: AlertView) -> Seq<char> {
    "["@ + a.severity.label() + "] "@ + a.title + ": "@ + a.message
}

impl Alert {
    /// A new alert in the `General` category, not acknowledged, with a fresh random id
    /// and the current time.
    pub fn new(severity: AlertSeverity, title: String, message: String) -> (a: Alert)
        ensures
            a.id@.len() == 36,
            a.severity == severity,
            a.category == AlertCategory::General,
            a.title@ == title@,
            a.message@ == message@,
            !a.acknowledged,
    {
        Self::with_category(severity, AlertCategory::General, title, message)
    }

    /// A new alert in the given category, not acknowledged, with a fresh random id and
    /// the current time.
    pub fn with_category(severity: AlertSeverity, category: AlertCategory, title: String, message: String) -> (a: Alert)
        ensures
            a.id@.len() == 36,
            a.severity == severity,
            a.category == category,
            a.title@ == title@,
            a.message@ == message@,
            !a.acknowledged,
    {
        Alert { id: new_alert_id(), severity, category, title, message, timestamp: now(), acknowledged: false }
    }

    /// The alert as one line of text: "[<SEVERITY>] <title>: <message>".
    pub fn to_string(&self) -> (s: String)
        ensures
            s@ == alert_text(self@),
    {
        let head = concat2("[", self.severity.to_string().as_str());
        let head = concat2(head.as_str(), "] ");
        let head = concat2(head.as_str(), self.title.as_str());
        let head = concat2(head.as_str(), ": ");
        concat2(head.as_str(), self.message.as_str())
    }
}

/// Configuration of alert handling.
#[derive(Debug)]
pub struct AlertConfig {
    /// Whether alerting is enabled.
    pub enabled: bool,
    /// The most alerts kept in memory; the oldest make way for new ones.
    pub max_alerts: usize,
    /// The least severity worth reporting.
    pub min_severity: AlertSeverity,
    /// Whether alerts are written to a log file.
    pub log_to_file: bool,
    /// The log file; `None` means the default location.
    pub log_file_path: Option<String>,
    /// How long alerts are kept, in seconds.
    pub max_age_secs: u64,
}

impl Clone for AlertConfig {
    fn clone(&self) -> (r: Self)
        ensures
            r == *self,
    {
        AlertConfig {
            enabled: self.enabled,
            max_alerts: self.max_alerts,
            min_severity: self.min_severity,
            log_to_file: self.log_to_file,
            log_file_path: clone_opt(&self.log_file_path),
            max_age_secs: self.max_age_secs,
        }
    }
}

impl Default for AlertConfig {
    /// Enabled, at most 1000 alerts, every severity, logged to the default file, kept
    /// for a day.
    fn default() -> (c: Self)
        ensures
            c.enabled,
            c.max_alerts == 1000,
            c.min_severity == AlertSeverity::Info,
            c.log_to_file,
            c.log_file_path is None,
            c.max_age_secs == 86400,
    {
        AlertConfig {
            enabled: true,
            max_alerts: 1000,
            min_severity: AlertSeverity::Info,
            log_to_file: true,
            log_file_path: None,
            max_age_secs: 86400,
        }
    }
}

} // verus!
