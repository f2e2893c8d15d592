//! Application configuration: general settings and per-module configuration.
use vstd::prelude::*;
use crate::engine::mod_trait::ModuleConfig;
use crate::engine::string_map::StringMap;
use crate::text::owned;

verus! {

/// General application settings.
#[derive(Debug, Clone, Copy, PartialEq, Eq, Structural)]
pub struct GeneralConfig {
    pub auto_start: bool,
    pub minimize_to_tray: bool,
    pub check_updates: bool,
}

/// The application configuration: general settings and each module's configuration,
/// by module id.
pub struct AppConfig {
    pub general: GeneralConfig,
    pub modules: StringMap<ModuleConfig>,
}

impl Default for AppConfig {
    /// Starts automatically, stays out of the tray, checks for updates; the "vpn",
    /// "killswitch" and "arp_detector" modules have the default module configuration.
    fn default() -> (c: Self)
        ensures
            c.general == (GeneralConfig { auto_start: true, minimize_to_tray: false, check_updates: true }),
            c.modules.wf(),
            c.modules@.dom() == set!["vpn"@, "killswitch"@, "arp_detector"@],
            forall|k: Seq<char>| #[trigger] c.modules@.contains_key(k) ==> c.modules@[k].enabled && c.modules@[k].auto_start,
    {
        let mut modules: StringMap<ModuleConfig> = StringMap::new();
        modules.insert(owned("vpn"), ModuleConfig::default());
        modules.insert(owned("killswitch"), ModuleConfig::default());
        modules.insert(owned("arp_detector"), ModuleConfig::default());
        assert(modules@.dom() =~= set!["vpn"@, "killswitch"@, "arp_detector"@]);
        AppConfig {
            general: GeneralConfig { auto_start: true, minimize_to_tray: false, check_updates: true },
            modules,
        }
    }
}

} // verus!
