//! VPN module: connects to and disconnects from a WireGuard server. Bringing the
//! interface up and down is the platform's work, driven by the caller, who asks here
//! what to do and reports each success back.
pub mod config;
pub mod wireguard;

use vstd::prelude::*;
use crate::engine::mod_trait::{ModuleEvent, ModuleStatus};
use crate::network::firewall::rules::opt_view;
use crate::network::vpn::config::VpnConfig;
use crate::network::vpn::wireguard::WireGuardManager;
use crate::platform::types::WireGuardConfig;
use crate::text::owned;

verus! {

/// The abstract state of a [`VpnModule`].
pub struct VpnView {
    pub status: ModuleStatus,
    pub connected: bool,
    /// The server connected to, while connected.
    pub current_server: Option<Seq<char>>,
    /// The WireGuard interface used.
    pub interface: Seq<char>,
    /// The port WireGuard listens on.
    pub listen_port: u16,
}

/// The state once connected to `server`.
pub open spec fn connected_view(v: VpnView, server: Seq<char>) -> VpnView {
    VpnView { connected: true, current_server: Some(server), ..v }
}

/// The state once disconnected.
pub open spec fn disconnected_view(v: VpnView) -> VpnView {
    VpnView { connected: false, current_server: None, ..v }
}

/// Connecting a disconnected module and then disconnecting it gives back the state it
/// started from; while connected it names the server connected to.
pub proof fn lemma_connect_then_disconnect(v: VpnView, server: Seq<char>)
    requires
        !v.connected,
        v.current_server is None,
    ensures
        disconnected_view(connected_view(v, server)) == v,
        connected_view(v, server).current_server == Some(server),
{
}

/// State of the VPN module.
pub struct VpnModule {
    status: ModuleStatus,
    connected: bool,
    current_server: Option<String>,
    wg_manager: WireGuardManager,
    vpn_config: VpnConfig,
}

impl View for VpnModule {
    type V = VpnView;

    closed spec fn view(&self) -> VpnView {
        VpnView {
            status: self.status,
            connected: self.connected,
            current_server: opt_view(self.current_server),
            interface: self.wg_manager.interface_view(),
            listen_port: self.vpn_config.listen_port,
        }
    }
}

impl VpnModule {
    /// The module's own invariant: it names a server exactly while connected, and it
    /// works through interface "wg0" on port 51820.
    pub open spec fn wf(&self) -> bool {
        &&& self@.connected == (self@.current_server is Some)
        &&& self@.interface == "wg0"@
        &&& self@.listen_port == 51820
    }

    /// A VPN module, created and disconnected, using interface "wg0" and the default
    /// configuration (port 51820).
    pub fn new() -> (m: Self)
        ensures
            m.wf(),
            m@.status == ModuleStatus::Created,
            !m@.connected,
            m@.current_server is None,
            m@.interface == "wg0"@,
            m@.listen_port == 51820,
    {
        VpnModule {
            status: ModuleStatus::Created,
            connected: false,
            current_server: None,
            wg_manager: WireGuardManager::new("wg0"),
            vpn_config: VpnConfig::default(),
        }
    }

    /// The WireGuard settings for connecting with `private_key`: the module's interface
    /// and port, no peers. Fails with "Module not running" unless the module is running.
    pub fn plan_connect(&self, private_key: &str) -> (r: Result<WireGuardConfig, String>)
        ensures
            (match r {
                Ok(c) => self@.status is Running && c.interface@ == self@.interface
                    && c.private_key@ == private_key@ && c.listen_port == self@.listen_port && c.peers@.len() == 0,
                Err(e) => !(self@.status is Running) && e@ == "Module not running"@,
            }),
    {
        match self.status {
            ModuleStatus::Running => Ok(WireGuardConfig {
                interface: owned(self.wg_manager.interface_name()),
                private_key: owned(private_key),
                listen_port: self.vpn_config.listen_port,
                peers: Vec::new(),
            }),
            _ => Err(owned("Module not running")),
        }
    }

    /// Records that the interface came up for `server`; returns the event that reports
    /// the connection (tunnel address "10.0.0.1").
    pub fn connected_to(&mut self, server: &str) -> (e: ModuleEvent)
        requires
            old(self).wf(),
        ensures
            final(self).wf(),
            final(self)@ == connected_view(old(self)@, server@),
            (e matches ModuleEvent::VpnConnected { server: s, ip } && s@ == server@ && ip@ == "10.0.0.1"@),
    {
        self.connected = true;
        self.current_server = Some(owned(server));
        ModuleEvent::VpnConnected { server: owned(server), ip: owned("10.0.0.1") }
    }

    /// Finishes a connection to `server` with the platform's answer to bringing the
    /// interface up: on success the module is connected to `server` and the event that
    /// reports it is returned; on failure nothing changes and the platform's error is
    /// handed back.
    pub fn finish_connect(&mut self, server: &str, outcome: Result<(), String>) -> (r: Result<ModuleEvent, String>)
        requires
            old(self).wf(),
        ensures
            final(self).wf(),
            (match outcome {
                Ok(()) => final(self)@ == connected_view(old(self)@, server@)
                    && (r matches Ok(ModuleEvent::VpnConnected { server: s, ip }) && s@ == server@ && ip@ == "10.0.0.1"@),
                Err(e) => r == Err::<ModuleEvent, String>(e) && final(self)@ == old(self)@,
            }),
    {
        match outcome {
            Ok(()) => Ok(self.connected_to(server)),
            Err(e) => Err(e),
        }
    }

    /// Finishes a disconnection with the platform's answer to tearing the interface
    /// down: on success the module is disconnected and the event that reports it is
    /// returned; on failure nothing changes and the platform's error is handed back.
    pub fn finish_disconnect(&mut self, outcome: Result<(), String>) -> (r: Result<ModuleEvent, String>)
        requires
            old(self).wf(),
        ensures
            final(self).wf(),
            (match outcome {
                Ok(()) => final(self)@ == disconnected_view(old(self)@)
                    && (r matches Ok(ModuleEvent::VpnDisconnected { reason }) && reason@ == "User disconnect"@),
                Err(e) => r == Err::<ModuleEvent, String>(e) && final(self)@ == old(self)@,
            }),
    {
        match outcome {
            Ok(()) => Ok(self.disconnected()),
            Err(e) => Err(e),
        }
    }

    /// The WireGuard interface manager the module connects through.
    pub fn wg_manager(&self) -> (w: &WireGuardManager)
        ensures
            w.interface_view() == self@.interface,
    {
        &self.wg_manager
    }

    /// The interface to tear down to disconnect, or `None` when not connected.
    pub fn plan_disconnect(&self) -> (r: Option<String>)
        ensures
            (match r {
                Some(i) => self@.connected && i@ == self@.interface,
                None => !self@.connected,
            }),
    {
        if self.connected {
            Some(owned(self.wg_manager.interface_name()))
        } else {
            None
        }
    }

    /// Records that the interface was torn down; returns the event that reports the
    /// disconnection (reason "User disconnect").
    pub fn disconnected(&mut self) -> (e: ModuleEvent)
        requires
            old(self).wf(),
        ensures
            final(self).wf(),
            final(self)@ == disconnected_view(old(self)@),
            (e matches ModuleEvent::VpnDisconnected { reason } && reason@ == "User disconnect"@),
    {
        self.connected = false;
        self.current_server = None;
        ModuleEvent::VpnDisconnected { reason: owned("User disconnect") }
    }

    /// Whether the module is connected.
    pub fn is_connected(&self) -> (r: bool)
        ensures
            r == self@.connected,
    {
        self.connected
    }

    /// The server connected to, if connected.
    pub fn current_server(&self) -> (r: Option<&str>)
        ensures
            (match r {
                Some(s) => self@.current_server == Some(s@),
                None => self@.current_server is None,
            }),
    {
        match &self.current_server {
            Some(s) => Some(s.as_str()),
            None => None,
        }
    }

    pub fn id(&self) -> (r: &'static str)
        ensures
            r@ == "vpn"@,
    {
        "vpn"
    }

    pub fn name(&self) -> (r: &'static str)
        ensures
            r@ == "VPN Module"@,
    {
        "VPN Module"
    }

    pub fn priority(&self) -> (r: u32)
        ensures
            r == 1,
    {
        1
    }

    /// The VPN module depends on no other module.
    pub fn dependencies(&self) -> (r: Vec<String>)
        ensures
            r@.len() == 0,
    {
        Vec::new()
    }

    pub fn status(&self) -> (s: ModuleStatus)
        ensures
            s == self@.status,
    {
        self.status.clone()
    }

    /// Marks the module initialized; nothing else changes.
    pub fn initialize(&mut self)
        requires
            old(self).wf(),
        ensures
            final(self).wf(),
            final(self)@ == (VpnView { status: ModuleStatus::Initialized, ..old(self)@ }),
    {
        self.status = ModuleStatus::Initialized;
    }

    /// Marks the module running; nothing else changes.
    pub fn start(&mut self)
        requires
            old(self).wf(),
        ensures
            final(self).wf(),
            final(self)@ == (VpnView { status: ModuleStatus::Running, ..old(self)@ }),
    {
        self.status = ModuleStatus::Running;
    }

    /// Marks the module stopped, once it is disconnected.
    pub fn stopped(&mut self)
        requires
            old(self).wf(),
            !old(self)@.connected,
        ensures
            final(self).wf(),
            final(self)@ == (VpnView { status: ModuleStatus::Stopped, ..old(self)@ }),
    {
        self.status = ModuleStatus::Stopped;
    }
}

} // verus!
