//! The WireGuard interface a VPN connection runs over.
use vstd::prelude::*;
use crate::text::owned;

verus! {

/// Names the WireGuard interface that the platform brings up and tears down.
pub struct WireGuardManager {
    interface: String,
}

impl WireGuardManager {
    /// The interface name the manager was made with.
    pub closed spec fn interface_view(&self) -> Seq<char> {
        self.interface@
    }

    pub fn new(interface: &str) -> (m: Self)
        ensures
            m.interface_view() == interface@,
    {
        WireGuardManager { interface: owned(interface) }
    }

    /// The name of the WireGuard interface.
    pub fn interface_name(&self) -> (r: &str)
        ensures
            r@ == self.interface_view(),
    {
        self.interface.as_str()
    }
}

} // verus!
