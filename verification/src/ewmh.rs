use vstd::prelude::*;

verus! {

/// Root-window hints that the manager publishes under fixed names.
pub enum EwmhHint {
    NetNumberOfDesktops,
    NetCurrentDesktop,
    NetSupported,
    NetSupportingWmCheck,
}

impl EwmhHint {
    /// The atom name of the hint, as the protocol spells it.
    pub open spec fn name(self) -> Seq<char> {
        match self {
            EwmhHint::NetNumberOfDesktops => "_NET_NUMBER_OF_DESKTOPS"@,
            EwmhHint::NetCurrentDesktop => "_NET_CURRENT_DESKTOP"@,
            EwmhHint::NetSupported => "_NET_SUPPORTED"@,
            EwmhHint::NetSupportingWmCheck => "_NET_SUPPORTING_WM_CHECK"@,
        }
    }

    pub fn as_str(&self) -> (name: &'static str)
        ensures
            name@ == self.name(),
    {
        match self {
            EwmhHint::NetNumberOfDesktops => "_NET_NUMBER_OF_DESKTOPS",
            EwmhHint::NetCurrentDesktop => "_NET_CURRENT_DESKTOP",
            EwmhHint::NetSupported => "_NET_SUPPORTED",
            EwmhHint::NetSupportingWmCheck => "_NET_SUPPORTING_WM_CHECK",
        }
    }
}

} // verus!
