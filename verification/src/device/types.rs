use vstd::prelude::*;

verus! {

/// Noise-cancellation state as the user sees it.
#[derive(Debug, Clone, Copy, PartialEq, Eq, Structural)]
pub struct NcStatus {
    pub level: u8,
    pub max_level: u8,
    pub enabled: bool,
}

/// What a device model can do.
#[derive(Debug, Clone, Copy, PartialEq, Eq, Structural)]
pub enum Capability {
    NcGet,
    NcSet,
    NcOff,
}

/// The name of a capability in reports.
pub open spec fn capability_name(c: Capability) -> Seq<char> {
    match c {
        Capability::NcGet => "nc_get"@,
        Capability::NcSet => "nc_set"@,
        Capability::NcOff => "nc_off"@,
    }
}

impl Capability {
    pub fn as_str(self) -> (s: &'static str)
        ensures
            s@ == capability_name(self),
    {
        match self {
            Capability::NcGet => "nc_get",
            Capability::NcSet => "nc_set",
            Capability::NcOff => "nc_off",
        }
    }
}

} // verus!
