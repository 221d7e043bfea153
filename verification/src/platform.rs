//! Values that differ between the three desktop platforms.
use vstd::prelude::*;

verus! {

/// The desktop platform a window is built for.
#[derive(Clone, Copy, Debug, PartialEq, Eq, Structural)]
pub enum Platform {
    MacOs,
    Linux,
    Windows,
}

/// One value for each desktop platform.
#[derive(Clone, Debug)]
pub struct PlatformSpecific<T> {
    pub macos: T,
    pub linux: T,
    pub windows: T,
}

impl<T> PlatformSpecific<T> {
    /// The value that applies on `platform`.
    pub open spec fn value_for(&self, platform: Platform) -> T {
        match platform {
            Platform::MacOs => self.macos,
            Platform::Linux => self.linux,
            Platform::Windows => self.windows,
        }
    }

    /// The value for `platform`.
    pub fn get(&self, platform: Platform) -> (r: &T)
        ensures
            *r == self.value_for(platform),
    {
        match platform {
            Platform::MacOs => &self.macos,
            Platform::Linux => &self.linux,
            Platform::Windows => &self.windows,
        }
    }
}

impl<T: Copy> PlatformSpecific<T> {
    /// A copy of the value for `platform`.
    pub fn copied(&self, platform: Platform) -> (r: T)
        ensures
            r == self.value_for(platform),
    {
        *self.get(platform)
    }
}

} // verus!
