//! The volume that takes the relocated paths.

use vstd::prelude::*;
use vstd::string::*;

verus! {

/// The identity of the volume: its size, its name, and the directory under
/// which the system shows mounted volumes.
#[derive(Debug)]
pub struct RAM {
    pub size: isize,
    pub name: String,
    pub mount_path: String,
}

impl Default for RAM {
    /// A volume of 8388608 units named `RAMDiskbyRamup` under `/Volumes`.
    fn default() -> (r: Self)
        ensures
            r.size == 8_388_608,
            r.name@ == "RAMDiskbyRamup"@,
            r.mount_path@ == "/Volumes"@,
    {
        RAM {
            size: 8_388_608,
            name: String::from_str("RAMDiskbyRamup"),
            mount_path: String::from_str("/Volumes"),
        }
    }
}

impl RAM {
    /// A volume with the given identity.
    pub fn new(size: isize, name: String, mount_path: String) -> (r: RAM)
        ensures
            r.size == size,
            r.name@ == name@,
            r.mount_path@ == mount_path@,
    {
        RAM { size, name, mount_path }
    }
}

} // verus!
