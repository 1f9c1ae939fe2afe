//! The configuration: the volume and the applications.

use vstd::prelude::*;
use vstd::string::*;
use crate::application::Application;
use crate::ram::RAM;

verus! {

/// What the configuration file holds.
#[derive(Debug)]
pub struct Config {
    pub ram: RAM,
    pub applications: Vec<Application>,
}

impl Config {
    /// The configuration that is written where none exists: a volume of
    /// 8388608 units named `RAMDiskByRamup` under `/Volumes`, and no
    /// application.
    pub fn new() -> (c: Config)
        ensures
            c.ram.size == 8_388_608,
            c.ram.name@ == "RAMDiskByRamup"@,
            c.ram.mount_path@ == "/Volumes"@,
            c.applications@.len() == 0,
    {
        Config {
            ram: RAM::new(
                8_388_608,
                String::from_str("RAMDiskByRamup"),
                String::from_str("/Volumes"),
            ),
            applications: Vec::new(),
        }
    }
}

} // verus!
