//! Identity of the device towards the Memfault service.
use vstd::prelude::*;

verus! {

/// The identity of the device and of its software.
#[derive(Clone, Debug)]
pub struct NetworkConfig {
    pub project_key: String,
    pub device_id: String,
    pub hardware_version: String,
    pub software_version: String,
    pub software_type: String,
}

} // verus!
