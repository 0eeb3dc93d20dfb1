//! Phala Cloud virtual machine status.
use vstd::prelude::*;

verus! {

/// The status of one virtual machine.
pub struct VmStatus {
    pub vm_uuid: String,
    pub status: String,
    pub uptime: String,
    pub in_progress: bool,
    pub boot_progress: Option<String>,
    pub boot_error: Option<String>,
    pub operation_type: Option<String>,
    pub operation_started_at: Option<String>,
    pub correlation_id: Option<String>,
}

} // verus!
