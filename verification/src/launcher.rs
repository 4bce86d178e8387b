//! Configuration of the vendor Trusty VM launcher.

use std::path::PathBuf;
use vstd::prelude::*;

verus! {

/// A filesystem path, carried through unchanged.
#[verifier::external_type_specification]
#[verifier::external_body]
pub struct ExPathBuf(PathBuf);

/// Size in bytes of a VM instance ID.
pub const INSTANCE_ID_SIZE: usize = 64;

/// Collection of CLI for vendor_trusty_vm_launcher
pub struct Args {
    /// Path to the trusty kernel image.
    pub kernel: PathBuf,
    /// Whether the VM is protected or not.
    pub protected: bool,
    /// Name of the VM.
    pub name: String,
    /// Memory size of the VM in MiB
    pub memory_size_mib: i32,
    /// Paths to JSON files defining the RPC services to register.
    pub rpc_services_config: Vec<PathBuf>,
    /// If enabled, allow this VM to access FF-A. The launching process must have
    /// CAP_IPC_OWNER and be configured by selinux to use guest_ffa_tee_service. This is
    /// only settable on a protected vm (enforced by virtmgr).
    pub allow_ffa: bool,
    /// Path to a file containing the VM instance ID.
    pub vm_instance_id: Option<PathBuf>,
}

/// A single RPC service configuration of a services file.
pub struct RpcServiceConfig {
    pub port: i32,
    pub accessor_name: String,
    pub internal_rpc_service_name: String,
}

/// Whether the VM is launched protected: as asked, where the hypervisor supports
/// protected VMs, and never elsewhere.
pub fn resolve_protected_vm(requested: bool, supported: bool) -> (r: bool)
    ensures
        r == (requested && supported),
{
    if supported {
        requested
    } else {
        false
    }
}

/// The instance ID a VM gets when no instance ID file is given: four `0xFF` bytes, then
/// zeros.
pub fn default_instance_id() -> (r: [u8; INSTANCE_ID_SIZE])
    ensures
        forall|i: int| 0 <= i < 4 ==> #[trigger] r@[i] == 0xFFu8,
        forall|i: int| 4 <= i < 64 ==> #[trigger] r@[i] == 0u8,
{
    let mut instance_id: [u8; INSTANCE_ID_SIZE] = [0; INSTANCE_ID_SIZE];
    let mut i: usize = 0;
    while i < 4
        invariant
            i <= 4,
            forall|j: int| 0 <= j < i ==> #[trigger] instance_id@[j] == 0xFFu8,
            forall|j: int| 4 <= j < 64 ==> #[trigger] instance_id@[j] == 0u8,
        decreases 4 - i,
    {
        instance_id[i] = 0xFF;
        i = i + 1;
    }
    instance_id
}

} // verus!
