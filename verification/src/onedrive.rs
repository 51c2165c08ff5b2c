//! OneDrive: the policy that turns off file sync, then OneDrive itself ended.

use vstd::prelude::*;
use vstd::string::*;
use crate::registry::{dword_write, hklm_dword, RegistryRoot, RegistryTask, RegistryTaskView, RegistryWrite};

verus! {

/// Set the policy (a failure ends the operation), then end the process tree of
/// `end_process`, whose failure is ignored.
pub struct SyncShutdown {
    pub policy: RegistryTask,
    pub end_process: String,
}

/// The name of the policy value that turns off OneDrive file sync.
pub const ONEDRIVE_POLICY_NAME: &'static str = "DisableFileSyncNGSC";

/// OneDrive sync turned off by policy, and OneDrive ended.
pub fn disable_onedrive_sync() -> (plan: SyncShutdown)
    ensures
        plan.policy@ == (RegistryTaskView {
            operation: "OneDrive同期の無効化に失敗しました"@,
            writes: seq![dword_write(
                RegistryRoot::LocalMachine,
                "SOFTWARE\\Policies\\Microsoft\\Windows\\OneDrive"@,
                "DisableFileSyncNGSC"@,
                1,
            )],
        }),
        plan.end_process@ == "OneDrive.exe"@,
{
    let mut writes: Vec<RegistryWrite> = Vec::new();
    writes.push(hklm_dword("SOFTWARE\\Policies\\Microsoft\\Windows\\OneDrive", ONEDRIVE_POLICY_NAME, 1));
    let policy = RegistryTask { operation: String::from_str("OneDrive同期の無効化に失敗しました"), writes };
    proof {
        reveal_strlit("DisableFileSyncNGSC");
    }
    assert(policy@.writes =~= seq![dword_write(
        RegistryRoot::LocalMachine,
        "SOFTWARE\\Policies\\Microsoft\\Windows\\OneDrive"@,
        "DisableFileSyncNGSC"@,
        1,
    )]);
    SyncShutdown { policy, end_process: String::from_str("OneDrive.exe") }
}

} // verus!
