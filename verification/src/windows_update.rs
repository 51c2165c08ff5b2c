//! Windows Update policies: no peer-to-peer delivery, deferred feature and quality updates.

use vstd::prelude::*;
use vstd::string::*;
use crate::registry::{dword_write, hklm_dword, RegistryRoot, RegistryTask, RegistryTaskView, RegistryWrite};

verus! {

/// The key of the delivery optimization policy.
pub open spec fn delivery_policy_key() -> Seq<char> {
    "SOFTWARE\\Policies\\Microsoft\\Windows\\DeliveryOptimization"@
}

/// The key of the Windows Update policies.
pub open spec fn update_policy_key() -> Seq<char> {
    "SOFTWARE\\Policies\\Microsoft\\Windows\\WindowsUpdate"@
}

/// Delivery optimization set to HTTP only (`DODownloadMode` 0).
pub fn disable_delivery_optimization() -> (task: RegistryTask)
    ensures
        task@ == (RegistryTaskView {
            operation: "Windows Updateのファイル配信無効化に失敗しました"@,
            writes: seq![dword_write(RegistryRoot::LocalMachine, delivery_policy_key(), "DODownloadMode"@, 0)],
        }),
{
    let mut writes: Vec<RegistryWrite> = Vec::new();
    writes.push(hklm_dword("SOFTWARE\\Policies\\Microsoft\\Windows\\DeliveryOptimization", "DODownloadMode", 0));
    let task = RegistryTask { operation: String::from_str("Windows Updateのファイル配信無効化に失敗しました"), writes };
    assert(task@.writes =~= seq![dword_write(RegistryRoot::LocalMachine, delivery_policy_key(), "DODownloadMode"@, 0)]);
    task
}

/// Feature updates deferred by 365 days and quality updates by 30 days.
pub fn defer_windows_update() -> (task: RegistryTask)
    ensures
        task@ == (RegistryTaskView {
            operation: "Windows Updateの延期に失敗しました"@,
            writes: seq![
                dword_write(RegistryRoot::LocalMachine, update_policy_key(), "DeferFeatureUpdates"@, 1),
                dword_write(RegistryRoot::LocalMachine, update_policy_key(), "DeferFeatureUpdatesPeriodInDays"@, 365),
                dword_write(RegistryRoot::LocalMachine, update_policy_key(), "DeferQualityUpdates"@, 1),
                dword_write(RegistryRoot::LocalMachine, update_policy_key(), "DeferQualityUpdatesPeriodInDays"@, 30),
            ],
        }),
{
    let key = "SOFTWARE\\Policies\\Microsoft\\Windows\\WindowsUpdate";
    let mut writes: Vec<RegistryWrite> = Vec::new();
    writes.push(hklm_dword(key, "DeferFeatureUpdates", 1));
    writes.push(hklm_dword(key, "DeferFeatureUpdatesPeriodInDays", 365));
    writes.push(hklm_dword(key, "DeferQualityUpdates", 1));
    writes.push(hklm_dword(key, "DeferQualityUpdatesPeriodInDays", 30));
    let task = RegistryTask { operation: String::from_str("Windows Updateの延期に失敗しました"), writes };
    assert(task@.writes =~= seq![
        dword_write(RegistryRoot::LocalMachine, update_policy_key(), "DeferFeatureUpdates"@, 1),
        dword_write(RegistryRoot::LocalMachine, update_policy_key(), "DeferFeatureUpdatesPeriodInDays"@, 365),
        dword_write(RegistryRoot::LocalMachine, update_policy_key(), "DeferQualityUpdates"@, 1),
        dword_write(RegistryRoot::LocalMachine, update_policy_key(), "DeferQualityUpdatesPeriodInDays"@, 30),
    ]);
    task
}

} // verus!
