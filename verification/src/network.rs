//! Network profiles: every public network is made private.

use vstd::prelude::*;

verus! {

pub const OPERATION: &'static str = "ネットワーク設定の変更に失敗しました";
pub const NLM_NETWORK_CATEGORY_PUBLIC: i32 = 0;
pub const NLM_NETWORK_CATEGORY_PRIVATE: i32 = 1;
/// The success code that ends an enumeration.
pub const S_FALSE: i32 = 1;

/// Whether a network of this category is changed to private.
pub fn should_make_private(category: i32) -> (r: bool)
    ensures
        r == (category == NLM_NETWORK_CATEGORY_PUBLIC),
{
    category == NLM_NETWORK_CATEGORY_PUBLIC
}

/// What to do after asking the enumeration for the next network.
#[derive(Clone, Copy, Debug, PartialEq, Eq)]
pub enum NetworkEnumStep {
    /// There are no more networks.
    Finished,
    /// A network was fetched: handle it and ask again.
    Visit,
    /// The enumeration failed: report it and stop.
    Fail,
}

/// The step after a call of `IEnumNetworks::Next` that succeeded (`ok`) with `fetched`
/// networks, or failed with HRESULT `hr`.
pub fn network_enum_step(ok: bool, fetched: u32, hr: i32) -> (step: NetworkEnumStep)
    ensures
        step == (if ok {
            if fetched == 0 { NetworkEnumStep::Finished } else { NetworkEnumStep::Visit }
        } else if hr == S_FALSE {
            NetworkEnumStep::Finished
        } else {
            NetworkEnumStep::Fail
        }),
{
    if ok {
        if fetched == 0 {
            NetworkEnumStep::Finished
        } else {
            NetworkEnumStep::Visit
        }
    } else if hr == S_FALSE {
        NetworkEnumStep::Finished
    } else {
        NetworkEnumStep::Fail
    }
}

} // verus!
