//! Sticky keys: turned off together with the shortcut that turns them on.

use vstd::prelude::*;

verus! {

/// The text prefix when sticky keys cannot be turned off.
pub const OPERATION: &'static str = "固定キー設定の無効化に失敗しました";

pub const SKF_STICKYKEYSON: u32 = 0x1;
pub const SKF_HOTKEYACTIVE: u32 = 0x4;
pub const SKF_CONFIRMHOTKEY: u32 = 0x8;

/// The sticky keys flags with sticky keys, their shortcut and its confirmation cleared.
pub fn sticky_keys_disabled(flags: u32) -> (r: u32)
    ensures
        r == flags & !(SKF_STICKYKEYSON | SKF_HOTKEYACTIVE | SKF_CONFIRMHOTKEY),
        r & SKF_STICKYKEYSON == 0,
        r & SKF_HOTKEYACTIVE == 0,
        r & SKF_CONFIRMHOTKEY == 0,
        r | (flags & (SKF_STICKYKEYSON | SKF_HOTKEYACTIVE | SKF_CONFIRMHOTKEY)) == flags,
{
    let mask: u32 = SKF_STICKYKEYSON | SKF_HOTKEYACTIVE | SKF_CONFIRMHOTKEY;
    assert(mask == 13) by (bit_vector)
        requires
            mask == 1u32 | 4u32 | 8u32,
    ;
    let r = flags & !mask;
    assert(r & 1 == 0 && r & 4 == 0 && r & 8 == 0 && r | (flags & 13) == flags) by (bit_vector)
        requires
            r == flags & !13u32,
    ;
    r
}

} // verus!
