//! Desktop appearance: visual effects, a solid black background, desktop icons and the
//! taskbar.

use vstd::prelude::*;
use vstd::string::*;
use crate::purge::eq_text;
use crate::registry::{dword_write, hkcu_dword, hkcu_sz, sz_write, RegistryRoot, RegistryWrite, RegistryWriteView};

verus! {

pub const AERO_OPERATION: &'static str = "Windows Aeroの無効化に失敗しました";
pub const AERO_RESTORE_OPERATION: &'static str = "Windows Aeroの復元に失敗しました";
pub const WALLPAPER_OPERATION: &'static str = "壁紙の変更に失敗しました";
pub const DESKTOP_OPERATION: &'static str = "デスクトップアイコン/タスクバーの非表示に失敗しました";
pub const DESKTOP_RESTORE_OPERATION: &'static str = "デスクトップアイコン/タスクバーの再表示に失敗しました";

/// The key of the visual effects preset.
pub open spec fn visual_effects_key() -> Seq<char> {
    "Software\\Microsoft\\Windows\\CurrentVersion\\Explorer\\VisualEffects"@
}

/// The visual effects preset: 2 is "adjust for best performance", 0 "let Windows choose".
pub fn visual_effects_write(enabled: bool) -> (w: RegistryWrite)
    ensures
        w@ == dword_write(RegistryRoot::CurrentUser, visual_effects_key(), "VisualFXSetting"@, if enabled { 0 } else { 2 }),
{
    hkcu_dword(
        "Software\\Microsoft\\Windows\\CurrentVersion\\Explorer\\VisualEffects",
        "VisualFXSetting",
        if enabled { 0 } else { 2 },
    )
}

/// The minimum animation setting: window animation on when effects are enabled.
pub fn min_animate(enabled: bool) -> (v: i32)
    ensures
        v == (if enabled { 1i32 } else { 0i32 }),
{
    if enabled { 1 } else { 0 }
}

/// The values that make the desktop background solid black.
pub open spec fn solid_wallpaper_writes() -> Seq<RegistryWriteView> {
    seq![
        sz_write(RegistryRoot::CurrentUser, "Control Panel\\Desktop"@, "Wallpaper"@, ""@),
        sz_write(RegistryRoot::CurrentUser, "Control Panel\\Colors"@, "Background"@, "0 0 0"@),
    ]
}

/// No wallpaper and a black background color, remembered for the next sign-in.
pub fn solid_wallpaper_settings() -> (writes: Vec<RegistryWrite>)
    ensures
        writes@.map_values(|w: RegistryWrite| w@) == solid_wallpaper_writes(),
{
    let mut writes: Vec<RegistryWrite> = Vec::new();
    writes.push(hkcu_sz("Control Panel\\Desktop", "Wallpaper", ""));
    writes.push(hkcu_sz("Control Panel\\Colors", "Background", "0 0 0"));
    assert(writes@.map_values(|w: RegistryWrite| w@) =~= solid_wallpaper_writes());
    writes
}

/// Whether desktop icons are hidden, remembered for the next sign-in.
pub fn hide_icons_write(hidden: bool) -> (w: RegistryWrite)
    ensures
        w@ == dword_write(
            RegistryRoot::CurrentUser,
            "Software\\Microsoft\\Windows\\CurrentVersion\\Explorer\\Advanced"@,
            "HideIcons"@,
            if hidden { 1 } else { 0 },
        ),
{
    hkcu_dword("Software\\Microsoft\\Windows\\CurrentVersion\\Explorer\\Advanced", "HideIcons", if hidden { 1 } else { 0 })
}

/// The "hide icons" bit of the shell state flags.
pub const HIDE_ICONS_BIT: i32 = 0x1000;

/// The shell state flags with the "hide icons" bit set or cleared and all other bits kept.
pub fn with_hide_icons(flags: i32, hidden: bool) -> (r: i32)
    ensures
        r == (if hidden { flags | HIDE_ICONS_BIT } else { flags & !HIDE_ICONS_BIT }),
        (r & HIDE_ICONS_BIT != 0) == hidden,
        r & !HIDE_ICONS_BIT == flags & !HIDE_ICONS_BIT,
{
    if hidden {
        let r = flags | HIDE_ICONS_BIT;
        assert((r & 0x1000 != 0) && (r & !0x1000i32 == flags & !0x1000i32)) by (bit_vector)
            requires
                r == flags | 0x1000i32,
        ;
        r
    } else {
        let r = flags & !HIDE_ICONS_BIT;
        assert((r & 0x1000 == 0) && (r & !0x1000i32 == flags & !0x1000i32)) by (bit_vector)
            requires
                r == flags & !0x1000i32,
        ;
        r
    }
}

/// Showing the icons again after hiding them gives back flags that did not hide them.
pub proof fn lemma_hide_then_show(flags: i32)
    requires
        flags & HIDE_ICONS_BIT == 0,
    ensures
        (flags | HIDE_ICONS_BIT) & !HIDE_ICONS_BIT == flags,
{
    assert((flags | 0x1000i32) & !0x1000i32 == flags) by (bit_vector)
        requires
            flags & 0x1000i32 == 0,
    ;
}

/// The window classes of the main and the secondary taskbars.
pub open spec fn is_taskbar_class_name(name: Seq<char>) -> bool {
    name == "Shell_TrayWnd"@ || name == "Shell_SecondaryTrayWnd"@
}

/// Whether a window of this class is a taskbar.
pub fn is_taskbar_class(name: &str) -> (r: bool)
    ensures
        r == is_taskbar_class_name(name@),
{
    eq_text(name, "Shell_TrayWnd") || eq_text(name, "Shell_SecondaryTrayWnd")
}

} // verus!
