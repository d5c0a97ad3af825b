//! The Win32 constants the session logic decides on, read from windows-sys.
use vstd::prelude::*;

verus! {

/// `WS_CAPTION` of windows-sys: the two-bit caption mask (`WS_BORDER | WS_DLGFRAME`),
/// documented as 0x00C00000.
#[verifier::external_body]
pub(crate) fn ws_caption() -> (r: u32)
    ensures
        r == 0x00C0_0000u32,
{
    windows_sys::Win32::UI::WindowsAndMessaging::WS_CAPTION
}

/// `WS_THICKFRAME` of windows-sys (the sizing border), documented as 0x00040000.
#[verifier::external_body]
pub(crate) fn ws_thickframe() -> (r: u32)
    ensures
        r == 0x0004_0000u32,
{
    windows_sys::Win32::UI::WindowsAndMessaging::WS_THICKFRAME
}

/// `WS_MAXIMIZE` of windows-sys, documented as 0x01000000.
#[verifier::external_body]
pub(crate) fn ws_maximize() -> (r: u32)
    ensures
        r == 0x0100_0000u32,
{
    windows_sys::Win32::UI::WindowsAndMessaging::WS_MAXIMIZE
}

/// `WS_EX_TOPMOST` of windows-sys (always-on-top), documented as 0x00000008.
#[verifier::external_body]
pub(crate) fn ws_ex_topmost() -> (r: u32)
    ensures
        r == 0x0000_0008u32,
{
    windows_sys::Win32::UI::WindowsAndMessaging::WS_EX_TOPMOST
}

/// The virtual-key code `VK_F` of windows-sys (the F key), documented as 0x46.
#[verifier::external_body]
pub(crate) fn vk_f() -> (r: u16)
    ensures
        r == 0x46u16,
{
    windows_sys::Win32::UI::Input::KeyboardAndMouse::VK_F
}

/// The virtual-key code `VK_ESCAPE` of windows-sys, documented as 0x1B.
#[verifier::external_body]
pub(crate) fn vk_escape() -> (r: u16)
    ensures
        r == 0x1Bu16,
{
    windows_sys::Win32::UI::Input::KeyboardAndMouse::VK_ESCAPE
}

} // verus!
