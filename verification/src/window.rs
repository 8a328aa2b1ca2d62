//! Decisions behind the window, the tray icon and the floating control.

use vstd::prelude::*;
use crate::settings::AppSettings;
use crate::text::{join3, owned, same_text};

verus! {

/// What the user chose when closing the main window.
#[derive(Clone, Copy, Debug, PartialEq, Eq, Structural)]
pub enum CloseChoice {
    Exit,
    MinimizeToTray,
    Cancel,
}

/// The choice a close-dialog answer names, or the message for an unknown one.
pub open spec fn close_choice_of(value: Seq<char>) -> Result<CloseChoice, Seq<char>> {
    if value == "exit"@ {
        Ok(CloseChoice::Exit)
    } else if value == "tray"@ {
        Ok(CloseChoice::MinimizeToTray)
    } else if value == "cancel"@ {
        Ok(CloseChoice::Cancel)
    } else {
        Err("无效的关闭选项"@)
    }
}

impl<'a> TryFrom<&'a str> for CloseChoice {
    type Error = String;

    fn try_from(value: &'a str) -> (r: Result<CloseChoice, String>)
        ensures
            close_choice_of(value@) matches Ok(c) ==> r == Ok::<CloseChoice, String>(c),
            close_choice_of(value@) matches Err(m) ==> (r matches Err(e) && e@ == m),
    {
        if same_text(value, "exit") {
            Ok(CloseChoice::Exit)
        } else if same_text(value, "tray") {
            Ok(CloseChoice::MinimizeToTray)
        } else if same_text(value, "cancel") {
            Ok(CloseChoice::Cancel)
        } else {
            Err(owned("无效的关闭选项"))
        }
    }
}

/// What `try_from` gives, over `close_choice_of`. The error's text cannot be
/// written as a `String` in a specification; `try_from`'s own `ensures`
/// states it, so this impl does not claim to be obeyed.
impl<'a> vstd::std_specs::convert::TryFromSpecImpl<&'a str> for CloseChoice {
    open spec fn obeys_try_from_spec() -> bool {
        false
    }

    open spec fn try_from_spec(value: &'a str) -> Result<CloseChoice, String> {
        match close_choice_of(value@) {
            Ok(c) => Ok(c),
            Err(_) => Err(vstd::pervasive::arbitrary()),
        }
    }
}

/// The tray icon's tooltip for the settings.
pub open spec fn tooltip_text(sound_enabled: bool, floating_ball_enabled: bool) -> Seq<char> {
    "Codex 提示音管理器\n提示音："@ + (if sound_enabled {
        "已开启"@
    } else {
        "已关闭"@
    }) + "\n悬浮球："@ + (if floating_ball_enabled {
        "已显示"@
    } else {
        "已隐藏"@
    })
}

/// The tray icon's tooltip: whether the sound is on and the floating
/// control shown.
pub fn tray_tooltip(settings: &AppSettings) -> (r: String)
    ensures
        r@ == tooltip_text(settings.enabled, settings.floating_ball_enabled),
{
    let sound_status = if settings.enabled {
        "已开启"
    } else {
        "已关闭"
    };
    let floating_status = if settings.floating_ball_enabled {
        "已显示"
    } else {
        "已隐藏"
    };
    let head = join3("Codex 提示音管理器\n提示音：", sound_status, "\n悬浮球：");
    let mut text = head;
    text.append(floating_status);
    text
}

/// `u32 as i32`: the same bits read as a signed number.
pub open spec fn as_signed(v: u32) -> int {
    if v <= i32::MAX {
        v as int
    } else {
        v as int - 0x1_0000_0000
    }
}

/// Where the floating control goes: the bottom-right corner of the work
/// area, `margin` pixels in from both edges, computed in `i32` as a
/// release build does, where an overflowing sum wraps around.
pub open spec fn corner_coordinate(area: i32, area_size: u32, window_size: u32, margin: i32) -> i32 {
    vstd::wrapping::i32_specs::wrapping_sub(
        vstd::wrapping::i32_specs::wrapping_sub(
            vstd::wrapping::i32_specs::wrapping_add(area, as_signed(area_size) as i32),
            as_signed(window_size) as i32,
        ),
        margin,
    )
}

/// The position of the floating control in the work area; `margin` is the
/// scaled margin in pixels.
pub fn floating_ball_position(
    area_x: i32,
    area_y: i32,
    area_width: u32,
    area_height: u32,
    window_width: u32,
    window_height: u32,
    margin: i32,
) -> (r: (i32, i32))
    ensures
        r.0 == corner_coordinate(area_x, area_width, window_width, margin),
        r.1 == corner_coordinate(area_y, area_height, window_height, margin),
{
    let aw = signed(area_width);
    let ww = signed(window_width);
    let ah = signed(area_height);
    let wh = signed(window_height);
    let x = area_x.wrapping_add(aw).wrapping_sub(ww).wrapping_sub(margin);
    let y = area_y.wrapping_add(ah).wrapping_sub(wh).wrapping_sub(margin);
    (x, y)
}

fn signed(v: u32) -> (r: i32)
    ensures
        r == as_signed(v),
{
    if v <= 2147483647 {
        v as i32
    } else {
        let low: u32 = v - 2147483648;
        let shifted: i32 = low as i32;
        shifted - 2147483647 - 1
    }
}

/// After showing or hiding the floating control, whether to put it back:
/// when saving the setting failed, it returns to how it was before.
pub fn floating_ball_rollback(previous: bool, saved: &Result<(), String>) -> (r: Option<bool>)
    ensures
        saved is Err ==> r == Some(previous),
        saved is Ok ==> r is None,
{
    match saved {
        Ok(()) => None,
        Err(_) => Some(previous),
    }
}

} // verus!
