use vstd::prelude::*;

use crate::text::same;

verus! {

/// The launcher and clipboard windows hide when they lose focus; other
/// windows stay.
pub fn hides_on_focus_loss(label: &str) -> (r: bool)
    ensures
        r == (label@ == "main"@ || label@ == "clipboard"@),
{
    same(label, "main") || same(label, "clipboard")
}

/// What a press of the launcher shortcut does.
#[derive(Clone, Copy, Debug, PartialEq, Eq, Structural)]
pub enum LauncherToggle {
    Hide,
    Show,
}

/// The launcher shortcut hides the launcher when it is visible and shows
/// it otherwise.
pub fn launcher_toggle(visible: bool) -> (r: LauncherToggle)
    ensures
        r == if visible {
            LauncherToggle::Hide
        } else {
            LauncherToggle::Show
        },
{
    if visible {
        LauncherToggle::Hide
    } else {
        LauncherToggle::Show
    }
}

/// The side length of the tray icon, in pixels.
pub const TRAY_ICON_SIZE: u32 = 18;

/// Whether the tray icon's pixel at column `x`, row `y` is drawn: two
/// uprights, a base joining them, and a dot between them.
pub open spec fn tray_pixel_set(x: int, y: int) -> bool {
    let left = 4 <= x <= 6 && 3 <= y <= 13;
    let right = 12 <= x <= 14 && 3 <= y <= 13;
    let bottom = 12 <= y <= 15 && 6 <= x <= 12;
    let accent = 8 <= x <= 10 && 7 <= y <= 9;
    left || right || bottom || accent
}

/// The tray icon as RGBA bytes, row by row: black, opaque where the shape
/// is drawn and transparent elsewhere.
pub fn tray_icon_rgba() -> (r: Vec<u8>)
    ensures
        r@.len() == 18 * 18 * 4,
        forall|p: int|
            0 <= p < 18 * 18 ==> {
                &&& #[trigger] r@[4 * p] == 0
                &&& r@[4 * p + 1] == 0
                &&& r@[4 * p + 2] == 0
                &&& r@[4 * p + 3] == if tray_pixel_set(p % 18, p / 18) {
                    255u8
                } else {
                    0u8
                }
            },
{
    let mut rgba: Vec<u8> = Vec::new();
    let mut p: u32 = 0;
    while p < TRAY_ICON_SIZE * TRAY_ICON_SIZE
        invariant
            p <= 18 * 18,
            rgba@.len() == 4 * p,
            forall|q: int|
                0 <= q < p ==> {
                    &&& #[trigger] rgba@[4 * q] == 0
                    &&& rgba@[4 * q + 1] == 0
                    &&& rgba@[4 * q + 2] == 0
                    &&& rgba@[4 * q + 3] == if tray_pixel_set(q % 18, q / 18) {
                        255u8
                    } else {
                        0u8
                    }
                },
        decreases 18 * 18 - p,
    {
        let x = p % TRAY_ICON_SIZE;
        let y = p / TRAY_ICON_SIZE;
        let left = x >= 4 && x <= 6 && y >= 3 && y <= 13;
        let right = x >= 12 && x <= 14 && y >= 3 && y <= 13;
        let bottom = y >= 12 && y <= 15 && x >= 6 && x <= 12;
        let accent = x >= 8 && x <= 10 && y >= 7 && y <= 9;
        let alpha: u8 = if left || right || bottom || accent {
            255
        } else {
            0
        };
        let ghost before = rgba@;
        rgba.push(0);
        rgba.push(0);
        rgba.push(0);
        rgba.push(alpha);
        assert forall|q: int| 0 <= q < p + 1 implies {
            &&& #[trigger] rgba@[4 * q] == 0
            &&& rgba@[4 * q + 1] == 0
            &&& rgba@[4 * q + 2] == 0
            &&& rgba@[4 * q + 3] == if tray_pixel_set(q % 18, q / 18) {
                255u8
            } else {
                0u8
            }
        } by {
            if q < p {
                assert(rgba@[4 * q] == before[4 * q]);
                assert(rgba@[4 * q + 1] == before[4 * q + 1]);
                assert(rgba@[4 * q + 2] == before[4 * q + 2]);
                assert(rgba@[4 * q + 3] == before[4 * q + 3]);
            }
        }
        p = p + 1;
    }
    rgba
}

} // verus!
