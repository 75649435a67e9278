//! The system tray: its menu commands and its icon.
use vstd::prelude::*;
use crate::text::str_equal;

verus! {

/// What a click on the tray menu asks for.
#[derive(Debug, Clone, Copy, PartialEq, Eq, Structural)]
pub enum TrayCommand {
    Show,
    ToggleMute,
    ToggleDeafen,
    Quit,
}

/// The identifiers of the tray menu's items.
pub struct TrayMenuIds {
    pub show: String,
    pub mute: String,
    pub deafen: String,
    pub quit: String,
}

/// The command of the menu item `id`, if it is one of the four.
pub open spec fn command_of(ids: TrayMenuIds, id: Seq<char>) -> Option<TrayCommand> {
    if id == ids.show@ {
        Some(TrayCommand::Show)
    } else if id == ids.mute@ {
        Some(TrayCommand::ToggleMute)
    } else if id == ids.deafen@ {
        Some(TrayCommand::ToggleDeafen)
    } else if id == ids.quit@ {
        Some(TrayCommand::Quit)
    } else {
        None
    }
}

impl TrayMenuIds {
    /// The command of a click on the menu item `id`; `None` for any other item.
    pub fn command_for(&self, id: &str) -> (r: Option<TrayCommand>)
        ensures
            r == command_of(*self, id@),
    {
        if str_equal(id, self.show.as_str()) {
            Some(TrayCommand::Show)
        } else if str_equal(id, self.mute.as_str()) {
            Some(TrayCommand::ToggleMute)
        } else if str_equal(id, self.deafen.as_str()) {
            Some(TrayCommand::ToggleDeafen)
        } else if str_equal(id, self.quit.as_str()) {
            Some(TrayCommand::Quit)
        } else {
            None
        }
    }
}

/// The icon's width and height in pixels.
pub const ICON_SIZE: u32 = 16;

/// Whether the pixel at column `x`, row `y` lies in the icon's disc: its
/// centre is less than 7 pixels from the icon's centre (in half-pixel units,
/// the squared distance is below 196).
pub open spec fn in_icon_disc(x: int, y: int) -> bool {
    (2 * x - 15) * (2 * x - 15) + (2 * y - 15) * (2 * y - 15) < 196
}

/// Channel `c` (red, green, blue, alpha) of the pixel at column `x`, row `y`:
/// opaque green inside the disc, transparent outside.
pub open spec fn icon_channel(x: int, y: int, c: int) -> u8 {
    if in_icon_disc(x, y) {
        if c == 0 {
            80
        } else if c == 1 {
            200
        } else if c == 2 {
            80
        } else {
            255
        }
    } else {
        0
    }
}

/// Where channel `c` of the pixel at column `x`, row `y` stands in the RGBA
/// bytes, row by row.
pub open spec fn pixel_index(x: int, y: int, c: int) -> int {
    (y * 16 + x) * 4 + c
}

/// The tray icon's RGBA pixels: a green disc on a transparent square.
pub fn tray_icon_rgba() -> (r: Vec<u8>)
    ensures
        r@.len() == 1024,
        forall|x: int, y: int, c: int|
            #![trigger pixel_index(x, y, c)]
            0 <= x < 16 && 0 <= y < 16 && 0 <= c < 4 ==> r@[pixel_index(x, y, c)] == icon_channel(x, y, c),
{
    let mut rgba: Vec<u8> = Vec::new();
    let mut y: u32 = 0;
    while y < ICON_SIZE
        invariant
            y <= 16,
            rgba@.len() == y * 64,
            forall|px: int, py: int, c: int|
                #![trigger pixel_index(px, py, c)]
                0 <= px < 16 && 0 <= py < y && 0 <= c < 4 ==> rgba@[pixel_index(px, py, c)] == icon_channel(
                    px,
                    py,
                    c,
                ),
        decreases 16 - y,
    {
        let mut x: u32 = 0;
        while x < ICON_SIZE
            invariant
                x <= 16,
                y < 16,
                rgba@.len() == y * 64 + x * 4,
                forall|px: int, py: int, c: int|
                    #![trigger pixel_index(px, py, c)]
                    0 <= px < 16 && 0 <= py < y && 0 <= c < 4 ==> rgba@[pixel_index(px, py, c)]
                        == icon_channel(px, py, c),
                forall|px: int, c: int|
                    #![trigger pixel_index(px, y as int, c)]
                    0 <= px < x && 0 <= c < 4 ==> rgba@[pixel_index(px, y as int, c)] == icon_channel(
                        px,
                        y as int,
                        c,
                    ),
            decreases 16 - x,
        {
            let dx: i32 = 2 * (x as i32) - 15;
            let dy: i32 = 2 * (y as i32) - 15;
            assert(0 <= dx * dx <= 289 && 0 <= dy * dy <= 289) by (nonlinear_arith)
                requires
                    -15 <= dx <= 17,
                    -15 <= dy <= 17,
            ;
            let inside = dx * dx + dy * dy < 196;
            assert(inside == in_icon_disc(x as int, y as int));
            let ghost before = rgba@;
            if inside {
                rgba.push(80);
                rgba.push(200);
                rgba.push(80);
                rgba.push(255);
            } else {
                rgba.push(0);
                rgba.push(0);
                rgba.push(0);
                rgba.push(0);
            }
            assert forall|c: int| 0 <= c < 4 implies #[trigger] rgba@[pixel_index(x as int, y as int, c)]
                == icon_channel(x as int, y as int, c) by {
                assert(pixel_index(x as int, y as int, c) == before.len() + c);
            }
            x = x + 1;
        }
        y = y + 1;
    }
    rgba
}

} // verus!
