//! The tray icon, drawn at startup: a 32×32 RGBA image, black with a white
//! "h" (two vertical bars and a crossbar).

use vstd::prelude::*;

verus! {

/// Width and height of the icon in pixels.
pub const ICON_SIZE: u32 = 32;

/// Whether pixel (`x`, `y`) belongs to the white "h".
pub open spec fn in_h(x: int, y: int) -> bool {
    let left_bar = 8 <= x <= 10 && 6 <= y <= 26;
    let right_bar = 21 <= x <= 23 && 15 <= y <= 26;
    let crossbar = 15 <= y <= 17 && 8 <= x <= 23;
    left_bar || right_bar || crossbar
}

/// Byte `k` of the row-major RGBA image: alpha is always opaque, and the
/// colour channels are white inside the "h" and black elsewhere.
pub open spec fn icon_byte(k: int) -> u8 {
    let p = k / 4;
    let channel = k % 4;
    let x = p % 32;
    let y = p / 32;
    if channel == 3 || in_h(x, y) {
        255
    } else {
        0
    }
}

fn is_h(x: u32, y: u32) -> (b: bool)
    ensures
        b == in_h(x as int, y as int),
{
    let left_bar = 8 <= x && x <= 10 && 6 <= y && y <= 26;
    let right_bar = 21 <= x && x <= 23 && 15 <= y && y <= 26;
    let crossbar = 15 <= y && y <= 17 && 8 <= x && x <= 23;
    left_bar || right_bar || crossbar
}

/// The icon's pixels, row by row, four bytes (R, G, B, A) per pixel.
pub fn icon_rgba() -> (v: Vec<u8>)
    ensures
        v@.len() == 32 * 32 * 4,
        forall|k: int| 0 <= k < v@.len() ==> #[trigger] v@[k] == icon_byte(k),
{
    let mut v: Vec<u8> = Vec::new();
    let mut p: u32 = 0;
    while p < 1024
        invariant
            p <= 1024,
            v@.len() == 4 * p,
            forall|k: int| 0 <= k < v@.len() ==> #[trigger] v@[k] == icon_byte(k),
        decreases 1024 - p,
    {
        let x = p % 32;
        let y = p / 32;
        let colour: u8 = if is_h(x, y) {
            255
        } else {
            0
        };
        let ghost base = 4 * p as int;
        proof {
            assert(icon_byte(base) == colour);
            assert(icon_byte(base + 1) == colour);
            assert(icon_byte(base + 2) == colour);
            assert(icon_byte(base + 3) == 255);
        }
        v.push(colour);
        v.push(colour);
        v.push(colour);
        v.push(255);
        p = p + 1;
    }
    v
}

/// Every pixel is opaque and grey-free (its three colour bytes are equal and
/// either 0 or 255); the corners are black, and the "h" has a white stem
/// from row 6, a white crossbar on row 16 and a white right leg on row 26.
pub proof fn lemma_icon_pixels(p: int)
    requires
        0 <= p < 32 * 32,
    ensures
        icon_byte(4 * p + 3) == 255,
        icon_byte(4 * p) == icon_byte(4 * p + 1),
        icon_byte(4 * p) == icon_byte(4 * p + 2),
        icon_byte(4 * p) == 0 || icon_byte(4 * p) == 255,
        icon_byte(0int) == 0,
        icon_byte(4092int) == 0,
        icon_byte(4 * (6 * 32 + 9) as int) == 255,
        icon_byte(4 * (16 * 32 + 16) as int) == 255,
        icon_byte(4 * (26 * 32 + 22) as int) == 255,
        icon_byte(4 * (5 * 32 + 9) as int) == 0,
        icon_byte(4 * (10 * 32 + 22) as int) == 0,
{
}

} // verus!
