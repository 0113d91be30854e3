//! The window icon: pixel art on a 16×16 grid, scaled up by an integer factor.
//!
//! Drawn as a grid of characters, because that is what pixel art is: every pixel is a
//! deliberate decision, and a literal you can read is the honest way to express that.
//! Scaled by whole pixels with no interpolation; the hard edges are the style.

use vstd::prelude::*;
use vstd::string::*;

verus! {

/// Side of the design, in design pixels.
pub const GRID_SIZE: u32 = 16;

/// How many real pixels per design pixel. 4 gives a 64×64 icon, which is what most
/// compositors ask for.
pub const SCALE: u32 = 4;

/// Side of the icon, in pixels.
pub const SIZE: u32 = 64;

/// The design's characters, as bytes.
pub const BACKGROUND_CELL: u8 = 0x23;

pub const CHEVRON_CELL: u8 = 0x43;

pub const CURSOR_CELL: u8 = 0x55;

/// The design, row by row. `.` is transparent, `#` the background, `C` the prompt
/// chevron and `U` the cursor block. The corners step in by three, two, one: that
/// staircase is how pixel art rounds a corner.
pub open spec fn design(row: int) -> &'static str {
    if row == 0 || row == 15 {
        "...##########..."
    } else if row == 1 || row == 14 {
        "..############.."
    } else if row == 2 || row == 13 {
        ".##############."
    } else if row == 5 {
        "###CC###########"
    } else if row == 6 || row == 9 {
        "####CC####UUU###"
    } else if row == 7 || row == 8 {
        "#####CC###UUU###"
    } else if row == 10 {
        "###CC#####UUU###"
    } else {
        "################"
    }
}

/// One row of the design.
pub fn grid_row(row: u32) -> (text: &'static str)
    ensures
        text == design(row as int),
        text@.len() == 16,
{
    proof {
        reveal_strlit("...##########...");
        reveal_strlit("..############..");
        reveal_strlit(".##############.");
        reveal_strlit("###CC###########");
        reveal_strlit("####CC####UUU###");
        reveal_strlit("#####CC###UUU###");
        reveal_strlit("###CC#####UUU###");
        reveal_strlit("################");
    }
    if row == 0 || row == 15 {
        "...##########..."
    } else if row == 1 || row == 14 {
        "..############.."
    } else if row == 2 || row == 13 {
        ".##############."
    } else if row == 5 {
        "###CC###########"
    } else if row == 6 || row == 9 {
        "####CC####UUU###"
    } else if row == 7 || row == 8 {
        "#####CC###UUU###"
    } else if row == 10 {
        "###CC#####UUU###"
    } else {
        "################"
    }
}

/// The color of a design pixel, or `None` where it is transparent.
pub open spec fn cell_color(cell: u8) -> Option<[u8; 3]> {
    if cell == BACKGROUND_CELL {
        Some([0x14u8, 0x17u8, 0x20u8])
    } else if cell == CHEVRON_CELL {
        Some([0x5cu8, 0xf0u8, 0xd4u8])
    } else if cell == CURSOR_CELL {
        Some([0xe6u8, 0xe9u8, 0xf0u8])
    } else {
        None
    }
}

/// The color of a design pixel, or `None` where it is transparent.
pub fn color_of(cell: u8) -> (color: Option<[u8; 3]>)
    ensures
        color == cell_color(cell),
{
    if cell == BACKGROUND_CELL {
        Some([0x14u8, 0x17u8, 0x20u8])
    } else if cell == CHEVRON_CELL {
        Some([0x5cu8, 0xf0u8, 0xd4u8])
    } else if cell == CURSOR_CELL {
        Some([0xe6u8, 0xe9u8, 0xf0u8])
    } else {
        None
    }
}

/// The pixel at `(x, y)` as red, green, blue and alpha: the color of its design pixel,
/// fully opaque, or nothing at all.
pub open spec fn pixel(x: int, y: int) -> Seq<u8> {
    match cell_color(design(y / 4)@[x / 4] as u8) {
        Some(c) => seq![c@[0], c@[1], c@[2], 0xffu8],
        None => seq![0u8, 0u8, 0u8, 0u8],
    }
}

/// The icon as RGBA8 rows, top to bottom, alongside its side length.
pub fn rgba() -> (icon: (Vec<u8>, u32))
    ensures
        icon.1 == SIZE,
        icon.0@.len() == SIZE * SIZE * 4,
        forall|x: int, y: int, k: int|
            0 <= x < SIZE && 0 <= y < SIZE && 0 <= k < 4 ==> #[trigger] icon.0@[(y * SIZE + x) * 4
                + k] == pixel(x, y)[k],
{
    let mut pixels: Vec<u8> = Vec::new();
    let mut n: u32 = 0;
    while n < SIZE * SIZE
        invariant
            n <= SIZE * SIZE,
            pixels@.len() == 4 * n,
            forall|i: int, k: int|
                0 <= i < n && 0 <= k < 4 ==> #[trigger] pixels@[i * 4 + k] == pixel(
                    i % 64,
                    i / 64,
                )[k],
        decreases SIZE * SIZE - n,
    {
        let x: u32 = n % SIZE;
        let y: u32 = n / SIZE;
        let cell = grid_row(y / SCALE).get_char((x / SCALE) as usize);
        let (r, g, b, a): (u8, u8, u8, u8) = match color_of(cell as u8) {
            Some(c) => (c[0], c[1], c[2], 0xff),
            None => (0, 0, 0, 0),
        };
        let ghost before = pixels@;
        pixels.push(r);
        pixels.push(g);
        pixels.push(b);
        pixels.push(a);
        proof {
            assert forall|i: int, k: int| 0 <= i < n + 1 && 0 <= k < 4 implies #[trigger] pixels@[i
                * 4 + k] == pixel(i % 64, i / 64)[k] by {
                if i < n {
                    assert(pixels@[i * 4 + k] == before[i * 4 + k]);
                }
            }
        }
        n += 1;
    }
    proof {
        assert forall|x: int, y: int, k: int|
            0 <= x < SIZE && 0 <= y < SIZE && 0 <= k < 4 implies #[trigger] pixels@[(y * SIZE + x)
            * 4 + k] == pixel(x, y)[k] by {
            let i = y * 64 + x;
            assert(i % 64 == x && i / 64 == y);
            assert(pixels@[i * 4 + k] == pixel(i % 64, i / 64)[k]);
        }
    }
    (pixels, SIZE)
}

/// Nothing smoothed the design: every pixel is fully opaque or fully transparent.
pub proof fn law_no_partial_alpha(x: int, y: int)
    ensures
        pixel(x, y)[3] == 0 || pixel(x, y)[3] == 0xff,
{
}

/// Each design pixel is one solid block: pixels of the same block are the same.
pub proof fn law_blocks_are_solid(x: int, y: int, dx: int, dy: int)
    requires
        0 <= x < 16,
        0 <= y < 16,
        0 <= dx < 4,
        0 <= dy < 4,
    ensures
        pixel(4 * x + dx, 4 * y + dy) == pixel(4 * x, 4 * y),
{
}

} // verus!
