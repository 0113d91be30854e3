//! The window icon.

use tuzminal::appicon::{
    color_of, grid_row, rgba, BACKGROUND_CELL, CHEVRON_CELL, CURSOR_CELL, GRID_SIZE, SCALE,
};

#[test]
fn the_grid_is_square_and_uses_only_known_cells() {
    let grid: Vec<&str> = (0..GRID_SIZE).map(grid_row).collect();
    assert_eq!(grid.len(), GRID_SIZE as usize);
    for (row, line) in grid.iter().enumerate() {
        assert_eq!(
            line.len(),
            GRID_SIZE as usize,
            "row {row} is {} wide, not {GRID_SIZE}",
            line.len()
        );
        for (col, cell) in line.bytes().enumerate() {
            assert!(
                matches!(cell, b'.' | b'#' | b'C' | b'U'),
                "row {row} col {col} is {:?}, which is not a known cell",
                cell as char
            );
        }
    }
}

#[test]
fn the_icon_is_a_square_rgba_buffer() {
    let (pixels, size) = rgba();
    assert_eq!(size, GRID_SIZE * SCALE);
    assert_eq!(
        pixels.len(),
        (size * size * 4) as usize,
        "winit reads the buffer as exactly size*size*4 and panics otherwise"
    );
}

#[test]
fn every_pixel_is_fully_opaque_or_fully_transparent() {
    let (pixels, _) = rgba();
    for (i, chunk) in pixels.chunks_exact(4).enumerate() {
        assert!(
            chunk[3] == 0 || chunk[3] == 0xff,
            "pixel {i} has alpha {}, so something smoothed it",
            chunk[3]
        );
    }
}

#[test]
fn each_design_pixel_became_a_solid_block() {
    let (pixels, size) = rgba();
    let at = |x: u32, y: u32| {
        let o = ((y * size + x) * 4) as usize;
        [pixels[o], pixels[o + 1], pixels[o + 2], pixels[o + 3]]
    };
    let y = 3 * SCALE;
    let first = at(0, y);
    for dy in 0..SCALE {
        for dx in 0..SCALE {
            assert_eq!(at(dx, y + dy), first, "block at (0,{y}) is not solid");
        }
    }
    assert_eq!(first, [0x14, 0x17, 0x20, 0xff]);
}

#[test]
fn the_corners_are_stepped_away_and_the_middle_is_filled() {
    let (pixels, size) = rgba();
    let alpha = |x: u32, y: u32| pixels[((y * size + x) * 4 + 3) as usize];
    assert_eq!(alpha(0, 0), 0, "top-left should be cut away");
    assert_eq!(alpha(size - 1, 0), 0);
    assert_eq!(alpha(0, size - 1), 0);
    assert_eq!(alpha(size - 1, size - 1), 0);
    assert_eq!(alpha(size / 2, size / 2), 0xff, "the middle is solid");
    assert_eq!(alpha(3 * SCALE, 0), 0xff);
}

#[test]
fn the_prompt_and_the_cursor_are_both_drawn() {
    let (pixels, _) = rgba();
    let count = |want: [u8; 3]| {
        pixels
            .chunks_exact(4)
            .filter(|c| [c[0], c[1], c[2]] == want && c[3] == 0xff)
            .count()
    };
    let block = (SCALE * SCALE) as usize;
    assert_eq!(count(color_of(CHEVRON_CELL).unwrap()), 12 * block);
    assert_eq!(count(color_of(CURSOR_CELL).unwrap()), 15 * block);
}


#[test]
fn only_the_three_drawn_cells_have_a_color() {
    assert_eq!(color_of(BACKGROUND_CELL), Some([0x14, 0x17, 0x20]));
    assert!(color_of(CHEVRON_CELL).is_some());
    assert!(color_of(CURSOR_CELL).is_some());
    assert_eq!(color_of(b'.'), None);
}
