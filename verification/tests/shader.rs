//! The shader and the flags it shares with the quads.

use tuzminal::instance::{
    FLAG_COLOR_GLYPH, FLAG_ROUND_BOTTOM, FLAG_ROUND_TL, FLAG_ROUND_TOP, FLAG_ROUND_TR,
    FLAG_TEXTURED,
};
use tuzminal::shader::CELL;

#[test]
fn the_shader_source_is_embedded() {
    let src = CELL;
    assert!(src.contains("fn vs_main"));
    assert!(src.contains("fn fs_main"));
    assert!(src.contains("const FLAG_TEXTURED: u32 = 1u;"));
    assert!(src.contains("const FLAG_COLOR_GLYPH: u32 = 2u;"));
    assert!(src.contains("const FLAG_ROUND_TOP: u32 = 4u;"));
    assert!(src.contains("const FLAG_ROUND_BOTTOM: u32 = 8u;"));
    assert_eq!(FLAG_TEXTURED, 1);
    assert_eq!(FLAG_COLOR_GLYPH, 2);
    assert_eq!(FLAG_ROUND_TOP, 4);
    assert_eq!(FLAG_ROUND_BOTTOM, 8);
}

#[test]
fn one_corner_can_be_rounded_alone() {
    assert!(CELL.contains("const FLAG_ROUND_TL: u32 = 16u;"));
    assert!(CELL.contains("const FLAG_ROUND_TR: u32 = 32u;"));
    assert_eq!(FLAG_ROUND_TL, 16);
    assert_eq!(FLAG_ROUND_TR, 32);
    let all = [
        FLAG_TEXTURED,
        FLAG_COLOR_GLYPH,
        FLAG_ROUND_TOP,
        FLAG_ROUND_BOTTOM,
        FLAG_ROUND_TL,
        FLAG_ROUND_TR,
    ];
    assert_eq!(all.iter().sum::<u32>(), all.iter().fold(0, |a, b| a | b));
}
