//! The glyph catalog: the closed set of box-drawing characters the grid
//! works with.

use vstd::prelude::*;

verus! {

pub const CHAR_HOR_L: char = '─';

pub const CHAR_VER_L: char = '│';

pub const CHAR_CORNER_TL_L: char = '┌';

pub const CHAR_CORNER_BL_L: char = '└';

pub const CHAR_CORNER_TR_L: char = '┐';

pub const CHAR_CORNER_BR_L: char = '┘';

pub const CHAR_HOR_UP_L: char = '┴';

pub const CHAR_HOR_DOWN_L: char = '┬';

pub const CHAR_VER_RIGHT_L: char = '├';

pub const CHAR_VER_LEFT_L: char = '┤';

pub const CHAR_CROSS: char = '┼';

pub const CHAR_ARROW_DOWN: char = '🭯';

pub const CHAR_ARROW_UP: char = '🭭';

pub const CHAR_ARROW_RIGHT: char = '►';

pub const CHAR_ARROW_LEFT: char = '◄';

pub const CHAR_SPACE: char = ' ';

pub const CHAR_NEWLINE: char = '\n';

/// The characters the grid treats as blank: they never count as content in
/// a bounding box, and text loading skips over them so that what already
/// stands under them survives.
pub open spec fn is_blank_char(c: char) -> bool {
    c == ' ' || c == '\n' || c == '\t' || c == '\r'
}

pub fn is_blank(c: char) -> (r: bool)
    ensures
        r == is_blank_char(c),
{
    c == ' ' || c == '\n' || c == '\t' || c == '\r'
}

} // verus!
