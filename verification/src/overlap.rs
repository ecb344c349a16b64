//! Pairwise overlap resolution: given the glyph already committed in a cell,
//! an incoming glyph about to be committed there, and (when known) the
//! direction the incoming stroke was drawn in, produce the correct merged
//! junction glyph.  The table is total over the closed glyph set; unmatched
//! pairs fall back to the incoming glyph winning outright.

use vstd::prelude::*;

use crate::consts::{
    CHAR_ARROW_DOWN, CHAR_ARROW_LEFT, CHAR_ARROW_RIGHT, CHAR_ARROW_UP, CHAR_CORNER_BL_L,
    CHAR_CORNER_BR_L, CHAR_CORNER_TL_L, CHAR_CORNER_TR_L, CHAR_CROSS, CHAR_HOR_DOWN_L, CHAR_HOR_L,
    CHAR_HOR_UP_L, CHAR_NEWLINE, CHAR_SPACE, CHAR_VER_L, CHAR_VER_LEFT_L, CHAR_VER_RIGHT_L,
};
use crate::shapes::line::LineDirection;

verus! {

/// A horizontal line receiving an incoming glyph.
pub open spec fn spec_hor_l(dir: Option<LineDirection>, incoming: char) -> char {
    if incoming == CHAR_VER_L {
        if dir == Some(LineDirection::UpToDown) {
            CHAR_HOR_DOWN_L
        } else if dir == Some(LineDirection::DownToUp) {
            CHAR_HOR_UP_L
        } else {
            CHAR_CROSS
        }
    } else if incoming == CHAR_CORNER_BL_L || incoming == CHAR_CORNER_BR_L {
        CHAR_HOR_UP_L
    } else if incoming == CHAR_CORNER_TL_L || incoming == CHAR_CORNER_TR_L {
        CHAR_HOR_DOWN_L
    } else {
        incoming
    }
}

/// A vertical line receiving an incoming glyph.
pub open spec fn spec_ver_l(dir: Option<LineDirection>, incoming: char) -> char {
    if incoming == CHAR_HOR_L {
        if dir == Some(LineDirection::LeftToRight) {
            CHAR_VER_RIGHT_L
        } else if dir == Some(LineDirection::RightToLeft) {
            CHAR_VER_LEFT_L
        } else {
            CHAR_CROSS
        }
    } else if incoming == CHAR_CORNER_BL_L || incoming == CHAR_CORNER_TL_L {
        CHAR_VER_RIGHT_L
    } else if incoming == CHAR_CORNER_BR_L || incoming == CHAR_CORNER_TR_L {
        CHAR_VER_LEFT_L
    } else {
        incoming
    }
}

/// A top-left corner receiving an incoming glyph.
pub open spec fn spec_corner_tl_l(dir: Option<LineDirection>, incoming: char) -> char {
    if incoming == CHAR_HOR_L {
        if dir == Some(LineDirection::LeftToRight) {
            CHAR_CORNER_TL_L
        } else {
            CHAR_HOR_DOWN_L
        }
    } else if incoming == CHAR_VER_L {
        if dir == Some(LineDirection::UpToDown) {
            CHAR_CORNER_TL_L
        } else {
            CHAR_VER_RIGHT_L
        }
    } else if incoming == CHAR_CORNER_TR_L {
        CHAR_HOR_DOWN_L
    } else if incoming == CHAR_CORNER_BR_L {
        CHAR_CROSS
    } else if incoming == CHAR_CORNER_BL_L {
        CHAR_VER_RIGHT_L
    } else {
        incoming
    }
}

/// A bottom-left corner receiving an incoming glyph.
pub open spec fn spec_corner_bl_l(dir: Option<LineDirection>, incoming: char) -> char {
    if incoming == CHAR_HOR_L {
        if dir == Some(LineDirection::LeftToRight) {
            CHAR_CORNER_BL_L
        } else {
            CHAR_HOR_UP_L
        }
    } else if incoming == CHAR_VER_L {
        if dir == Some(LineDirection::DownToUp) {
            CHAR_CORNER_BL_L
        } else {
            CHAR_VER_RIGHT_L
        }
    } else if incoming == CHAR_CORNER_BR_L {
        CHAR_HOR_UP_L
    } else if incoming == CHAR_CORNER_TR_L {
        CHAR_CROSS
    } else if incoming == CHAR_CORNER_TL_L {
        CHAR_VER_RIGHT_L
    } else {
        incoming
    }
}

/// A top-right corner receiving an incoming glyph.
pub open spec fn spec_corner_tr_l(dir: Option<LineDirection>, incoming: char) -> char {
    if incoming == CHAR_HOR_L {
        if dir == Some(LineDirection::RightToLeft) {
            CHAR_CORNER_TR_L
        } else {
            CHAR_HOR_DOWN_L
        }
    } else if incoming == CHAR_VER_L {
        if dir == Some(LineDirection::UpToDown) {
            CHAR_CORNER_TR_L
        } else {
            CHAR_VER_LEFT_L
        }
    } else if incoming == CHAR_CORNER_TL_L {
        CHAR_HOR_DOWN_L
    } else if incoming == CHAR_CORNER_BL_L {
        CHAR_CROSS
    } else if incoming == CHAR_CORNER_BR_L {
        CHAR_VER_LEFT_L
    } else {
        incoming
    }
}

/// A bottom-right corner receiving an incoming glyph.
pub open spec fn spec_corner_br_l(dir: Option<LineDirection>, incoming: char) -> char {
    if incoming == CHAR_HOR_L {
        if dir == Some(LineDirection::RightToLeft) {
            CHAR_CORNER_BR_L
        } else {
            CHAR_HOR_UP_L
        }
    } else if incoming == CHAR_VER_L {
        if dir == Some(LineDirection::DownToUp) {
            CHAR_CORNER_BR_L
        } else {
            CHAR_VER_LEFT_L
        }
    } else if incoming == CHAR_CORNER_BL_L {
        CHAR_HOR_UP_L
    } else if incoming == CHAR_CORNER_TL_L {
        CHAR_CROSS
    } else if incoming == CHAR_CORNER_TR_L {
        CHAR_VER_LEFT_L
    } else {
        incoming
    }
}

/// An up-pointing tee receiving an incoming glyph.
pub open spec fn spec_hor_up_l(dir: Option<LineDirection>, incoming: char) -> char {
    if incoming == CHAR_VER_L {
        if dir == Some(LineDirection::DownToUp) {
            CHAR_HOR_UP_L
        } else {
            CHAR_CROSS
        }
    } else if incoming == CHAR_HOR_L {
        CHAR_HOR_UP_L
    } else if incoming == CHAR_CORNER_TL_L || incoming == CHAR_CORNER_TR_L {
        CHAR_CROSS
    } else if incoming == CHAR_CORNER_BL_L || incoming == CHAR_CORNER_BR_L {
        CHAR_HOR_UP_L
    } else {
        incoming
    }
}

/// A down-pointing tee receiving an incoming glyph.
pub open spec fn spec_hor_down_l(dir: Option<LineDirection>, incoming: char) -> char {
    if incoming == CHAR_VER_L {
        if dir == Some(LineDirection::UpToDown) {
            CHAR_HOR_DOWN_L
        } else {
            CHAR_CROSS
        }
    } else if incoming == CHAR_HOR_L {
        CHAR_HOR_DOWN_L
    } else if incoming == CHAR_CORNER_TL_L || incoming == CHAR_CORNER_TR_L {
        CHAR_HOR_DOWN_L
    } else if incoming == CHAR_CORNER_BL_L || incoming == CHAR_CORNER_BR_L {
        CHAR_CROSS
    } else {
        incoming
    }
}

/// A right-pointing tee receiving an incoming glyph.
pub open spec fn spec_ver_right_l(dir: Option<LineDirection>, incoming: char) -> char {
    if incoming == CHAR_HOR_L {
        if dir == Some(LineDirection::LeftToRight) {
            CHAR_VER_RIGHT_L
        } else {
            CHAR_CROSS
        }
    } else if incoming == CHAR_VER_L {
        CHAR_VER_RIGHT_L
    } else if incoming == CHAR_CORNER_BL_L || incoming == CHAR_CORNER_TL_L {
        CHAR_VER_RIGHT_L
    } else if incoming == CHAR_CORNER_BR_L || incoming == CHAR_CORNER_TR_L {
        CHAR_CROSS
    } else {
        incoming
    }
}

/// A left-pointing tee receiving an incoming glyph.
pub open spec fn spec_ver_left_l(dir: Option<LineDirection>, incoming: char) -> char {
    if incoming == CHAR_HOR_L {
        if dir == Some(LineDirection::RightToLeft) {
            CHAR_VER_LEFT_L
        } else {
            CHAR_CROSS
        }
    } else if incoming == CHAR_VER_L {
        CHAR_VER_LEFT_L
    } else if incoming == CHAR_CORNER_BL_L || incoming == CHAR_CORNER_TL_L {
        CHAR_CROSS
    } else if incoming == CHAR_CORNER_BR_L || incoming == CHAR_CORNER_TR_L {
        CHAR_VER_LEFT_L
    } else {
        incoming
    }
}

/// A down arrowhead receiving an incoming glyph: a perpendicular run turns it
/// into the corner matching the run's direction.
pub open spec fn spec_arrow_down(dir: Option<LineDirection>, incoming: char) -> char {
    if incoming == CHAR_HOR_L {
        if dir == Some(LineDirection::RightToLeft) {
            CHAR_CORNER_BR_L
        } else if dir == Some(LineDirection::LeftToRight) {
            CHAR_CORNER_BL_L
        } else {
            incoming
        }
    } else {
        incoming
    }
}

/// An up arrowhead receiving an incoming glyph.
pub open spec fn spec_arrow_up(dir: Option<LineDirection>, incoming: char) -> char {
    if incoming == CHAR_HOR_L {
        if dir == Some(LineDirection::RightToLeft) {
            CHAR_CORNER_TR_L
        } else if dir == Some(LineDirection::LeftToRight) {
            CHAR_CORNER_TL_L
        } else {
            incoming
        }
    } else {
        incoming
    }
}

/// A right arrowhead receiving an incoming glyph.
pub open spec fn spec_arrow_right(dir: Option<LineDirection>, incoming: char) -> char {
    if incoming == CHAR_VER_L {
        if dir == Some(LineDirection::UpToDown) {
            CHAR_CORNER_TR_L
        } else if dir == Some(LineDirection::DownToUp) {
            CHAR_CORNER_BR_L
        } else {
            incoming
        }
    } else {
        incoming
    }
}

/// A left arrowhead receiving an incoming glyph.
pub open spec fn spec_arrow_left(dir: Option<LineDirection>, incoming: char) -> char {
    if incoming == CHAR_VER_L {
        if dir == Some(LineDirection::UpToDown) {
            CHAR_CORNER_TL_L
        } else if dir == Some(LineDirection::DownToUp) {
            CHAR_CORNER_BL_L
        } else {
            incoming
        }
    } else {
        incoming
    }
}

/// A cross receiving an incoming glyph: stays a cross for anything line-like.
pub open spec fn spec_cross(incoming: char) -> char {
    if incoming == CHAR_HOR_L || incoming == CHAR_VER_L || incoming == CHAR_CORNER_TL_L
        || incoming == CHAR_CORNER_TR_L || incoming == CHAR_CORNER_BL_L
        || incoming == CHAR_CORNER_BR_L {
        CHAR_CROSS
    } else {
        incoming
    }
}

/// The full pairwise overlap table: blank or newline current content lets the
/// incoming glyph win outright; a known glyph dispatches to its own row of
/// the table; any other current glyph is overwritten by the incoming one.
pub open spec fn resolve_overlap(dir: Option<LineDirection>, current: char, incoming: char) -> char {
    if current == CHAR_SPACE || current == CHAR_NEWLINE {
        incoming
    } else if current == CHAR_HOR_L {
        spec_hor_l(dir, incoming)
    } else if current == CHAR_VER_L {
        spec_ver_l(dir, incoming)
    } else if current == CHAR_CORNER_TL_L {
        spec_corner_tl_l(dir, incoming)
    } else if current == CHAR_CORNER_BL_L {
        spec_corner_bl_l(dir, incoming)
    } else if current == CHAR_CORNER_TR_L {
        spec_corner_tr_l(dir, incoming)
    } else if current == CHAR_CORNER_BR_L {
        spec_corner_br_l(dir, incoming)
    } else if current == CHAR_HOR_UP_L {
        spec_hor_up_l(dir, incoming)
    } else if current == CHAR_HOR_DOWN_L {
        spec_hor_down_l(dir, incoming)
    } else if current == CHAR_VER_RIGHT_L {
        spec_ver_right_l(dir, incoming)
    } else if current == CHAR_VER_LEFT_L {
        spec_ver_left_l(dir, incoming)
    } else if current == CHAR_ARROW_DOWN {
        spec_arrow_down(dir, incoming)
    } else if current == CHAR_ARROW_UP {
        spec_arrow_up(dir, incoming)
    } else if current == CHAR_ARROW_RIGHT {
        spec_arrow_right(dir, incoming)
    } else if current == CHAR_ARROW_LEFT {
        spec_arrow_left(dir, incoming)
    } else if current == CHAR_CROSS {
        spec_cross(incoming)
    } else {
        incoming
    }
}

/// The overlap table never invents a newline: every row yields either a
/// box-drawing glyph or the incoming glyph itself, so a commit writes a
/// newline only when one was staged.
pub proof fn lemma_resolve_overlap_no_newline(
    dir: Option<LineDirection>,
    current: char,
    incoming: char,
)
    requires
        incoming != '\n',
    ensures
        resolve_overlap(dir, current, incoming) != '\n',
{
}

pub fn process_hor_l(start_direction: Option<LineDirection>, incoming: char) -> (r: char)
    ensures
        r == spec_hor_l(start_direction, incoming),
{
    if incoming == CHAR_VER_L {
        match start_direction {
            Some(LineDirection::UpToDown) => CHAR_HOR_DOWN_L,
            Some(LineDirection::DownToUp) => CHAR_HOR_UP_L,
            _ => CHAR_CROSS,
        }
    } else if incoming == CHAR_CORNER_BL_L || incoming == CHAR_CORNER_BR_L {
        CHAR_HOR_UP_L
    } else if incoming == CHAR_CORNER_TL_L || incoming == CHAR_CORNER_TR_L {
        CHAR_HOR_DOWN_L
    } else {
        incoming
    }
}

pub fn process_ver_l(start_direction: Option<LineDirection>, incoming: char) -> (r: char)
    ensures
        r == spec_ver_l(start_direction, incoming),
{
    if incoming == CHAR_HOR_L {
        match start_direction {
            Some(LineDirection::LeftToRight) => CHAR_VER_RIGHT_L,
            Some(LineDirection::RightToLeft) => CHAR_VER_LEFT_L,
            _ => CHAR_CROSS,
        }
    } else if incoming == CHAR_CORNER_BL_L || incoming == CHAR_CORNER_TL_L {
        CHAR_VER_RIGHT_L
    } else if incoming == CHAR_CORNER_BR_L || incoming == CHAR_CORNER_TR_L {
        CHAR_VER_LEFT_L
    } else {
        incoming
    }
}

pub fn process_corner_tl_l(start_direction: Option<LineDirection>, incoming: char) -> (r: char)
    ensures
        r == spec_corner_tl_l(start_direction, incoming),
{
    if incoming == CHAR_HOR_L {
        if matches!(start_direction, Some(LineDirection::LeftToRight)) {
            CHAR_CORNER_TL_L
        } else {
            CHAR_HOR_DOWN_L
        }
    } else if incoming == CHAR_VER_L {
        if matches!(start_direction, Some(LineDirection::UpToDown)) {
            CHAR_CORNER_TL_L
        } else {
            CHAR_VER_RIGHT_L
        }
    } else if incoming == CHAR_CORNER_TR_L {
        CHAR_HOR_DOWN_L
    } else if incoming == CHAR_CORNER_BR_L {
        CHAR_CROSS
    } else if incoming == CHAR_CORNER_BL_L {
        CHAR_VER_RIGHT_L
    } else {
        incoming
    }
}

pub fn process_corner_bl_l(start_direction: Option<LineDirection>, incoming: char) -> (r: char)
    ensures
        r == spec_corner_bl_l(start_direction, incoming),
{
    if incoming == CHAR_HOR_L {
        if matches!(start_direction, Some(LineDirection::LeftToRight)) {
            CHAR_CORNER_BL_L
        } else {
            CHAR_HOR_UP_L
        }
    } else if incoming == CHAR_VER_L {
        if matches!(start_direction, Some(LineDirection::DownToUp)) {
            CHAR_CORNER_BL_L
        } else {
            CHAR_VER_RIGHT_L
        }
    } else if incoming == CHAR_CORNER_BR_L {
        CHAR_HOR_UP_L
    } else if incoming == CHAR_CORNER_TR_L {
        CHAR_CROSS
    } else if incoming == CHAR_CORNER_TL_L {
        CHAR_VER_RIGHT_L
    } else {
        incoming
    }
}

pub fn process_corner_tr_l(start_direction: Option<LineDirection>, incoming: char) -> (r: char)
    ensures
        r == spec_corner_tr_l(start_direction, incoming),
{
    if incoming == CHAR_HOR_L {
        if matches!(start_direction, Some(LineDirection::RightToLeft)) {
            CHAR_CORNER_TR_L
        } else {
            CHAR_HOR_DOWN_L
        }
    } else if incoming == CHAR_VER_L {
        if matches!(start_direction, Some(LineDirection::UpToDown)) {
            CHAR_CORNER_TR_L
        } else {
            CHAR_VER_LEFT_L
        }
    } else if incoming == CHAR_CORNER_TL_L {
        CHAR_HOR_DOWN_L
    } else if incoming == CHAR_CORNER_BL_L {
        CHAR_CROSS
    } else if incoming == CHAR_CORNER_BR_L {
        CHAR_VER_LEFT_L
    } else {
        incoming
    }
}

pub fn process_corner_br_l(start_direction: Option<LineDirection>, incoming: char) -> (r: char)
    ensures
        r == spec_corner_br_l(start_direction, incoming),
{
    if incoming == CHAR_HOR_L {
        if matches!(start_direction, Some(LineDirection::RightToLeft)) {
            CHAR_CORNER_BR_L
        } else {
            CHAR_HOR_UP_L
        }
    } else if incoming == CHAR_VER_L {
        if matches!(start_direction, Some(LineDirection::DownToUp)) {
            CHAR_CORNER_BR_L
        } else {
            CHAR_VER_LEFT_L
        }
    } else if incoming == CHAR_CORNER_BL_L {
        CHAR_HOR_UP_L
    } else if incoming == CHAR_CORNER_TL_L {
        CHAR_CROSS
    } else if incoming == CHAR_CORNER_TR_L {
        CHAR_VER_LEFT_L
    } else {
        incoming
    }
}

pub fn process_hor_up_l(start_direction: Option<LineDirection>, incoming: char) -> (r: char)
    ensures
        r == spec_hor_up_l(start_direction, incoming),
{
    if incoming == CHAR_VER_L {
        if matches!(start_direction, Some(LineDirection::DownToUp)) {
            CHAR_HOR_UP_L
        } else {
            CHAR_CROSS
        }
    } else if incoming == CHAR_HOR_L {
        CHAR_HOR_UP_L
    } else if incoming == CHAR_CORNER_TL_L || incoming == CHAR_CORNER_TR_L {
        CHAR_CROSS
    } else if incoming == CHAR_CORNER_BL_L || incoming == CHAR_CORNER_BR_L {
        CHAR_HOR_UP_L
    } else {
        incoming
    }
}

pub fn process_hor_down_l(start_direction: Option<LineDirection>, incoming: char) -> (r: char)
    ensures
        r == spec_hor_down_l(start_direction, incoming),
{
    if incoming == CHAR_VER_L {
        if matches!(start_direction, Some(LineDirection::UpToDown)) {
            CHAR_HOR_DOWN_L
        } else {
            CHAR_CROSS
        }
    } else if incoming == CHAR_HOR_L {
        CHAR_HOR_DOWN_L
    } else if incoming == CHAR_CORNER_TL_L || incoming == CHAR_CORNER_TR_L {
        CHAR_HOR_DOWN_L
    } else if incoming == CHAR_CORNER_BL_L || incoming == CHAR_CORNER_BR_L {
        CHAR_CROSS
    } else {
        incoming
    }
}

pub fn process_ver_right_l(start_direction: Option<LineDirection>, incoming: char) -> (r: char)
    ensures
        r == spec_ver_right_l(start_direction, incoming),
{
    if incoming == CHAR_HOR_L {
        if matches!(start_direction, Some(LineDirection::LeftToRight)) {
            CHAR_VER_RIGHT_L
        } else {
            CHAR_CROSS
        }
    } else if incoming == CHAR_VER_L {
        CHAR_VER_RIGHT_L
    } else if incoming == CHAR_CORNER_BL_L || incoming == CHAR_CORNER_TL_L {
        CHAR_VER_RIGHT_L
    } else if incoming == CHAR_CORNER_BR_L || incoming == CHAR_CORNER_TR_L {
        CHAR_CROSS
    } else {
        incoming
    }
}

pub fn process_ver_left_l(start_direction: Option<LineDirection>, incoming: char) -> (r: char)
    ensures
        r == spec_ver_left_l(start_direction, incoming),
{
    if incoming == CHAR_HOR_L {
        if matches!(start_direction, Some(LineDirection::RightToLeft)) {
            CHAR_VER_LEFT_L
        } else {
            CHAR_CROSS
        }
    } else if incoming == CHAR_VER_L {
        CHAR_VER_LEFT_L
    } else if incoming == CHAR_CORNER_BL_L || incoming == CHAR_CORNER_TL_L {
        CHAR_CROSS
    } else if incoming == CHAR_CORNER_BR_L || incoming == CHAR_CORNER_TR_L {
        CHAR_VER_LEFT_L
    } else {
        incoming
    }
}

pub fn process_arrow_down(start_direction: Option<LineDirection>, incoming: char) -> (r: char)
    ensures
        r == spec_arrow_down(start_direction, incoming),
{
    if incoming == CHAR_HOR_L {
        match start_direction {
            Some(LineDirection::RightToLeft) => CHAR_CORNER_BR_L,
            Some(LineDirection::LeftToRight) => CHAR_CORNER_BL_L,
            _ => incoming,
        }
    } else {
        incoming
    }
}

pub fn process_arrow_up(start_direction: Option<LineDirection>, incoming: char) -> (r: char)
    ensures
        r == spec_arrow_up(start_direction, incoming),
{
    if incoming == CHAR_HOR_L {
        match start_direction {
            Some(LineDirection::RightToLeft) => CHAR_CORNER_TR_L,
            Some(LineDirection::LeftToRight) => CHAR_CORNER_TL_L,
            _ => incoming,
        }
    } else {
        incoming
    }
}

pub fn process_arrow_right(start_direction: Option<LineDirection>, incoming: char) -> (r: char)
    ensures
        r == spec_arrow_right(start_direction, incoming),
{
    if incoming == CHAR_VER_L {
        match start_direction {
            Some(LineDirection::UpToDown) => CHAR_CORNER_TR_L,
            Some(LineDirection::DownToUp) => CHAR_CORNER_BR_L,
            _ => incoming,
        }
    } else {
        incoming
    }
}

pub fn process_arrow_left(start_direction: Option<LineDirection>, incoming: char) -> (r: char)
    ensures
        r == spec_arrow_left(start_direction, incoming),
{
    if incoming == CHAR_VER_L {
        match start_direction {
            Some(LineDirection::UpToDown) => CHAR_CORNER_TL_L,
            Some(LineDirection::DownToUp) => CHAR_CORNER_BL_L,
            _ => incoming,
        }
    } else {
        incoming
    }
}

pub fn process_cross(start_direction: Option<LineDirection>, incoming: char) -> (r: char)
    ensures
        r == spec_cross(incoming),
{
    let _ = start_direction;
    if incoming == CHAR_HOR_L || incoming == CHAR_VER_L || incoming == CHAR_CORNER_TL_L
        || incoming == CHAR_CORNER_TR_L || incoming == CHAR_CORNER_BL_L
        || incoming == CHAR_CORNER_BR_L {
        CHAR_CROSS
    } else {
        incoming
    }
}

/// Resolve the glyph a cell ends up with when `incoming` is committed on top
/// of `current`, with `start_direction` as the drawing-direction hint.
pub fn calculate_cell_content(
    start_direction: Option<LineDirection>,
    current: char,
    incoming: char,
) -> (r: char)
    ensures
        r == resolve_overlap(start_direction, current, incoming),
{
    if current == CHAR_SPACE || current == CHAR_NEWLINE {
        return incoming;
    }
    if current == CHAR_HOR_L {
        process_hor_l(start_direction, incoming)
    } else if current == CHAR_VER_L {
        process_ver_l(start_direction, incoming)
    } else if current == CHAR_CORNER_TL_L {
        process_corner_tl_l(start_direction, incoming)
    } else if current == CHAR_CORNER_BL_L {
        process_corner_bl_l(start_direction, incoming)
    } else if current == CHAR_CORNER_TR_L {
        process_corner_tr_l(start_direction, incoming)
    } else if current == CHAR_CORNER_BR_L {
        process_corner_br_l(start_direction, incoming)
    } else if current == CHAR_HOR_UP_L {
        process_hor_up_l(start_direction, incoming)
    } else if current == CHAR_HOR_DOWN_L {
        process_hor_down_l(start_direction, incoming)
    } else if current == CHAR_VER_RIGHT_L {
        process_ver_right_l(start_direction, incoming)
    } else if current == CHAR_VER_LEFT_L {
        process_ver_left_l(start_direction, incoming)
    } else if current == CHAR_ARROW_DOWN {
        process_arrow_down(start_direction, incoming)
    } else if current == CHAR_ARROW_UP {
        process_arrow_up(start_direction, incoming)
    } else if current == CHAR_ARROW_RIGHT {
        process_arrow_right(start_direction, incoming)
    } else if current == CHAR_ARROW_LEFT {
        process_arrow_left(start_direction, incoming)
    } else if current == CHAR_CROSS {
        process_cross(start_direction, incoming)
    } else {
        incoming
    }
}

} // verus!
