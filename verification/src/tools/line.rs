//! The line tool: starts a line gesture and keeps its endpoint and drawing
//! direction in step with the cursor, snapping to the dominant axis.

use vstd::prelude::*;
use vstd::pervasive::VecAdditionalExecFns;

use crate::shapes::line::{LineDirection, LineShape};
use crate::shapes::{Shape, ShapeList};

verus! {

/// The line gesture's endpoint and direction after a drag to `(row, col)`:
/// the longer axis of the drag wins, the other endpoint coordinate snaps to
/// the start.
pub open spec fn line_dragged(l: LineShape, row: int, col: int) -> LineShape {
    let d_row = row - l.start.0;
    let d_col = col - l.start.1;
    let abs_row = if d_row >= 0 {
        d_row
    } else {
        -d_row
    };
    let abs_col = if d_col >= 0 {
        d_col
    } else {
        -d_col
    };
    if abs_row > abs_col {
        LineShape {
            end: (row as usize, l.start.1),
            direction: if d_row > 0 {
                LineDirection::UpToDown
            } else {
                LineDirection::DownToUp
            },
            ..l
        }
    } else {
        LineShape {
            end: (l.start.0, col as usize),
            direction: if d_col > 0 {
                LineDirection::LeftToRight
            } else {
                LineDirection::RightToLeft
            },
            ..l
        }
    }
}

/// A stateless tool driving line gestures.
pub struct LineTool;

impl LineTool {
    pub fn new() -> (r: Self) {
        Self {  }
    }

    /// Begin a line gesture at the cursor cell.
    pub fn start_at(&self, shape_list: &mut ShapeList, row: usize, col: usize)
        ensures
            final(shape_list).data@.len() == old(shape_list).data@.len() + 1,
            final(shape_list).data@.subrange(0, old(shape_list).data@.len() as int) == old(
                shape_list,
            ).data@,
            ({
                let sh = final(shape_list).data@.last();
                &&& sh is Line
                &&& sh->Line_0.start == (row, col)
                &&& sh->Line_0.end == (row, col)
                &&& sh->Line_0.direction == LineDirection::RightToLeft
                &&& sh->Line_0.preview == true
            }),
    {
        shape_list.add_shape(Shape::Line(LineShape::new(row, col)));
        proof {
            assert(final(shape_list).data@.subrange(0, old(shape_list).data@.len() as int)
                =~= old(shape_list).data@);
        }
    }

    /// Update the in-progress line (the last shape, when it is a line) to
    /// follow the cursor.
    pub fn drag_to(&self, shape_list: &mut ShapeList, row: usize, col: usize)
        ensures
            final(shape_list).data@.len() == old(shape_list).data@.len(),
            old(shape_list).data@.len() == 0 || !(old(shape_list).data@.last() is Line)
                ==> final(shape_list).data@ == old(shape_list).data@,
            old(shape_list).data@.len() > 0 && old(shape_list).data@.last() is Line
                ==> final(shape_list).data@ == old(shape_list).data@.update(
                old(shape_list).data@.len() - 1,
                Shape::Line(
                    line_dragged(old(shape_list).data@.last()->Line_0, row as int, col as int),
                ),
            ),
    {
        let n = shape_list.data.len();
        if n == 0 {
            proof {
                assert(final(shape_list).data@ =~= old(shape_list).data@);
            }
            return ;
        }
        let is_line = matches!(&shape_list.data[n - 1], Shape::Line(_));
        if !is_line {
            proof {
                assert(final(shape_list).data@ =~= old(shape_list).data@);
            }
            return ;
        }
        let mut sh = Shape::Line(LineShape::new(0, 0));
        shape_list.data.set_and_swap(n - 1, &mut sh);
        if let Shape::Line(line) = sh {
            let (from_row, from_col) = line.start;
            let abs_row = if row >= from_row {
                row - from_row
            } else {
                from_row - row
            };
            let abs_col = if col >= from_col {
                col - from_col
            } else {
                from_col - col
            };
            let updated = if abs_row > abs_col {
                LineShape {
                    end: (row, from_col),
                    direction: if row > from_row {
                        LineDirection::UpToDown
                    } else {
                        LineDirection::DownToUp
                    },
                    ..line
                }
            } else {
                LineShape {
                    end: (from_row, col),
                    direction: if col > from_col {
                        LineDirection::LeftToRight
                    } else {
                        LineDirection::RightToLeft
                    },
                    ..line
                }
            };
            shape_list.data.set(n - 1, Shape::Line(updated));
        }
    }
}

} // verus!
