//! The rectangle tool: starts a rectangle gesture and keeps its far corner
//! in step with the cursor.

use vstd::prelude::*;
use vstd::pervasive::VecAdditionalExecFns;

use crate::shapes::line::LineShape;
use crate::shapes::rect::RectShape;
use crate::shapes::{Shape, ShapeList};

verus! {

/// A stateless tool driving rectangle gestures.
pub struct RectTool;

impl RectTool {
    pub fn new() -> (r: Self) {
        Self {  }
    }

    /// Begin a rectangle gesture at the cursor cell.
    pub fn start_at(&self, shape_list: &mut ShapeList, row: usize, col: usize)
        ensures
            final(shape_list).data@.len() == old(shape_list).data@.len() + 1,
            final(shape_list).data@.subrange(0, old(shape_list).data@.len() as int) == old(
                shape_list,
            ).data@,
            ({
                let sh = final(shape_list).data@.last();
                &&& sh is Rect
                &&& sh->Rect_0.start == (row, col)
                &&& sh->Rect_0.end == (row, col)
                &&& sh->Rect_0.preview == true
            }),
    {
        shape_list.add_shape(Shape::Rect(RectShape::new(row, col)));
        proof {
            assert(final(shape_list).data@.subrange(0, old(shape_list).data@.len() as int)
                =~= old(shape_list).data@);
        }
    }

    /// Update the in-progress rectangle (the last shape, when it is one) to
    /// follow the cursor.
    pub fn drag_to(&self, shape_list: &mut ShapeList, row: usize, col: usize)
        ensures
            final(shape_list).data@.len() == old(shape_list).data@.len(),
            old(shape_list).data@.len() == 0 || !(old(shape_list).data@.last() is Rect)
                ==> final(shape_list).data@ == old(shape_list).data@,
            old(shape_list).data@.len() > 0 && old(shape_list).data@.last() is Rect
                ==> final(shape_list).data@ == old(shape_list).data@.update(
                old(shape_list).data@.len() - 1,
                Shape::Rect(
                    RectShape { end: (row, col), ..old(shape_list).data@.last()->Rect_0 },
                ),
            ),
    {
        let n = shape_list.data.len();
        if n == 0 {
            proof {
                assert(final(shape_list).data@ =~= old(shape_list).data@);
            }
            return ;
        }
        let is_rect = matches!(&shape_list.data[n - 1], Shape::Rect(_));
        if !is_rect {
            proof {
                assert(final(shape_list).data@ =~= old(shape_list).data@);
            }
            return ;
        }
        let mut sh = Shape::Line(LineShape::new(0, 0));
        shape_list.data.set_and_swap(n - 1, &mut sh);
        if let Shape::Rect(rect) = sh {
            shape_list.data.set(n - 1, Shape::Rect(RectShape { end: (row, col), ..rect }));
        }
    }
}

} // verus!
