//! The select tool: starts pixel selections, grabs the highlighted region
//! as a movable block, and drags it.

use vstd::prelude::*;
use vstd::pervasive::VecAdditionalExecFns;

use crate::grid_list::{
    cell_index, erase_cells, erase_edits, lemma_rowmajor_bound, rect_text, spec_unhighlight_cell,
    GridList,
};
use crate::history::{saved_once, History};
use crate::shapes::block::BlockShape;
use crate::shapes::line::LineShape;
use crate::shapes::{Shape, ShapeList};
use crate::tools::DrawingTools;

verus! {

/// Whether the select tool is sweeping out a selection rectangle, and the
/// grab offset between the cursor and the selection corner while a block is
/// being moved.
pub struct SelectTool {
    pub is_selecting: bool,
    pub offset_row: usize,
    pub offset_col: usize,
}

impl SelectTool {
    pub fn new() -> (r: Self)
        ensures
            r.is_selecting == false,
            r.offset_row == 0,
            r.offset_col == 0,
    {
        Self { is_selecting: false, offset_row: 0, offset_col: 0 }
    }

    /// A press at `(row, col)`.  On ground that is not highlighted it starts
    /// sweeping a selection rectangle (the shell turns the result into a
    /// pixel-selection gesture).  On a highlighted cell it lifts the current
    /// selection into a movable block: the selection's text becomes a block
    /// shape, the selected cells are erased (as one recorded version), and
    /// all highlighting is cleared.
    pub fn start_at(
        &mut self,
        grid_list: &mut GridList,
        history: &mut History,
        shape_list: &mut ShapeList,
        row: usize,
        col: usize,
    ) -> (began_selection: bool)
        requires
            old(grid_list).wf(),
            old(history).wf(),
            (row as int) < old(grid_list).rows(),
            (col as int) < old(grid_list).cols(),
            old(grid_list).current_selection is Some ==> ((old(
                grid_list,
            ).current_selection->0).1.0 as int) <= old(grid_list).rows() && ((old(
                grid_list,
            ).current_selection->0).1.1 as int) <= old(grid_list).cols(),
        ensures
            final(history).wf(),
            ({
                let s = old(grid_list).data@;
                let cols = old(grid_list).cols();
                let i = cell_index(row as int, col as int, cols);
                if !s[i].highlighted {
                    &&& began_selection == true
                    &&& *final(self) == (SelectTool { is_selecting: true, ..*old(self) })
                    &&& *final(grid_list) == *old(grid_list)
                    &&& *final(history) == *old(history)
                    &&& *final(shape_list) == *old(shape_list)
                } else {
                    &&& began_selection == false
                    &&& final(self).is_selecting == old(self).is_selecting
                    &&& match old(grid_list).current_selection {
                        Some(sel) => {
                            let ((sr, sc), (er, ec)) = sel;
                            &&& final(self).offset_row == (if row >= sr {
                                (row - sr) as int
                            } else {
                                (sr - row) as int
                            })
                            &&& final(self).offset_col == (if col >= sc {
                                (col - sc) as int
                            } else {
                                (sc - col) as int
                            })
                            &&& final(grid_list).data@.len() == s.len()
                            &&& (forall|j: int|
                                0 <= j < s.len() ==> final(grid_list).data@[j]
                                    == spec_unhighlight_cell(#[trigger] erase_cells(s)[j]))
                            &&& final(grid_list).current_selection is None
                            &&& final(grid_list).grid_size == old(grid_list).grid_size
                            &&& saved_once(
                                *old(history),
                                *final(history),
                                erase_edits(s, DrawingTools::Select),
                            )
                            &&& final(shape_list).data@.len() == old(shape_list).data@.len() + 1
                            &&& final(shape_list).data@.subrange(
                                0,
                                old(shape_list).data@.len() as int,
                            ) == old(shape_list).data@
                            &&& ({
                                let sh = final(shape_list).data@.last();
                                &&& sh is Block
                                &&& sh->Block_0.start == (row, col)
                                &&& sh->Block_0.end == (row, col)
                                &&& sh->Block_0.preview == true
                                &&& sh->Block_0.content@ == rect_text(
                                    s,
                                    cols,
                                    sr as int,
                                    sc as int,
                                    er as int,
                                    ec as int,
                                )
                            })
                        },
                        None => {
                            &&& *final(self) == *old(self)
                            &&& *final(grid_list) == *old(grid_list)
                            &&& *final(history) == *old(history)
                            &&& *final(shape_list) == *old(shape_list)
                        },
                    }
                }
            }),
    {
        let ghost rows_g = grid_list.rows();
        let ghost cols_g = grid_list.cols();
        let cols_n = grid_list.grid_size.1;
        let buf_len = grid_list.data.len();
        proof {
            lemma_rowmajor_bound(row as int, col as int, rows_g, cols_g);
            assert(cell_index(row as int, col as int, cols_g) < buf_len);
        }
        let i = row * cols_n + col;
        if !grid_list.get(i).highlighted {
            self.is_selecting = true;
            return true;
        }
        if let Some(((sel_row, sel_col), _)) = grid_list.current_selection {
            self.offset_row = if row >= sel_row {
                row - sel_row
            } else {
                sel_row - row
            };
            self.offset_col = if col >= sel_col {
                col - sel_col
            } else {
                sel_col - col
            };
            let block_content = grid_list.get_highlighted_content();
            grid_list.erase_highlighted(history, DrawingTools::Select);
            grid_list.clear_all_highlight();
            proof {
                assert(history.versions@.subrange(0, old(history).index as int)
                    =~= old(history).versions@.subrange(0, old(history).index as int));
            }
            shape_list.add_shape(Shape::Block(BlockShape::new(row, col, block_content)));
            proof {
                assert(final(shape_list).data@.subrange(0, old(shape_list).data@.len() as int)
                    =~= old(shape_list).data@);
            }
        }
        false
    }

    /// While a block is being moved (no selection sweep in progress), keep
    /// the last shape — the grabbed block — under the cursor, offset by the
    /// grab point.
    pub fn drag_to(&self, shape_list: &mut ShapeList, row: usize, col: usize)
        ensures
            self.is_selecting ==> *final(shape_list) == *old(shape_list),
            !self.is_selecting ==> {
                &&& final(shape_list).data@.len() == old(shape_list).data@.len()
                &&& (old(shape_list).data@.len() == 0 || !(old(shape_list).data@.last() is Block)
                    ==> final(shape_list).data@ == old(shape_list).data@)
                &&& (old(shape_list).data@.len() > 0 && old(shape_list).data@.last() is Block
                    ==> final(shape_list).data@ == old(shape_list).data@.update(
                    old(shape_list).data@.len() - 1,
                    Shape::Block(
                        BlockShape {
                            start: (
                                (if row >= self.offset_row {
                                    (row - self.offset_row) as int
                                } else {
                                    0
                                }) as usize,
                                (if col >= self.offset_col {
                                    (col - self.offset_col) as int
                                } else {
                                    0
                                }) as usize,
                            ),
                            ..old(shape_list).data@.last()->Block_0
                        },
                    ),
                ))
            },
    {
        if self.is_selecting {
            return ;
        }
        let n = shape_list.data.len();
        if n == 0 {
            proof {
                assert(final(shape_list).data@ =~= old(shape_list).data@);
            }
            return ;
        }
        let is_block = matches!(&shape_list.data[n - 1], Shape::Block(_));
        if !is_block {
            proof {
                assert(final(shape_list).data@ =~= old(shape_list).data@);
            }
            return ;
        }
        let shape_row = if row >= self.offset_row {
            row - self.offset_row
        } else {
            0
        };
        let shape_col = if col >= self.offset_col {
            col - self.offset_col
        } else {
            0
        };
        let mut sh = Shape::Line(LineShape::new(0, 0));
        shape_list.data.set_and_swap(n - 1, &mut sh);
        if let Shape::Block(block) = sh {
            shape_list.data.set(
                n - 1,
                Shape::Block(BlockShape { start: (shape_row, shape_col), ..block }),
            );
        }
    }

    /// End the gesture: the selection sweep, if one was running, is over.
    pub fn finish(&mut self)
        ensures
            *final(self) == (SelectTool { is_selecting: false, ..*old(self) }),
    {
        self.is_selecting = false;
    }
}

} // verus!
