//! The rectangle shape: a hollow box of line glyphs with explicit corners.

use vstd::prelude::*;

use crate::consts::{CHAR_CORNER_BL_L, CHAR_CORNER_BR_L, CHAR_CORNER_TL_L, CHAR_CORNER_TR_L, CHAR_HOR_L, CHAR_VER_L};
use crate::grid_cell::GridCell;
use crate::grid_list::{cell_index, commit_cells, commit_edits, lemma_rowmajor_bound, lemma_rowmajor_injective, spec_discard_cell, GridList};
use crate::history::History;
use crate::tools::DrawingTools;

verus! {

/// The preview glyph a rectangle gesture puts at `(r, c)`, if any, for the
/// normalized bounds `(fr, fc)`-`(tr, tc)`: corner glyphs at the four
/// corners (written after the edges, so they win), straight runs along the
/// top, bottom, left and right edges, and nothing in the interior.
pub open spec fn rect_preview_at(fr: int, fc: int, tr: int, tc: int, r: int, c: int) -> Option<
    char,
> {
    if r == tr && c == fc {
        Some(CHAR_CORNER_BL_L)
    } else if r == tr && c == tc {
        Some(CHAR_CORNER_BR_L)
    } else if r == fr && c == tc {
        Some(CHAR_CORNER_TR_L)
    } else if r == fr && c == fc {
        Some(CHAR_CORNER_TL_L)
    } else if (r == fr || r == tr) && fc <= c <= tc {
        Some(CHAR_HOR_L)
    } else if (c == fc || c == tc) && fr <= r <= tr {
        Some(CHAR_VER_L)
    } else {
        None
    }
}

/// The cell at `(r, c)` after a rectangle gesture redraws its preview.
pub open spec fn rect_draw_cell(
    cell: GridCell,
    fr: int,
    fc: int,
    tr: int,
    tc: int,
    r: int,
    c: int,
) -> GridCell {
    let d = spec_discard_cell(cell);
    match rect_preview_at(fr, fc, tr, tc, r, c) {
        Some(glyph) => GridCell { preview: Some(glyph), ..d },
        None => d,
    }
}

/// What a rectangle gesture needs of the grid: a well-formed buffer with
/// both corners on it.
pub open spec fn rect_draw_req(sh: RectShape, g: GridList) -> bool {
    &&& g.wf()
    &&& (sh.start.0 as int) < g.rows()
    &&& (sh.start.1 as int) < g.cols()
    &&& (sh.end.0 as int) < g.rows()
    &&& (sh.end.1 as int) < g.cols()
}

/// What redrawing a rectangle gesture leaves behind, cell for cell.
pub open spec fn rect_draw_post(sh: RectShape, og: GridList, ng: GridList) -> bool {
    &&& ng.wf()
    &&& ng.grid_size == og.grid_size
    &&& ng.current_selection == og.current_selection
    &&& ng.data@.len() == og.data@.len()
    &&& forall|r: int, c: int|
        0 <= r < og.rows() && 0 <= c < og.cols() ==> ng.data@[#[trigger] cell_index(
            r,
            c,
            og.cols(),
        )] == rect_draw_cell(
            og.data@[cell_index(r, c, og.cols())],
            sh.min_row(),
            sh.min_col(),
            sh.max_row(),
            sh.max_col(),
            r,
            c,
        )
}

/// A rectangle being drawn between two opposite grid corners.
#[derive(Debug)]
pub struct RectShape {
    pub start: (usize, usize),
    pub end: (usize, usize),
    pub preview: bool,
}

impl RectShape {
    pub fn new(row: usize, col: usize) -> (r: Self)
        ensures
            r.start == (row, col),
            r.end == (row, col),
            r.preview == true,
    {
        Self { start: (row, col), end: (row, col), preview: true }
    }

    /// The normalized top row of the rectangle.
    pub open spec fn min_row(self) -> int {
        if self.start.0 <= self.end.0 {
            self.start.0 as int
        } else {
            self.end.0 as int
        }
    }

    /// The normalized left column of the rectangle.
    pub open spec fn min_col(self) -> int {
        if self.start.1 <= self.end.1 {
            self.start.1 as int
        } else {
            self.end.1 as int
        }
    }

    /// The normalized bottom row of the rectangle.
    pub open spec fn max_row(self) -> int {
        if self.start.0 <= self.end.0 {
            self.end.0 as int
        } else {
            self.start.0 as int
        }
    }

    /// The normalized right column of the rectangle.
    pub open spec fn max_col(self) -> int {
        if self.start.1 <= self.end.1 {
            self.end.1 as int
        } else {
            self.start.1 as int
        }
    }

    /// Recompute the rectangle's full preview footprint: discard every stale
    /// preview, stage the top and bottom runs, the left and right runs, and
    /// finally the four corners.
    pub fn draw(&self, grid_buffer: &mut GridList)
        requires
            rect_draw_req(*self, *old(grid_buffer)),
        ensures
            rect_draw_post(*self, *old(grid_buffer), *final(grid_buffer)),
    {
        let ghost rows_g = grid_buffer.rows();
        let ghost cols_g = grid_buffer.cols();
        let cols_n = grid_buffer.grid_size.1;
        let (f_row, f_col) = self.start;
        let (t_row, t_col) = self.end;

        let from_row = if f_row <= t_row { f_row } else { t_row };
        let from_col = if f_col <= t_col { f_col } else { t_col };
        let to_row = if f_row <= t_row { t_row } else { f_row };
        let to_col = if f_col <= t_col { t_col } else { f_col };

        grid_buffer.discard_all();
        let ghost s1 = grid_buffer.data@;
        let buf_len = grid_buffer.data.len();

        let mut col = from_col;
        while col <= to_col
            invariant
                from_col <= col,
                col <= to_col + 1 || col == from_col,
                (from_row as int) < rows_g,
                (to_row as int) < rows_g,
                (to_col as int) < cols_g,
                rows_g <= usize::MAX,
                cols_g <= usize::MAX,
                grid_buffer.wf(),
                grid_buffer.grid_size == old(grid_buffer).grid_size,
                grid_buffer.current_selection == old(grid_buffer).current_selection,
                grid_buffer.data@.len() == s1.len(),
                s1.len() == rows_g * cols_g,
                buf_len == grid_buffer.data@.len(),
                cols_n as int == cols_g,
                forall|r: int, c: int|
                    0 <= r < rows_g && 0 <= c < cols_g ==> grid_buffer.data@[
                        #[trigger] cell_index(r, c, cols_g)
                    ] == (if (r == from_row || r == to_row) && from_col <= c < col {
                        (GridCell { preview: Some(CHAR_HOR_L), ..s1[cell_index(r, c, cols_g)] })
                    } else {
                        s1[cell_index(r, c, cols_g)]
                    }),
            decreases to_col + 1 - col,
        {
            proof {
                lemma_rowmajor_bound(from_row as int, col as int, rows_g, cols_g);
                assert(cell_index(from_row as int, col as int, cols_g) < buf_len);
            }
            let i = from_row * cols_n + col;
            grid_buffer.set_preview(i, CHAR_HOR_L);
            proof {
                lemma_rowmajor_bound(to_row as int, col as int, rows_g, cols_g);
                assert(cell_index(to_row as int, col as int, cols_g) < buf_len);
            }
            let i2 = to_row * cols_n + col;
            grid_buffer.set_preview(i2, CHAR_HOR_L);
            proof {
                assert forall|r: int, c: int|
                    0 <= r < rows_g && 0 <= c < cols_g implies grid_buffer.data@[
                    #[trigger] cell_index(r, c, cols_g)
                ] == (if (r == from_row || r == to_row) && from_col <= c < col + 1 {
                    (GridCell { preview: Some(CHAR_HOR_L), ..s1[cell_index(r, c, cols_g)] })
                } else {
                    s1[cell_index(r, c, cols_g)]
                }) by {
                    lemma_rowmajor_bound(r, c, rows_g, cols_g);
                    if cell_index(r, c, cols_g) == i as int {
                        lemma_rowmajor_injective(r, c, from_row as int, col as int, cols_g);
                    }
                    if cell_index(r, c, cols_g) == i2 as int {
                        lemma_rowmajor_injective(r, c, to_row as int, col as int, cols_g);
                    }
                }
            }
            col = col + 1;
        }
        let ghost s2 = grid_buffer.data@;

        let mut row = from_row;
        while row <= to_row
            invariant
                from_row <= row,
                row <= to_row + 1 || row == from_row,
                (to_row as int) < rows_g,
                (from_col as int) < cols_g,
                (to_col as int) < cols_g,
                rows_g <= usize::MAX,
                cols_g <= usize::MAX,
                grid_buffer.wf(),
                grid_buffer.grid_size == old(grid_buffer).grid_size,
                grid_buffer.current_selection == old(grid_buffer).current_selection,
                grid_buffer.data@.len() == s2.len(),
                s2.len() == rows_g * cols_g,
                buf_len == grid_buffer.data@.len(),
                cols_n as int == cols_g,
                forall|r: int, c: int|
                    0 <= r < rows_g && 0 <= c < cols_g ==> grid_buffer.data@[
                        #[trigger] cell_index(r, c, cols_g)
                    ] == (if (c == from_col || c == to_col) && from_row <= r < row {
                        (GridCell { preview: Some(CHAR_VER_L), ..s2[cell_index(r, c, cols_g)] })
                    } else {
                        s2[cell_index(r, c, cols_g)]
                    }),
            decreases to_row + 1 - row,
        {
            proof {
                lemma_rowmajor_bound(row as int, from_col as int, rows_g, cols_g);
                assert(cell_index(row as int, from_col as int, cols_g) < buf_len);
            }
            let i = row * cols_n + from_col;
            grid_buffer.set_preview(i, CHAR_VER_L);
            proof {
                lemma_rowmajor_bound(row as int, to_col as int, rows_g, cols_g);
                assert(cell_index(row as int, to_col as int, cols_g) < buf_len);
            }
            let i2 = row * cols_n + to_col;
            grid_buffer.set_preview(i2, CHAR_VER_L);
            proof {
                assert forall|r: int, c: int|
                    0 <= r < rows_g && 0 <= c < cols_g implies grid_buffer.data@[
                    #[trigger] cell_index(r, c, cols_g)
                ] == (if (c == from_col || c == to_col) && from_row <= r < row + 1 {
                    (GridCell { preview: Some(CHAR_VER_L), ..s2[cell_index(r, c, cols_g)] })
                } else {
                    s2[cell_index(r, c, cols_g)]
                }) by {
                    lemma_rowmajor_bound(r, c, rows_g, cols_g);
                    if cell_index(r, c, cols_g) == i as int {
                        lemma_rowmajor_injective(r, c, row as int, from_col as int, cols_g);
                    }
                    if cell_index(r, c, cols_g) == i2 as int {
                        lemma_rowmajor_injective(r, c, row as int, to_col as int, cols_g);
                    }
                }
            }
            row = row + 1;
        }
        let ghost s3 = grid_buffer.data@;

        proof {
            lemma_rowmajor_bound(from_row as int, from_col as int, rows_g, cols_g);
            lemma_rowmajor_bound(from_row as int, to_col as int, rows_g, cols_g);
            lemma_rowmajor_bound(to_row as int, from_col as int, rows_g, cols_g);
            lemma_rowmajor_bound(to_row as int, to_col as int, rows_g, cols_g);
            assert(cell_index(from_row as int, from_col as int, cols_g) < buf_len);
            assert(cell_index(from_row as int, to_col as int, cols_g) < buf_len);
            assert(cell_index(to_row as int, from_col as int, cols_g) < buf_len);
            assert(cell_index(to_row as int, to_col as int, cols_g) < buf_len);
        }
        let top_left = from_row * cols_n + from_col;
        grid_buffer.set_preview(top_left, CHAR_CORNER_TL_L);
        let top_right = from_row * cols_n + to_col;
        grid_buffer.set_preview(top_right, CHAR_CORNER_TR_L);
        let bottom_right = to_row * cols_n + to_col;
        grid_buffer.set_preview(bottom_right, CHAR_CORNER_BR_L);
        let bottom_left = to_row * cols_n + from_col;
        grid_buffer.set_preview(bottom_left, CHAR_CORNER_BL_L);

        proof {
            assert forall|r: int, c: int|
                0 <= r < rows_g && 0 <= c < cols_g implies final(grid_buffer).data@[
                #[trigger] cell_index(r, c, cols_g)
            ] == rect_draw_cell(
                old(grid_buffer).data@[cell_index(r, c, cols_g)],
                self.min_row(),
                self.min_col(),
                self.max_row(),
                self.max_col(),
                r,
                c,
            ) by {
                lemma_rowmajor_bound(r, c, rows_g, cols_g);
                if cell_index(r, c, cols_g) == top_left as int {
                    lemma_rowmajor_injective(r, c, from_row as int, from_col as int, cols_g);
                }
                if cell_index(r, c, cols_g) == top_right as int {
                    lemma_rowmajor_injective(r, c, from_row as int, to_col as int, cols_g);
                }
                if cell_index(r, c, cols_g) == bottom_right as int {
                    lemma_rowmajor_injective(r, c, to_row as int, to_col as int, cols_g);
                }
                if cell_index(r, c, cols_g) == bottom_left as int {
                    lemma_rowmajor_injective(r, c, to_row as int, from_col as int, cols_g);
                }
            }
        }
    }

    /// Bake the staged preview into content through the overlap table and
    /// leave preview mode.
    pub fn commit(&mut self, grid_buffer: &mut GridList, history: &mut History)
        requires
            old(history).wf(),
        ensures
            final(self).start == old(self).start,
            final(self).end == old(self).end,
            final(self).preview == false,
            final(grid_buffer).wf() == old(grid_buffer).wf(),
            final(grid_buffer).grid_size == old(grid_buffer).grid_size,
            final(grid_buffer).current_selection == old(grid_buffer).current_selection,
            final(grid_buffer).data@ == commit_cells(old(grid_buffer).data@),
            final(history).wf(),
            commit_edits(old(grid_buffer).data@, DrawingTools::Rect).len() == 0 ==> *final(history)
                == *old(history),
            commit_edits(old(grid_buffer).data@, DrawingTools::Rect).len() > 0 ==> {
                &&& final(history).versions@.len() == old(history).index + 1
                &&& final(history).versions@[old(history).index as int].edits@ == commit_edits(
                    old(grid_buffer).data@,
                    DrawingTools::Rect,
                )
                &&& final(history).index == old(history).index + 1
            },
    {
        grid_buffer.commit_all(history, DrawingTools::Rect);
        self.preview = false;
    }

    pub fn is_preview(&self) -> (r: bool)
        ensures
            r == self.preview,
    {
        self.preview
    }

    pub fn is_manual_commit(&self) -> (r: bool)
        ensures
            r == false,
    {
        false
    }
}

} // verus!
