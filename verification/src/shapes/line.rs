//! The straight-line shape and its drawing direction.

use vstd::prelude::*;

use crate::consts::{CHAR_ARROW_DOWN, CHAR_ARROW_LEFT, CHAR_ARROW_RIGHT, CHAR_ARROW_UP, CHAR_HOR_L, CHAR_VER_L};
use crate::grid_cell::GridCell;
use crate::grid_list::{cell_index, commit_cells, commit_edits, lemma_rowmajor_bound, lemma_rowmajor_injective, spec_discard_cell, GridList};
use crate::history::History;
use crate::tools::DrawingTools;

verus! {

/// The direction a line gesture was drawn in.  The start cell of a line is
/// tagged with this so that a later overlap resolution can pick the tee that
/// points the right way.
#[derive(Clone, Copy, Debug, PartialEq, Eq, Structural)]
pub enum LineDirection {
    RightToLeft,
    LeftToRight,
    UpToDown,
    DownToUp,
}

/// The preview glyph a line gesture puts at `(r, c)`, if any: a straight run
/// of line glyphs along the gesture's axis with an arrowhead at the head
/// cell.  The head is written last, so it wins over the run.
pub open spec fn line_preview_at(
    dir: LineDirection,
    fr: int,
    fc: int,
    tr: int,
    tc: int,
    r: int,
    c: int,
) -> Option<char> {
    match dir {
        LineDirection::UpToDown => if r == tr && c == fc {
            Some(CHAR_ARROW_UP)
        } else if c == fc && fr <= r <= tr {
            Some(CHAR_VER_L)
        } else {
            None
        },
        LineDirection::DownToUp => if r == tr && c == fc {
            Some(CHAR_ARROW_DOWN)
        } else if c == fc && tr <= r <= fr {
            Some(CHAR_VER_L)
        } else {
            None
        },
        LineDirection::RightToLeft => if r == fr && c == tc {
            Some(CHAR_ARROW_LEFT)
        } else if r == fr && tc <= c <= fc {
            Some(CHAR_HOR_L)
        } else {
            None
        },
        LineDirection::LeftToRight => if r == fr && c == tc {
            Some(CHAR_ARROW_RIGHT)
        } else if r == fr && fc <= c <= tc {
            Some(CHAR_HOR_L)
        } else {
            None
        },
    }
}

/// The cell at `(r, c)` after a line gesture redraws its preview: any stale
/// preview is discarded, the gesture's start cell is tagged with its
/// direction, and the footprint glyphs are staged.
pub open spec fn line_draw_cell(
    cell: GridCell,
    dir: LineDirection,
    fr: int,
    fc: int,
    tr: int,
    tc: int,
    r: int,
    c: int,
) -> GridCell {
    let d = spec_discard_cell(cell);
    let d2 = if r == fr && c == fc {
        GridCell { line_direction: Some(dir), ..d }
    } else {
        d
    };
    match line_preview_at(dir, fr, fc, tr, tc, r, c) {
        Some(glyph) => GridCell { preview: Some(glyph), ..d2 },
        None => d2,
    }
}

/// What a line gesture needs of the grid: a well-formed buffer with both
/// endpoints on it.
pub open spec fn line_draw_req(sh: LineShape, g: GridList) -> bool {
    &&& g.wf()
    &&& (sh.start.0 as int) < g.rows()
    &&& (sh.start.1 as int) < g.cols()
    &&& (sh.end.0 as int) < g.rows()
    &&& (sh.end.1 as int) < g.cols()
}

/// What redrawing a line gesture leaves behind, cell for cell.
pub open spec fn line_draw_post(sh: LineShape, og: GridList, ng: GridList) -> bool {
    &&& ng.wf()
    &&& ng.grid_size == og.grid_size
    &&& ng.current_selection == og.current_selection
    &&& ng.data@.len() == og.data@.len()
    &&& forall|r: int, c: int|
        0 <= r < og.rows() && 0 <= c < og.cols() ==> ng.data@[#[trigger] cell_index(
            r,
            c,
            og.cols(),
        )] == line_draw_cell(
            og.data@[cell_index(r, c, og.cols())],
            sh.direction,
            sh.start.0 as int,
            sh.start.1 as int,
            sh.end.0 as int,
            sh.end.1 as int,
            r,
            c,
        )
}

/// A straight line being drawn between two grid cells.
pub struct LineShape {
    pub start: (usize, usize),
    pub end: (usize, usize),
    pub direction: LineDirection,
    pub preview: bool,
}

impl LineShape {
    pub fn new(row: usize, col: usize) -> (r: Self)
        ensures
            r.start == (row, col),
            r.end == (row, col),
            r.direction == LineDirection::RightToLeft,
            r.preview == true,
    {
        Self { start: (row, col), end: (row, col), direction: LineDirection::RightToLeft, preview: true }
    }

    /// Recompute the line's full preview footprint: discard every stale
    /// preview, tag the start cell with the drawing direction, then stage the
    /// run and its arrowhead.
    pub fn draw(&self, grid_buffer: &mut GridList)
        requires
            line_draw_req(*self, *old(grid_buffer)),
        ensures
            line_draw_post(*self, *old(grid_buffer), *final(grid_buffer)),
    {
        let ghost rows_g = grid_buffer.rows();
        let ghost cols_g = grid_buffer.cols();
        let cols_n = grid_buffer.grid_size.1;
        let (from_row, from_col) = self.start;
        let (to_row, to_col) = self.end;

        grid_buffer.discard_all();
        let ghost s1 = grid_buffer.data@;

        let buf_len = grid_buffer.data.len();
        proof {
            lemma_rowmajor_bound(from_row as int, from_col as int, rows_g, cols_g);
            assert(cell_index(from_row as int, from_col as int, cols_g) < buf_len);
        }
        let start_i = from_row * cols_n + from_col;
        grid_buffer.set_line_direction(start_i, self.direction);
        let ghost s2 = grid_buffer.data@;
        proof {
            assert forall|r: int, c: int|
                0 <= r < rows_g && 0 <= c < cols_g implies s2[#[trigger] cell_index(r, c, cols_g)]
                == (if r == from_row && c == from_col {
                (GridCell { line_direction: Some(self.direction), ..s1[cell_index(r, c, cols_g)] })
            } else {
                s1[cell_index(r, c, cols_g)]
            }) by {
                lemma_rowmajor_bound(r, c, rows_g, cols_g);
                if cell_index(r, c, cols_g) == start_i as int {
                    lemma_rowmajor_injective(r, c, from_row as int, from_col as int, cols_g);
                }
            }
        }

        match self.direction {
            LineDirection::UpToDown => {
                let mut row = from_row;
                while row <= to_row
                    invariant
                        from_row <= row,
                        row <= to_row + 1 || row == from_row,
                        (to_row as int) < rows_g,
                        (from_col as int) < cols_g,
                        rows_g <= usize::MAX,
                        cols_g <= usize::MAX,
                        grid_buffer.wf(),
                        grid_buffer.grid_size == old(grid_buffer).grid_size,
                        grid_buffer.current_selection == old(grid_buffer).current_selection,
                        grid_buffer.data@.len() == s2.len(),
                        s2.len() == rows_g * cols_g,
                        buf_len == grid_buffer.data@.len(),
                        cols_n as int == cols_g,
                        forall|r: int, c: int|
                            0 <= r < rows_g && 0 <= c < cols_g ==> grid_buffer.data@[
                                #[trigger] cell_index(r, c, cols_g)
                            ] == (if c == from_col && from_row <= r < row {
                                (GridCell { preview: Some(CHAR_VER_L), ..s2[cell_index(r, c, cols_g)] })
                            } else {
                                s2[cell_index(r, c, cols_g)]
                            }),
                    decreases to_row + 1 - row,
                {
                    proof {
                        lemma_rowmajor_bound(row as int, from_col as int, rows_g, cols_g);
                        assert(cell_index(row as int, from_col as int, cols_g) < buf_len);
                    }
                    let i = row * cols_n + from_col;
                    grid_buffer.set_preview(i, CHAR_VER_L);
                    proof {
                        assert forall|r: int, c: int|
                            0 <= r < rows_g && 0 <= c < cols_g implies grid_buffer.data@[
                            #[trigger] cell_index(r, c, cols_g)
                        ] == (if c == from_col && from_row <= r < row + 1 {
                            (GridCell { preview: Some(CHAR_VER_L), ..s2[cell_index(r, c, cols_g)] })
                        } else {
                            s2[cell_index(r, c, cols_g)]
                        }) by {
                            lemma_rowmajor_bound(r, c, rows_g, cols_g);
                            if cell_index(r, c, cols_g) == i as int {
                                lemma_rowmajor_injective(r, c, row as int, from_col as int, cols_g);
                            }
                        }
                    }
                    row = row + 1;
                }
                proof {
                    lemma_rowmajor_bound(to_row as int, from_col as int, rows_g, cols_g);
                    assert(cell_index(to_row as int, from_col as int, cols_g) < buf_len);
                }
                let head_i = to_row * cols_n + from_col;
                grid_buffer.set_preview(head_i, CHAR_ARROW_UP);
                proof {
                    assert forall|r: int, c: int|
                        0 <= r < rows_g && 0 <= c < cols_g implies final(grid_buffer).data@[
                        #[trigger] cell_index(r, c, cols_g)
                    ] == line_draw_cell(
                        old(grid_buffer).data@[cell_index(r, c, cols_g)],
                        self.direction,
                        from_row as int,
                        from_col as int,
                        to_row as int,
                        to_col as int,
                        r,
                        c,
                    ) by {
                        lemma_rowmajor_bound(r, c, rows_g, cols_g);
                        if cell_index(r, c, cols_g) == head_i as int {
                            lemma_rowmajor_injective(r, c, to_row as int, from_col as int, cols_g);
                        }
                    }
                }
            },
            LineDirection::DownToUp => {
                let mut row = to_row;
                while row <= from_row
                    invariant
                        to_row <= row,
                        row <= from_row + 1 || row == to_row,
                        (from_row as int) < rows_g,
                        (to_row as int) < rows_g,
                        (from_col as int) < cols_g,
                        rows_g <= usize::MAX,
                        cols_g <= usize::MAX,
                        grid_buffer.wf(),
                        grid_buffer.grid_size == old(grid_buffer).grid_size,
                        grid_buffer.current_selection == old(grid_buffer).current_selection,
                        grid_buffer.data@.len() == s2.len(),
                        s2.len() == rows_g * cols_g,
                        buf_len == grid_buffer.data@.len(),
                        cols_n as int == cols_g,
                        forall|r: int, c: int|
                            0 <= r < rows_g && 0 <= c < cols_g ==> grid_buffer.data@[
                                #[trigger] cell_index(r, c, cols_g)
                            ] == (if c == from_col && to_row <= r < row {
                                (GridCell { preview: Some(CHAR_VER_L), ..s2[cell_index(r, c, cols_g)] })
                            } else {
                                s2[cell_index(r, c, cols_g)]
                            }),
                    decreases from_row + 1 - row,
                {
                    proof {
                        lemma_rowmajor_bound(row as int, from_col as int, rows_g, cols_g);
                        assert(cell_index(row as int, from_col as int, cols_g) < buf_len);
                    }
                    let i = row * cols_n + from_col;
                    grid_buffer.set_preview(i, CHAR_VER_L);
                    proof {
                        assert forall|r: int, c: int|
                            0 <= r < rows_g && 0 <= c < cols_g implies grid_buffer.data@[
                            #[trigger] cell_index(r, c, cols_g)
                        ] == (if c == from_col && to_row <= r < row + 1 {
                            (GridCell { preview: Some(CHAR_VER_L), ..s2[cell_index(r, c, cols_g)] })
                        } else {
                            s2[cell_index(r, c, cols_g)]
                        }) by {
                            lemma_rowmajor_bound(r, c, rows_g, cols_g);
                            if cell_index(r, c, cols_g) == i as int {
                                lemma_rowmajor_injective(r, c, row as int, from_col as int, cols_g);
                            }
                        }
                    }
                    row = row + 1;
                }
                proof {
                    lemma_rowmajor_bound(to_row as int, from_col as int, rows_g, cols_g);
                    assert(cell_index(to_row as int, from_col as int, cols_g) < buf_len);
                }
                let head_i = to_row * cols_n + from_col;
                grid_buffer.set_preview(head_i, CHAR_ARROW_DOWN);
                proof {
                    assert forall|r: int, c: int|
                        0 <= r < rows_g && 0 <= c < cols_g implies final(grid_buffer).data@[
                        #[trigger] cell_index(r, c, cols_g)
                    ] == line_draw_cell(
                        old(grid_buffer).data@[cell_index(r, c, cols_g)],
                        self.direction,
                        from_row as int,
                        from_col as int,
                        to_row as int,
                        to_col as int,
                        r,
                        c,
                    ) by {
                        lemma_rowmajor_bound(r, c, rows_g, cols_g);
                        if cell_index(r, c, cols_g) == head_i as int {
                            lemma_rowmajor_injective(r, c, to_row as int, from_col as int, cols_g);
                        }
                    }
                }
            },
            LineDirection::RightToLeft => {
                let mut col = to_col;
                while col <= from_col
                    invariant
                        to_col <= col,
                        col <= from_col + 1 || col == to_col,
                        (from_row as int) < rows_g,
                        (from_col as int) < cols_g,
                        (to_col as int) < cols_g,
                        rows_g <= usize::MAX,
                        cols_g <= usize::MAX,
                        grid_buffer.wf(),
                        grid_buffer.grid_size == old(grid_buffer).grid_size,
                        grid_buffer.current_selection == old(grid_buffer).current_selection,
                        grid_buffer.data@.len() == s2.len(),
                        s2.len() == rows_g * cols_g,
                        buf_len == grid_buffer.data@.len(),
                        cols_n as int == cols_g,
                        forall|r: int, c: int|
                            0 <= r < rows_g && 0 <= c < cols_g ==> grid_buffer.data@[
                                #[trigger] cell_index(r, c, cols_g)
                            ] == (if r == from_row && to_col <= c < col {
                                (GridCell { preview: Some(CHAR_HOR_L), ..s2[cell_index(r, c, cols_g)] })
                            } else {
                                s2[cell_index(r, c, cols_g)]
                            }),
                    decreases from_col + 1 - col,
                {
                    proof {
                        lemma_rowmajor_bound(from_row as int, col as int, rows_g, cols_g);
                        assert(cell_index(from_row as int, col as int, cols_g) < buf_len);
                    }
                    let i = from_row * cols_n + col;
                    grid_buffer.set_preview(i, CHAR_HOR_L);
                    proof {
                        assert forall|r: int, c: int|
                            0 <= r < rows_g && 0 <= c < cols_g implies grid_buffer.data@[
                            #[trigger] cell_index(r, c, cols_g)
                        ] == (if r == from_row && to_col <= c < col + 1 {
                            (GridCell { preview: Some(CHAR_HOR_L), ..s2[cell_index(r, c, cols_g)] })
                        } else {
                            s2[cell_index(r, c, cols_g)]
                        }) by {
                            lemma_rowmajor_bound(r, c, rows_g, cols_g);
                            if cell_index(r, c, cols_g) == i as int {
                                lemma_rowmajor_injective(r, c, from_row as int, col as int, cols_g);
                            }
                        }
                    }
                    col = col + 1;
                }
                proof {
                    lemma_rowmajor_bound(from_row as int, to_col as int, rows_g, cols_g);
                    assert(cell_index(from_row as int, to_col as int, cols_g) < buf_len);
                }
                let head_i = from_row * cols_n + to_col;
                grid_buffer.set_preview(head_i, CHAR_ARROW_LEFT);
                proof {
                    assert forall|r: int, c: int|
                        0 <= r < rows_g && 0 <= c < cols_g implies final(grid_buffer).data@[
                        #[trigger] cell_index(r, c, cols_g)
                    ] == line_draw_cell(
                        old(grid_buffer).data@[cell_index(r, c, cols_g)],
                        self.direction,
                        from_row as int,
                        from_col as int,
                        to_row as int,
                        to_col as int,
                        r,
                        c,
                    ) by {
                        lemma_rowmajor_bound(r, c, rows_g, cols_g);
                        if cell_index(r, c, cols_g) == head_i as int {
                            lemma_rowmajor_injective(r, c, from_row as int, to_col as int, cols_g);
                        }
                    }
                }
            },
            LineDirection::LeftToRight => {
                let mut col = from_col;
                while col <= to_col
                    invariant
                        from_col <= col,
                        col <= to_col + 1 || col == from_col,
                        (from_row as int) < rows_g,
                        (to_col as int) < cols_g,
                        rows_g <= usize::MAX,
                        cols_g <= usize::MAX,
                        grid_buffer.wf(),
                        grid_buffer.grid_size == old(grid_buffer).grid_size,
                        grid_buffer.current_selection == old(grid_buffer).current_selection,
                        grid_buffer.data@.len() == s2.len(),
                        s2.len() == rows_g * cols_g,
                        buf_len == grid_buffer.data@.len(),
                        cols_n as int == cols_g,
                        forall|r: int, c: int|
                            0 <= r < rows_g && 0 <= c < cols_g ==> grid_buffer.data@[
                                #[trigger] cell_index(r, c, cols_g)
                            ] == (if r == from_row && from_col <= c < col {
                                (GridCell { preview: Some(CHAR_HOR_L), ..s2[cell_index(r, c, cols_g)] })
                            } else {
                                s2[cell_index(r, c, cols_g)]
                            }),
                    decreases to_col + 1 - col,
                {
                    proof {
                        lemma_rowmajor_bound(from_row as int, col as int, rows_g, cols_g);
                        assert(cell_index(from_row as int, col as int, cols_g) < buf_len);
                    }
                    let i = from_row * cols_n + col;
                    grid_buffer.set_preview(i, CHAR_HOR_L);
                    proof {
                        assert forall|r: int, c: int|
                            0 <= r < rows_g && 0 <= c < cols_g implies grid_buffer.data@[
                            #[trigger] cell_index(r, c, cols_g)
                        ] == (if r == from_row && from_col <= c < col + 1 {
                            (GridCell { preview: Some(CHAR_HOR_L), ..s2[cell_index(r, c, cols_g)] })
                        } else {
                            s2[cell_index(r, c, cols_g)]
                        }) by {
                            lemma_rowmajor_bound(r, c, rows_g, cols_g);
                            if cell_index(r, c, cols_g) == i as int {
                                lemma_rowmajor_injective(r, c, from_row as int, col as int, cols_g);
                            }
                        }
                    }
                    col = col + 1;
                }
                proof {
                    lemma_rowmajor_bound(from_row as int, to_col as int, rows_g, cols_g);
                    assert(cell_index(from_row as int, to_col as int, cols_g) < buf_len);
                }
                let head_i = from_row * cols_n + to_col;
                grid_buffer.set_preview(head_i, CHAR_ARROW_RIGHT);
                proof {
                    assert forall|r: int, c: int|
                        0 <= r < rows_g && 0 <= c < cols_g implies final(grid_buffer).data@[
                        #[trigger] cell_index(r, c, cols_g)
                    ] == line_draw_cell(
                        old(grid_buffer).data@[cell_index(r, c, cols_g)],
                        self.direction,
                        from_row as int,
                        from_col as int,
                        to_row as int,
                        to_col as int,
                        r,
                        c,
                    ) by {
                        lemma_rowmajor_bound(r, c, rows_g, cols_g);
                        if cell_index(r, c, cols_g) == head_i as int {
                            lemma_rowmajor_injective(r, c, from_row as int, to_col as int, cols_g);
                        }
                    }
                }
            },
        }
    }

    /// Bake the staged preview into content through the overlap table and
    /// leave preview mode.
    pub fn commit(&mut self, grid_buffer: &mut GridList, history: &mut History)
        requires
            old(history).wf(),
        ensures
            final(self).start == old(self).start,
            final(self).end == old(self).end,
            final(self).direction == old(self).direction,
            final(self).preview == false,
            final(grid_buffer).wf() == old(grid_buffer).wf(),
            final(grid_buffer).grid_size == old(grid_buffer).grid_size,
            final(grid_buffer).current_selection == old(grid_buffer).current_selection,
            final(grid_buffer).data@ == commit_cells(old(grid_buffer).data@),
            final(history).wf(),
            commit_edits(old(grid_buffer).data@, DrawingTools::Line).len() == 0 ==> *final(history)
                == *old(history),
            commit_edits(old(grid_buffer).data@, DrawingTools::Line).len() > 0 ==> {
                &&& final(history).versions@.len() == old(history).index + 1
                &&& final(history).versions@[old(history).index as int].edits@ == commit_edits(
                    old(grid_buffer).data@,
                    DrawingTools::Line,
                )
                &&& final(history).index == old(history).index + 1
            },
    {
        grid_buffer.commit_all(history, DrawingTools::Line);
        self.preview = false;
    }

    pub fn is_preview(&self) -> (r: bool)
        ensures
            r == self.preview,
    {
        self.preview
    }

    pub fn is_manual_commit(&self) -> (r: bool)
        ensures
            r == false,
    {
        false
    }
}

} // verus!
