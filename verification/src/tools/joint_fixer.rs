//! The joint fixer: an interactive tool that recomputes the glyph of the
//! cell under the cursor from its four neighbors' connectors.

use vstd::prelude::*;

use crate::consts::{
    CHAR_CORNER_BL_L, CHAR_CORNER_BR_L, CHAR_CORNER_TL_L, CHAR_CORNER_TR_L, CHAR_CROSS,
    CHAR_HOR_DOWN_L, CHAR_HOR_L, CHAR_HOR_UP_L, CHAR_SPACE, CHAR_VER_L, CHAR_VER_LEFT_L,
    CHAR_VER_RIGHT_L,
};
use crate::grid_cell::GridCell;
use crate::grid_list::{cell_index, lemma_rowmajor_bound, GridList};
use crate::history::{Edit, History, Version};
use crate::tools::DrawingTools;

verus! {

/// Glyphs that reach downward toward the cell below them: seen in the upper
/// neighbor, they connect it to the center.
pub open spec fn connects_down(c: char) -> bool {
    c == CHAR_VER_L || c == CHAR_CORNER_TR_L || c == CHAR_CORNER_TL_L || c == CHAR_HOR_DOWN_L
        || c == CHAR_VER_RIGHT_L || c == CHAR_VER_LEFT_L || c == CHAR_CROSS
}

/// Glyphs that reach upward: seen in the lower neighbor, they connect it to
/// the center.
pub open spec fn connects_up(c: char) -> bool {
    c == CHAR_VER_L || c == CHAR_CORNER_BL_L || c == CHAR_CORNER_BR_L || c == CHAR_HOR_UP_L
        || c == CHAR_VER_RIGHT_L || c == CHAR_VER_LEFT_L || c == CHAR_CROSS
}

/// Glyphs that reach rightward: seen in the left neighbor, they connect it
/// to the center.
pub open spec fn connects_right(c: char) -> bool {
    c == CHAR_HOR_L || c == CHAR_CORNER_TL_L || c == CHAR_CORNER_BL_L || c == CHAR_HOR_UP_L
        || c == CHAR_HOR_DOWN_L || c == CHAR_VER_RIGHT_L || c == CHAR_CROSS
}

/// Glyphs that reach leftward: seen in the right neighbor, they connect it
/// to the center.
pub open spec fn connects_left(c: char) -> bool {
    c == CHAR_HOR_L || c == CHAR_CORNER_TR_L || c == CHAR_CORNER_BR_L || c == CHAR_HOR_UP_L
        || c == CHAR_HOR_DOWN_L || c == CHAR_VER_LEFT_L || c == CHAR_CROSS
}

/// Neighborhood synthesis: derive the center cell's glyph from which of its
/// four neighbors connect toward it.  No connection at all blanks the cell;
/// a straight pair gives a line; a perpendicular pair gives the matching
/// corner; three give the matching tee; four give a cross; anything else
/// (a single connection) leaves the cell alone.
pub open spec fn resolve_neighborhood(
    uc: Option<char>,
    dc: Option<char>,
    lc: Option<char>,
    rc: Option<char>,
) -> Option<char> {
    let up = uc is Some && connects_down(uc->0);
    let down = dc is Some && connects_up(dc->0);
    let left = lc is Some && connects_right(lc->0);
    let right = rc is Some && connects_left(rc->0);
    if !up && !down && !left && !right {
        Some(CHAR_SPACE)
    } else if up && down && !left && !right {
        Some(CHAR_VER_L)
    } else if left && right && !up && !down {
        Some(CHAR_HOR_L)
    } else if up && left && !down && !right {
        Some(CHAR_CORNER_BR_L)
    } else if up && right && !down && !left {
        Some(CHAR_CORNER_BL_L)
    } else if down && left && !up && !right {
        Some(CHAR_CORNER_TR_L)
    } else if down && right && !up && !left {
        Some(CHAR_CORNER_TL_L)
    } else if up && down && left && !right {
        Some(CHAR_VER_LEFT_L)
    } else if up && down && right && !left {
        Some(CHAR_VER_RIGHT_L)
    } else if up && left && right && !down {
        Some(CHAR_HOR_UP_L)
    } else if down && left && right && !up {
        Some(CHAR_HOR_DOWN_L)
    } else if up && down && left && right {
        Some(CHAR_CROSS)
    } else {
        None
    }
}

/// The committed glyph of an optional neighbor cell, with a plain space
/// counting as no neighbor at all.
pub open spec fn opt_content(s: Seq<GridCell>, oi: Option<usize>) -> Option<char> {
    match oi {
        None => None,
        Some(i) => if s[i as int].content == CHAR_SPACE {
            None
        } else {
            Some(s[i as int].content)
        },
    }
}

/// The joint fixer accumulates one version of all the glyphs it rewrites
/// during a gesture.
pub struct JointFixerTool {
    pub version: Version,
}

impl JointFixerTool {
    pub fn new() -> (r: Self)
        ensures
            r.version.edits@.len() == 0,
    {
        Self { version: Version::new() }
    }

    /// Resolve the replacement glyph for a cell from its four neighbors'
    /// committed content, given as optional linear indices.
    pub fn calculate_content(
        &self,
        grid_list: &GridList,
        u: Option<usize>,
        d: Option<usize>,
        l: Option<usize>,
        r: Option<usize>,
    ) -> (res: Option<char>)
        requires
            u is Some ==> (u->0 as int) < grid_list.data@.len(),
            d is Some ==> (d->0 as int) < grid_list.data@.len(),
            l is Some ==> (l->0 as int) < grid_list.data@.len(),
            r is Some ==> (r->0 as int) < grid_list.data@.len(),
        ensures
            res == resolve_neighborhood(
                opt_content(grid_list.data@, u),
                opt_content(grid_list.data@, d),
                opt_content(grid_list.data@, l),
                opt_content(grid_list.data@, r),
            ),
    {
        let uc = match u {
            Some(i) => {
                let c = grid_list.get(i).read_content();
                if c == CHAR_SPACE {
                    None
                } else {
                    Some(c)
                }
            },
            None => None,
        };
        let dc = match d {
            Some(i) => {
                let c = grid_list.get(i).read_content();
                if c == CHAR_SPACE {
                    None
                } else {
                    Some(c)
                }
            },
            None => None,
        };
        let lc = match l {
            Some(i) => {
                let c = grid_list.get(i).read_content();
                if c == CHAR_SPACE {
                    None
                } else {
                    Some(c)
                }
            },
            None => None,
        };
        let rc = match r {
            Some(i) => {
                let c = grid_list.get(i).read_content();
                if c == CHAR_SPACE {
                    None
                } else {
                    Some(c)
                }
            },
            None => None,
        };

        let up = match uc {
            Some(c) => connector_down(c),
            None => false,
        };
        let down = match dc {
            Some(c) => connector_up(c),
            None => false,
        };
        let left = match lc {
            Some(c) => connector_right(c),
            None => false,
        };
        let right = match rc {
            Some(c) => connector_left(c),
            None => false,
        };

        if !up && !down && !left && !right {
            Some(CHAR_SPACE)
        } else if up && down && !left && !right {
            Some(CHAR_VER_L)
        } else if left && right && !up && !down {
            Some(CHAR_HOR_L)
        } else if up && left && !down && !right {
            Some(CHAR_CORNER_BR_L)
        } else if up && right && !down && !left {
            Some(CHAR_CORNER_BL_L)
        } else if down && left && !up && !right {
            Some(CHAR_CORNER_TR_L)
        } else if down && right && !up && !left {
            Some(CHAR_CORNER_TL_L)
        } else if up && down && left && !right {
            Some(CHAR_VER_LEFT_L)
        } else if up && down && right && !left {
            Some(CHAR_VER_RIGHT_L)
        } else if up && left && right && !down {
            Some(CHAR_HOR_UP_L)
        } else if down && left && right && !up {
            Some(CHAR_HOR_DOWN_L)
        } else if up && down && left && right {
            Some(CHAR_CROSS)
        } else {
            None
        }
    }

    /// One fixing step: look at the four neighbors of `(row, col)`, and when
    /// they determine a confident replacement, write it into the cell and
    /// record the change in the gesture's version.  The edits carry the line
    /// tool's tag, so the shape eraser (which ignores selection moves) can
    /// erase fixed joints like any drawn glyph.
    pub fn fix_at(&mut self, grid_list: &mut GridList, row: usize, col: usize)
        requires
            old(grid_list).wf(),
            (row as int) < old(grid_list).rows(),
            (col as int) < old(grid_list).cols(),
        ensures
            final(grid_list).wf(),
            final(grid_list).grid_size == old(grid_list).grid_size,
            final(grid_list).current_selection == old(grid_list).current_selection,
            ({
                let s = old(grid_list).data@;
                let rows = old(grid_list).rows();
                let cols = old(grid_list).cols();
                let i = cell_index(row as int, col as int, cols);
                let u: Option<usize> = if row == 0 {
                    None
                } else {
                    Some(((row - 1) * cols + col) as usize)
                };
                let d: Option<usize> = if row as int >= rows - 1 {
                    None
                } else {
                    Some(((row + 1) * cols + col) as usize)
                };
                let l: Option<usize> = if col == 0 {
                    None
                } else {
                    Some((i - 1) as usize)
                };
                let r: Option<usize> = if col as int >= cols - 1 {
                    None
                } else {
                    Some((i + 1) as usize)
                };
                match resolve_neighborhood(
                    opt_content(s, u),
                    opt_content(s, d),
                    opt_content(s, l),
                    opt_content(s, r),
                ) {
                    Some(glyph) => {
                        &&& final(grid_list).data@ == s.update(
                            i,
                            (GridCell { content: glyph, ..s[i] }),
                        )
                        &&& final(self).version.edits@ == old(self).version.edits@.push(
                            Edit {
                                index: i as usize,
                                from: s[i].content,
                                to: glyph,
                                tool: DrawingTools::Line,
                            },
                        )
                    },
                    None => {
                        &&& final(grid_list).data@ == s
                        &&& *final(self) == *old(self)
                    },
                }
            }),
    {
        let ghost rows_g = grid_list.rows();
        let ghost cols_g = grid_list.cols();
        let cols_n = grid_list.grid_size.1;
        let rows_n = grid_list.grid_size.0;
        let buf_len = grid_list.data.len();
        proof {
            lemma_rowmajor_bound(row as int, col as int, rows_g, cols_g);
            assert(cell_index(row as int, col as int, cols_g) < buf_len);
        }
        let i = row * cols_n + col;

        let up_i = if row == 0 {
            None
        } else {
            proof {
                lemma_rowmajor_bound(row as int - 1, col as int, rows_g, cols_g);
            }
            Some((row - 1) * cols_n + col)
        };
        let down_i = if row >= rows_n - 1 {
            None
        } else {
            proof {
                lemma_rowmajor_bound(row as int + 1, col as int, rows_g, cols_g);
            }
            Some((row + 1) * cols_n + col)
        };
        let left_i = if col == 0 {
            None
        } else {
            Some(i - 1)
        };
        let right_i = if col >= cols_n - 1 {
            None
        } else {
            proof {
                lemma_rowmajor_bound(row as int, col as int + 1, rows_g, cols_g);
            }
            Some(i + 1)
        };

        if let Some(content) = self.calculate_content(grid_list, up_i, down_i, left_i, right_i) {
            let cell = grid_list.get(i);
            let from_content = cell.read_content();
            grid_list.set(i, content);
            self.version.push(i, from_content, content, DrawingTools::Line);
        }
    }

    /// Save the gesture's accumulated version into the history.  The version
    /// keeps accumulating across gestures until the tool is replaced.
    pub fn finish(&self, history: &mut History)
        requires
            old(history).wf(),
        ensures
            final(history).wf(),
            self.version.edits@.len() == 0 ==> *final(history) == *old(history),
            self.version.edits@.len() > 0 ==> {
                &&& final(history).versions@ == old(history).versions@.subrange(
                    0,
                    old(history).index as int,
                ).push(final(history).versions@[old(history).index as int])
                &&& final(history).versions@[old(history).index as int].edits@
                    == self.version.edits@
                &&& final(history).index == old(history).index + 1
            },
    {
        history.save_version(self.version.duplicate());
    }
}

/// Whether the glyph reaches downward (exec side of `connects_down`).
pub fn connector_down(c: char) -> (r: bool)
    ensures
        r == connects_down(c),
{
    c == CHAR_VER_L || c == CHAR_CORNER_TR_L || c == CHAR_CORNER_TL_L || c == CHAR_HOR_DOWN_L
        || c == CHAR_VER_RIGHT_L || c == CHAR_VER_LEFT_L || c == CHAR_CROSS
}

/// Whether the glyph reaches upward (exec side of `connects_up`).
pub fn connector_up(c: char) -> (r: bool)
    ensures
        r == connects_up(c),
{
    c == CHAR_VER_L || c == CHAR_CORNER_BL_L || c == CHAR_CORNER_BR_L || c == CHAR_HOR_UP_L
        || c == CHAR_VER_RIGHT_L || c == CHAR_VER_LEFT_L || c == CHAR_CROSS
}

/// Whether the glyph reaches rightward (exec side of `connects_right`).
pub fn connector_right(c: char) -> (r: bool)
    ensures
        r == connects_right(c),
{
    c == CHAR_HOR_L || c == CHAR_CORNER_TL_L || c == CHAR_CORNER_BL_L || c == CHAR_HOR_UP_L
        || c == CHAR_HOR_DOWN_L || c == CHAR_VER_RIGHT_L || c == CHAR_CROSS
}

/// Whether the glyph reaches leftward (exec side of `connects_left`).
pub fn connector_left(c: char) -> (r: bool)
    ensures
        r == connects_left(c),
{
    c == CHAR_HOR_L || c == CHAR_CORNER_TR_L || c == CHAR_CORNER_BR_L || c == CHAR_HOR_UP_L
        || c == CHAR_HOR_DOWN_L || c == CHAR_VER_LEFT_L || c == CHAR_CROSS
}

} // verus!
