//! The text tool: a keyboard-driven cursor that types characters straight
//! into committed content, one recorded version per key.

use vstd::prelude::*;

use crate::consts::CHAR_SPACE;
use crate::grid_list::{cell_index, highlighted_cells, lemma_rowmajor_bound, GridList};
use crate::history::{saved_once, write_content, Edit, History, Version};
use crate::tools::DrawingTools;

verus! {

/// One key event, reduced to what the text tool reacts to.
pub enum TextInput {
    Character(char),
    Backspace,
    ArrowDown,
    ArrowUp,
    ArrowRight,
    ArrowLeft,
    Enter,
    Other,
}

/// The cursor one step forward: right within the row, wrapping to the start
/// of the next row, pinned at the grid's last cell.
pub open spec fn spec_step_forward(r: int, c: int, rows: int, cols: int) -> (int, int) {
    if r >= rows - 1 && c >= cols - 1 {
        (r, c)
    } else if c >= cols - 1 {
        (r + 1, 0)
    } else {
        (r, c + 1)
    }
}

/// The cursor one step backward: left within the row, wrapping to the end
/// of the previous row, pinned at the origin.
pub open spec fn spec_step_backward(r: int, c: int, cols: int) -> (int, int) {
    if r == 0 && c == 0 {
        (0, 0)
    } else if c == 0 {
        (r - 1, cols - 1)
    } else {
        (r, c - 1)
    }
}

/// The typing cursor, the position where the current line of typing began,
/// and the version being recorded.
pub struct TextTool {
    pub cursor_position: (usize, usize),
    pub last_edit_position: Option<(usize, usize)>,
    pub version: Version,
}

impl TextTool {
    pub fn new() -> (r: Self)
        ensures
            r.cursor_position == (0usize, 0usize),
            r.last_edit_position is None,
            r.version.edits@.len() == 0,
    {
        Self { cursor_position: (0, 0), last_edit_position: None, version: Version::new() }
    }

    /// Step the cursor forward one cell.
    pub fn cursor_step_forward(&mut self, rows: usize, cols: usize)
        requires
            rows >= 1,
            cols >= 1,
        ensures
            final(self).last_edit_position == old(self).last_edit_position,
            final(self).version == old(self).version,
            (final(self).cursor_position.0 as int, final(self).cursor_position.1 as int)
                == spec_step_forward(
                old(self).cursor_position.0 as int,
                old(self).cursor_position.1 as int,
                rows as int,
                cols as int,
            ),
    {
        let (r, c) = self.cursor_position;
        if r >= rows - 1 && c >= cols - 1 {
        } else if c >= cols - 1 {
            self.cursor_position = (r + 1, 0);
        } else {
            self.cursor_position = (r, c + 1);
        }
    }

    /// Step the cursor backward one cell.
    pub fn cursor_step_backward(&mut self, cols: usize)
        requires
            cols >= 1,
        ensures
            final(self).last_edit_position == old(self).last_edit_position,
            final(self).version == old(self).version,
            (final(self).cursor_position.0 as int, final(self).cursor_position.1 as int)
                == spec_step_backward(
                old(self).cursor_position.0 as int,
                old(self).cursor_position.1 as int,
                cols as int,
            ),
    {
        let (r, c) = self.cursor_position;
        if r == 0 && c == 0 {
        } else if c == 0 {
            self.cursor_position = (r - 1, cols - 1);
        } else {
            self.cursor_position = (r, c - 1);
        }
    }

    /// Begin typing at the cursor cell reached by a click.
    pub fn begin_at(&mut self, grid_list: &mut GridList, row: usize, col: usize)
        requires
            old(grid_list).wf(),
            (row as int) < old(grid_list).rows(),
            (col as int) < old(grid_list).cols(),
        ensures
            final(self).cursor_position == (row, col),
            final(self).last_edit_position == Some((row, col)),
            final(self).version == old(self).version,
            final(grid_list).wf(),
            final(grid_list).grid_size == old(grid_list).grid_size,
            final(grid_list).current_selection is None,
            final(grid_list).data@ == highlighted_cells(
                old(grid_list).data@,
                cell_index(row as int, col as int, old(grid_list).cols()),
            ),
    {
        let ghost rows_g = grid_list.rows();
        let ghost cols_g = grid_list.cols();
        let cols_n = grid_list.grid_size.1;
        self.cursor_position = (row, col);
        self.last_edit_position = Some((row, col));
        let buf_len = grid_list.data.len();
        proof {
            lemma_rowmajor_bound(row as int, col as int, rows_g, cols_g);
            assert(cell_index(row as int, col as int, cols_g) < buf_len);
        }
        let i = row * cols_n + col;
        grid_list.highlight(i);
        proof {
            assert(grid_list.data@ =~= highlighted_cells(old(grid_list).data@, i as int));
        }
    }

    /// React to one key: type or delete a character, move the cursor, or
    /// return to the line start.  The cursor cell is re-highlighted and any
    /// recorded edit is saved as its own version.
    pub fn input(&mut self, key: &TextInput, grid_list: &mut GridList, history: &mut History)
        requires
            old(grid_list).wf(),
            old(history).wf(),
            old(grid_list).rows() >= 1,
            old(grid_list).cols() >= 1,
            (old(self).cursor_position.0 as int) < old(grid_list).rows(),
            (old(self).cursor_position.1 as int) < old(grid_list).cols(),
            old(self).last_edit_position is Some ==> ((old(self).last_edit_position->0).0 as int)
                < old(grid_list).rows() && ((old(self).last_edit_position->0).1 as int) < old(
                grid_list,
            ).cols(),
            (*key) is Character ==> key->Character_0 != '\n',
        ensures
            final(grid_list).wf(),
            final(grid_list).grid_size == old(grid_list).grid_size,
            final(grid_list).current_selection is None,
            crate::grid_list::newline_free(old(grid_list).data@) ==> crate::grid_list::newline_free(
                final(grid_list).data@,
            ),
            final(history).wf(),
            final(self).version.edits@.len() == 0,
            (final(self).cursor_position.0 as int) < old(grid_list).rows(),
            (final(self).cursor_position.1 as int) < old(grid_list).cols(),
            ({
                let s = old(grid_list).data@;
                let rows = old(grid_list).rows();
                let cols = old(grid_list).cols();
                let r0 = old(self).cursor_position.0 as int;
                let c0 = old(self).cursor_position.1 as int;
                let cur1 = (
                    final(self).cursor_position.0 as int,
                    final(self).cursor_position.1 as int,
                );
                let i1 = cell_index(cur1.0, cur1.1, cols);
                match *key {
                    TextInput::Character(ch) => {
                        let i0 = cell_index(r0, c0, cols);
                        &&& cur1 == spec_step_forward(r0, c0, rows, cols)
                        &&& final(self).last_edit_position == (
                        if old(self).last_edit_position is Some {
                            old(self).last_edit_position
                        } else {
                            Some(old(self).cursor_position)
                        })
                        &&& final(grid_list).data@ == highlighted_cells(
                            write_content(s, i0, ch),
                            i1,
                        )
                        &&& saved_once(
                            *old(history),
                            *final(history),
                            old(self).version.edits@.push(
                                Edit {
                                    index: i0 as usize,
                                    from: s[i0].content,
                                    to: ch,
                                    tool: DrawingTools::Text,
                                },
                            ),
                        )
                    },
                    TextInput::Backspace => {
                        let ib = cell_index(
                            spec_step_backward(r0, c0, cols).0,
                            spec_step_backward(r0, c0, cols).1,
                            cols,
                        );
                        &&& cur1 == spec_step_backward(r0, c0, cols)
                        &&& final(self).last_edit_position == old(self).last_edit_position
                        &&& final(grid_list).data@ == highlighted_cells(
                            write_content(s, ib, CHAR_SPACE),
                            i1,
                        )
                        &&& saved_once(
                            *old(history),
                            *final(history),
                            old(self).version.edits@.push(
                                Edit {
                                    index: ib as usize,
                                    from: s[ib].content,
                                    to: CHAR_SPACE,
                                    tool: DrawingTools::Text,
                                },
                            ),
                        )
                    },
                    TextInput::ArrowDown => {
                        &&& cur1 == (if r0 < rows - 1 {
                            (r0 + 1, c0)
                        } else {
                            (r0, c0)
                        })
                        &&& final(self).last_edit_position == (if r0 < rows - 1 {
                            None::<(usize, usize)>
                        } else {
                            old(self).last_edit_position
                        })
                        &&& final(grid_list).data@ == highlighted_cells(s, i1)
                        &&& saved_once(*old(history), *final(history), old(self).version.edits@)
                    },
                    TextInput::ArrowUp => {
                        &&& cur1 == (if r0 > 0 {
                            (r0 - 1, c0)
                        } else {
                            (r0, c0)
                        })
                        &&& final(self).last_edit_position == (if r0 > 0 {
                            None::<(usize, usize)>
                        } else {
                            old(self).last_edit_position
                        })
                        &&& final(grid_list).data@ == highlighted_cells(s, i1)
                        &&& saved_once(*old(history), *final(history), old(self).version.edits@)
                    },
                    TextInput::ArrowRight => {
                        &&& cur1 == spec_step_forward(r0, c0, rows, cols)
                        &&& final(self).last_edit_position is None
                        &&& final(grid_list).data@ == highlighted_cells(s, i1)
                        &&& saved_once(*old(history), *final(history), old(self).version.edits@)
                    },
                    TextInput::ArrowLeft => {
                        &&& cur1 == spec_step_backward(r0, c0, cols)
                        &&& final(self).last_edit_position is None
                        &&& final(grid_list).data@ == highlighted_cells(s, i1)
                        &&& saved_once(*old(history), *final(history), old(self).version.edits@)
                    },
                    TextInput::Enter => {
                        let returned = old(self).last_edit_position is Some && ((old(
                            self,
                        ).last_edit_position->0).0 as int) < rows - 1;
                        &&& cur1 == (if returned {
                            (
                                (old(self).last_edit_position->0).0 + 1,
                                (old(self).last_edit_position->0).1 as int,
                            )
                        } else {
                            (r0, c0)
                        })
                        &&& final(self).last_edit_position == (if returned {
                            Some(final(self).cursor_position)
                        } else {
                            old(self).last_edit_position
                        })
                        &&& final(grid_list).data@ == highlighted_cells(s, i1)
                        &&& saved_once(*old(history), *final(history), old(self).version.edits@)
                    },
                    TextInput::Other => {
                        &&& cur1 == (r0, c0)
                        &&& final(self).last_edit_position == old(self).last_edit_position
                        &&& final(grid_list).data@ == highlighted_cells(s, i1)
                        &&& saved_once(*old(history), *final(history), old(self).version.edits@)
                    },
                }
            }),
    {
        let ghost rows_g = grid_list.rows();
        let ghost cols_g = grid_list.cols();
        let rows_n = grid_list.grid_size.0;
        let cols_n = grid_list.grid_size.1;
        let buf_len = grid_list.data.len();
        let ghost s0 = grid_list.data@;

        match key {
            TextInput::Character(c) => {
                if self.last_edit_position.is_none() {
                    self.last_edit_position = Some(self.cursor_position);
                }
                let (row, col) = self.cursor_position;
                proof {
                    lemma_rowmajor_bound(row as int, col as int, rows_g, cols_g);
                    assert(cell_index(row as int, col as int, cols_g) < buf_len);
                }
                let i = row * cols_n + col;
                let from_content = grid_list.get(i).read_content();
                grid_list.set(i, *c);
                self.cursor_step_forward(rows_n, cols_n);
                self.version.push(i, from_content, *c, DrawingTools::Text);
            },
            TextInput::Backspace => {
                self.cursor_step_backward(cols_n);
                let (row, col) = self.cursor_position;
                proof {
                    lemma_rowmajor_bound(row as int, col as int, rows_g, cols_g);
                    assert(cell_index(row as int, col as int, cols_g) < buf_len);
                }
                let i = row * cols_n + col;
                let from_content = grid_list.get(i).read_content();
                grid_list.set(i, CHAR_SPACE);
                self.version.push(i, from_content, CHAR_SPACE, DrawingTools::Text);
            },
            TextInput::ArrowDown => {
                if self.cursor_position.0 < rows_n - 1 {
                    self.cursor_position = (self.cursor_position.0 + 1, self.cursor_position.1);
                    self.last_edit_position = None;
                }
            },
            TextInput::ArrowUp => {
                if self.cursor_position.0 > 0 {
                    self.cursor_position = (self.cursor_position.0 - 1, self.cursor_position.1);
                    self.last_edit_position = None;
                }
            },
            TextInput::ArrowRight => {
                self.cursor_step_forward(rows_n, cols_n);
                self.last_edit_position = None;
            },
            TextInput::ArrowLeft => {
                self.cursor_step_backward(cols_n);
                self.last_edit_position = None;
            },
            TextInput::Enter => {
                if let Some(pos) = self.last_edit_position {
                    if pos.0 < rows_n - 1 {
                        self.cursor_position = (pos.0 + 1, pos.1);
                        self.last_edit_position = Some(self.cursor_position);
                    }
                }
            },
            TextInput::Other => {},
        }

        proof {
            if crate::grid_list::newline_free(s0) {
                assert forall|j: int|
                    0 <= j < grid_list.data@.len() implies (#[trigger] grid_list.data@[j].content)
                    != '\n' by {}
                assert(crate::grid_list::newline_free(grid_list.data@));
            }
        }
        let (row, col) = self.cursor_position;
        proof {
            lemma_rowmajor_bound(row as int, col as int, rows_g, cols_g);
            assert(cell_index(row as int, col as int, cols_g) < buf_len);
        }
        let i = row * cols_n + col;
        let ghost before_highlight = grid_list.data@;
        grid_list.highlight(i);
        proof {
            assert(grid_list.data@ =~= highlighted_cells(before_highlight, i as int));
            if crate::grid_list::newline_free(before_highlight) {
                assert forall|j: int|
                    0 <= j < grid_list.data@.len() implies (#[trigger] grid_list.data@[j].content)
                    != '\n' by {
                    assert(grid_list.data@[j] == highlighted_cells(
                        before_highlight,
                        i as int,
                    )[j]);
                }
                assert(crate::grid_list::newline_free(grid_list.data@));
            }
        }
        history.save_version(self.version.duplicate());
        proof {
            assert(history.versions@.subrange(0, old(history).index as int)
                =~= old(history).versions@.subrange(0, old(history).index as int));
        }
        self.version.clear();
    }
}

} // verus!
