//! The text shape: a run of typed characters at a fixed position.  Unlike
//! the other shapes it writes committed content directly and is committed by
//! an explicit user action rather than on mouse-up.

use vstd::prelude::*;

use crate::grid_cell::GridCell;
use crate::grid_list::{cell_index, GridList};
use crate::textio::str_chars;

verus! {

/// The cell after the typing pass writes position `k` of the run: the typed
/// character where one exists, a space where the run has shrunk.
pub open spec fn typed_cell(orig: GridCell, content: Seq<char>, k: int) -> GridCell {
    GridCell {
        content: if 0 <= k < content.len() {
            content[k]
        } else {
            ' '
        },
        ..orig
    }
}

/// What a typing pass needs of the grid: a well-formed buffer with room for
/// the whole run, and a run without literal newlines (the plain-text file
/// format depends on no newline ever being committed as cell content; the
/// return key reaches the text tool as its own event, not as a character).
pub open spec fn text_draw_req(sh: TextShape, g: GridList) -> bool {
    &&& g.wf()
    &&& cell_index(sh.position.0 as int, sh.position.1 as int, g.cols()) + sh.max_len
        < g.data@.len()
    &&& 0 <= cell_index(sh.position.0 as int, sh.position.1 as int, g.cols())
    &&& forall|j: int| 0 <= j < sh.content@.len() ==> (#[trigger] sh.content@[j]) != '\n'
}

/// What a typing pass leaves behind, cell for cell.
pub open spec fn text_draw_post(sh: TextShape, og: GridList, ng: GridList) -> bool {
    &&& ng.wf()
    &&& (crate::grid_list::newline_free(og.data@) ==> crate::grid_list::newline_free(ng.data@))
    &&& ng.grid_size == og.grid_size
    &&& ng.current_selection == og.current_selection
    &&& ng.data@.len() == og.data@.len()
    &&& forall|i: int|
        0 <= i < og.data@.len() ==> #[trigger] ng.data@[i] == ({
            let base = cell_index(sh.position.0 as int, sh.position.1 as int, og.cols());
            if base <= i <= base + sh.max_len {
                typed_cell(og.data@[i], sh.content@, i - base)
            } else {
                og.data@[i]
            }
        })
}

/// A run of text being typed at a grid position.  `max_len` remembers the
/// longest the run has ever been, so a redraw blanks what a deletion left
/// behind.
#[derive(Debug)]
pub struct TextShape {
    pub position: (usize, usize),
    pub content: Vec<char>,
    pub preview: bool,
    pub max_len: usize,
}

impl TextShape {
    pub fn new(row: usize, col: usize, text: &str) -> (r: Self)
        ensures
            r.position == (row, col),
            r.content@ == text@,
            r.preview == true,
            r.max_len == 0,
    {
        Self { position: (row, col), content: str_chars(text), preview: true, max_len: 0 }
    }

    pub fn push_char(&mut self, c: char)
        requires
            old(self).content@.len() < usize::MAX,
        ensures
            final(self).position == old(self).position,
            final(self).preview == old(self).preview,
            final(self).content@ == old(self).content@.push(c),
            final(self).max_len == (if old(self).max_len >= old(self).content@.len() + 1 {
                old(self).max_len as int
            } else {
                old(self).content@.len() as int + 1
            }),
    {
        self.content.push(c);
        let n = self.content.len();
        if n > self.max_len {
            self.max_len = n;
        }
    }

    pub fn pop_char(&mut self)
        ensures
            final(self).position == old(self).position,
            final(self).preview == old(self).preview,
            final(self).max_len == old(self).max_len,
            old(self).content@.len() == 0 ==> final(self).content@ == old(self).content@,
            old(self).content@.len() > 0 ==> final(self).content@ == old(
                self,
            ).content@.drop_last(),
    {
        let _ = self.content.pop();
    }

    /// Write the run into committed content: one cell per position up to
    /// `max_len`, the typed character where one exists and a space where the
    /// run has shrunk.
    pub fn draw(&self, grid_buffer: &mut GridList)
        requires
            text_draw_req(*self, *old(grid_buffer)),
        ensures
            text_draw_post(*self, *old(grid_buffer), *final(grid_buffer)),
    {
        let ghost cols_g = grid_buffer.cols();
        let cols_n = grid_buffer.grid_size.1;
        let (row, col) = self.position;
        let buf_len = grid_buffer.data.len();
        let ghost s0 = grid_buffer.data@;
        let base = row * cols_n + col;
        proof {
            assert(base as int == cell_index(row as int, col as int, cols_g));
        }
        let mut index: usize = 0;
        while index <= self.max_len
            invariant
                index <= self.max_len + 1,
                base + self.max_len < buf_len,
                buf_len == grid_buffer.data@.len(),
                grid_buffer.data@.len() == s0.len(),
                grid_buffer.wf(),
                grid_buffer.grid_size == old(grid_buffer).grid_size,
                grid_buffer.current_selection == old(grid_buffer).current_selection,
                forall|j: int|
                    0 <= j < s0.len() ==> #[trigger] grid_buffer.data@[j] == (if base <= j < base
                        + index {
                        typed_cell(s0[j], self.content@, j - base)
                    } else {
                        s0[j]
                    }),
            decreases self.max_len + 1 - index,
        {
            let i = base + index;
            let mut cellv = grid_buffer.data[i];
            if index < self.content.len() {
                let ch = self.content[index];
                cellv.set_content(ch);
            } else {
                cellv.set_content(' ');
            }
            grid_buffer.data[i] = cellv;
            proof {
                assert(grid_buffer.data@[i as int] == typed_cell(
                    s0[i as int],
                    self.content@,
                    index as int,
                ));
                assert forall|j: int|
                    0 <= j < s0.len() implies #[trigger] grid_buffer.data@[j] == (if base <= j
                    < base + index + 1 {
                    typed_cell(s0[j], self.content@, j - base)
                } else {
                    s0[j]
                }) by {}
            }
            index = index + 1;
        }
    }

    /// Leave preview mode; the characters are already committed content, so
    /// the grid is untouched.
    pub fn commit(&mut self, grid_buffer: &mut GridList)
        ensures
            final(self).position == old(self).position,
            final(self).content == old(self).content,
            final(self).max_len == old(self).max_len,
            final(self).preview == false,
            *final(grid_buffer) == *old(grid_buffer),
    {
        let _ = grid_buffer;
        self.preview = false;
    }

    pub fn is_preview(&self) -> (r: bool)
        ensures
            r == self.preview,
    {
        self.preview
    }

    pub fn is_manual_commit(&self) -> (r: bool)
        ensures
            r == true,
    {
        true
    }
}

} // verus!
