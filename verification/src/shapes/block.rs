//! The block shape: a grabbed rectangle of text being moved or pasted,
//! stamped over the grid as a preview that only overwrites non-blank
//! positions.

use vstd::prelude::*;

use crate::grid_list::{commit_cells, commit_edits, discard_cells, place_chars, place_ok, GridList};
use crate::history::History;
use crate::textio::str_chars;
use crate::tools::DrawingTools;

verus! {

/// What placing a block needs of the grid: a well-formed buffer that the
/// whole block lands on, with coordinates that cannot wrap around.
pub open spec fn block_draw_req(sh: BlockShape, g: GridList) -> bool {
    &&& g.wf()
    &&& place_ok(sh.content@, g.rows(), g.cols(), sh.start.0 as int, sh.start.1 as int, sh.start.1 as int)
    &&& sh.start.0 + sh.content@.len() <= usize::MAX
    &&& sh.start.1 + sh.content@.len() <= usize::MAX
}

/// What redrawing a block gesture leaves behind: every stale preview
/// dropped, then the block stamped as previews from its start position.
pub open spec fn block_draw_post(sh: BlockShape, og: GridList, ng: GridList) -> bool {
    &&& ng.wf()
    &&& ng.grid_size == og.grid_size
    &&& ng.current_selection == og.current_selection
    &&& ng.data@ == place_chars(
        discard_cells(og.data@),
        sh.content@,
        og.cols(),
        sh.start.0 as int,
        sh.start.1 as int,
        sh.start.1 as int,
        true,
    )
}

/// A multi-line block of content being placed at a grid position.
pub struct BlockShape {
    pub start: (usize, usize),
    pub end: (usize, usize),
    pub preview: bool,
    pub content: Vec<char>,
}

impl BlockShape {
    pub fn new(row: usize, col: usize, content: String) -> (r: Self)
        ensures
            r.start == (row, col),
            r.end == (row, col),
            r.preview == true,
            r.content@ == content@,
    {
        Self { start: (row, col), end: (row, col), preview: true, content: str_chars(content.as_str()) }
    }

    /// Recompute the block's preview footprint: discard every stale preview,
    /// then stamp the block's non-blank characters from the start position.
    pub fn draw(&self, grid_buffer: &mut GridList)
        requires
            block_draw_req(*self, *old(grid_buffer)),
        ensures
            block_draw_post(*self, *old(grid_buffer), *final(grid_buffer)),
    {
        let (row, col) = self.start;
        grid_buffer.discard_all();
        proof {
            assert(grid_buffer.data@ =~= discard_cells(old(grid_buffer).data@));
        }
        let text = crate::textio::chars_to_string(&self.content);
        grid_buffer.put_preview_at(text.as_str(), row, col);
    }

    /// Bake the staged preview into content through the overlap table and
    /// leave preview mode.
    pub fn commit(&mut self, grid_buffer: &mut GridList, history: &mut History)
        requires
            old(history).wf(),
        ensures
            final(self).start == old(self).start,
            final(self).end == old(self).end,
            final(self).content == old(self).content,
            final(self).preview == false,
            final(grid_buffer).wf() == old(grid_buffer).wf(),
            final(grid_buffer).grid_size == old(grid_buffer).grid_size,
            final(grid_buffer).current_selection == old(grid_buffer).current_selection,
            final(grid_buffer).data@ == commit_cells(old(grid_buffer).data@),
            final(history).wf(),
            commit_edits(old(grid_buffer).data@, DrawingTools::Select).len() == 0
                ==> *final(history) == *old(history),
            commit_edits(old(grid_buffer).data@, DrawingTools::Select).len() > 0 ==> {
                &&& final(history).versions@.len() == old(history).index + 1
                &&& final(history).versions@[old(history).index as int].edits@ == commit_edits(
                    old(grid_buffer).data@,
                    DrawingTools::Select,
                )
                &&& final(history).index == old(history).index + 1
            },
    {
        grid_buffer.commit_all(history, DrawingTools::Select);
        self.preview = false;
    }

    pub fn is_preview(&self) -> (r: bool)
        ensures
            r == self.preview,
    {
        self.preview
    }

    pub fn is_manual_commit(&self) -> (r: bool)
        ensures
            r == false,
    {
        false
    }
}

} // verus!
