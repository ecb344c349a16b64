//! A single cell of the grid: committed content, an optional uncommitted
//! preview, highlight state, and the drawing-direction tag a line gesture
//! leaves on its start cell.

use vstd::prelude::*;

use crate::consts::CHAR_SPACE;
use crate::overlap::resolve_overlap;
use crate::shapes::line::LineDirection;

verus! {

#[derive(Clone, Copy)]
pub struct GridCell {
    pub highlight_index: usize,
    pub content: char,
    pub preview: Option<char>,
    pub highlighted: bool,
    pub line_direction: Option<LineDirection>,
}

impl GridCell {
    /// What a reader of the cell sees: the preview when one is staged, the
    /// committed content otherwise.
    pub open spec fn spec_read(self) -> char {
        if self.preview is Some {
            self.preview->0
        } else {
            self.content
        }
    }

    /// The cell after a commit: a staged preview is merged into the content
    /// through the overlap table and the staging state is cleared; a cell
    /// with nothing staged is untouched.
    pub open spec fn spec_commit(self) -> GridCell {
        if self.preview is Some {
            GridCell {
                content: resolve_overlap(self.line_direction, self.content, self.preview->0),
                preview: None,
                line_direction: None,
                ..self
            }
        } else {
            self
        }
    }

    /// The cell after an erase: content reset to a space, staging dropped,
    /// and the highlight metadata cleared.
    pub open spec fn spec_clear(self) -> GridCell {
        GridCell {
            content: CHAR_SPACE,
            preview: None,
            highlight_index: 0,
            highlighted: false,
            ..self
        }
    }

    pub fn new(content: char) -> (r: Self)
        ensures
            r.content == content,
            r.preview is None,
            r.highlighted == false,
            r.highlight_index == 0,
            r.line_direction is None,
    {
        Self {
            highlight_index: 0,
            content,
            preview: None,
            highlighted: false,
            line_direction: None,
        }
    }

    pub fn empty() -> (r: Self)
        ensures
            r.content == CHAR_SPACE,
            r.preview is None,
            r.highlighted == false,
            r.highlight_index == 0,
            r.line_direction is None,
    {
        GridCell::new(CHAR_SPACE)
    }

    pub fn newline() -> (r: Self)
        ensures
            r.content == crate::consts::CHAR_NEWLINE,
            r.preview is None,
            r.highlighted == false,
            r.highlight_index == 0,
            r.line_direction is None,
    {
        GridCell::new(crate::consts::CHAR_NEWLINE)
    }

    pub fn set_line_direction(&mut self, direction: LineDirection)
        ensures
            *final(self) == (GridCell { line_direction: Some(direction), ..*old(self) }),
    {
        self.line_direction = Some(direction);
    }

    /// Read the cell, preferring a staged preview over committed content.
    pub fn read(&self) -> (r: char)
        ensures
            r == self.spec_read(),
    {
        if let Some(preview) = self.preview {
            return preview;
        }
        self.content
    }

    /// Read the committed content only, ignoring any staged preview.
    pub fn read_content(&self) -> (r: char)
        ensures
            r == self.content,
    {
        self.content
    }

    pub fn clear(&mut self)
        ensures
            *final(self) == old(self).spec_clear(),
    {
        self.content = CHAR_SPACE;
        self.preview = None;
        self.highlight_index = 0;
        self.highlighted = false;
    }

    pub fn set_content(&mut self, content: char)
        ensures
            *final(self) == (GridCell { content, ..*old(self) }),
    {
        self.content = content;
    }

    pub fn set_preview(&mut self, content: char)
        ensures
            *final(self) == (GridCell { preview: Some(content), ..*old(self) }),
    {
        self.preview = Some(content);
    }

    /// Promote a staged preview into content, merging it with the existing
    /// glyph through the overlap table; a no-op when nothing is staged.
    pub fn commit(&mut self)
        ensures
            *final(self) == old(self).spec_commit(),
    {
        if let Some(preview) = self.preview {
            self.content = crate::overlap::calculate_cell_content(
                self.line_direction,
                self.content,
                preview,
            );
            self.preview = None;
            self.line_direction = None;
        }
    }

    /// Drop a staged preview (and the direction tag) without touching the
    /// committed content.
    pub fn discard(&mut self)
        ensures
            *final(self) == (GridCell { preview: None, line_direction: None, ..*old(self) }),
    {
        self.preview = None;
        self.line_direction = None;
    }

    pub fn highlight(&mut self, highlight_index: usize)
        ensures
            *final(self) == (GridCell { highlighted: true, highlight_index, ..*old(self) }),
    {
        self.highlighted = true;
        self.highlight_index = highlight_index;
    }

    pub fn clear_highlight(&mut self)
        ensures
            *final(self) == (GridCell { highlighted: false, highlight_index: 0, ..*old(self) }),
    {
        self.highlighted = false;
        self.highlight_index = 0;
    }
}

} // verus!
