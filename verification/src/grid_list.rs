//! The grid itself: a fixed row-by-column buffer of cells addressed by
//! `row * column_count + col`, with staged previews, highlighting, the
//! commit/discard protocol, and plain-text serialization.

use vstd::prelude::*;

use crate::consts::{is_blank, is_blank_char, CHAR_SPACE};
use crate::grid_cell::GridCell;
use crate::history::{write_content, Edit, History};
use crate::textio::{chars_to_string, str_chars};
use crate::tools::DrawingTools;

verus! {

/// Whether row `r` holds any non-blank committed content.
pub open spec fn row_used(s: Seq<GridCell>, cols: int, r: int) -> bool {
    exists|c: int| 0 <= c < cols && !is_blank_char(s[cell_index(r, c, cols)].content)
}

/// The greatest used row among the first `n`, or `-1` when none is used.
pub open spec fn max_used_row(s: Seq<GridCell>, cols: int, n: int) -> int
    decreases n,
{
    if n <= 0 {
        -1
    } else if row_used(s, cols, n - 1) {
        n - 1
    } else {
        max_used_row(s, cols, n - 1)
    }
}

/// Whether column `c` holds any non-blank committed content.
pub open spec fn col_used(s: Seq<GridCell>, rows: int, cols: int, c: int) -> bool {
    exists|r: int| 0 <= r < rows && !is_blank_char(s[cell_index(r, c, cols)].content)
}

/// The greatest used column among the first `n`, or `-1` when none is used.
pub open spec fn max_used_col(s: Seq<GridCell>, rows: int, cols: int, n: int) -> int
    decreases n,
{
    if n <= 0 {
        -1
    } else if col_used(s, rows, cols, n - 1) {
        n - 1
    } else {
        max_used_col(s, rows, cols, n - 1)
    }
}

/// One serialized row: `width` content glyphs, newline-terminated.
pub open spec fn render_row(s: Seq<GridCell>, cols: int, r: int, width: int) -> Seq<char> {
    Seq::new(width as nat, |j: int| s[cell_index(r, j, cols)].content).push('\n')
}

/// The first `nrows` serialized rows, in order.
pub open spec fn render_grid(s: Seq<GridCell>, cols: int, nrows: int, width: int) -> Seq<char>
    decreases nrows,
{
    if nrows <= 0 {
        Seq::empty()
    } else {
        render_grid(s, cols, nrows - 1, width) + render_row(s, cols, nrows - 1, width)
    }
}

/// The greatest used row is a used row, every later row is unused, and the
/// result stays in `[-1, n)`.
pub proof fn lemma_max_used_row_props(s: Seq<GridCell>, cols: int, n: int)
    requires
        n >= 0,
    ensures
        -1 <= max_used_row(s, cols, n) < n,
        max_used_row(s, cols, n) >= 0 ==> row_used(s, cols, max_used_row(s, cols, n)),
        forall|r: int| max_used_row(s, cols, n) < r < n ==> !row_used(s, cols, r),
    decreases n,
{
    if n > 0 {
        lemma_max_used_row_props(s, cols, n - 1);
    }
}

/// A used row never lies above the greatest used row.
pub proof fn lemma_row_used_le_max(s: Seq<GridCell>, cols: int, n: int, r: int)
    requires
        0 <= r < n,
        row_used(s, cols, r),
    ensures
        max_used_row(s, cols, n) >= r,
    decreases n,
{
    if r < n - 1 {
        lemma_row_used_le_max(s, cols, n - 1, r);
    }
}

/// The greatest used column is a used column, every later column is unused,
/// and the result stays in `[-1, n)`.
pub proof fn lemma_max_used_col_props(s: Seq<GridCell>, rows: int, cols: int, n: int)
    requires
        n >= 0,
    ensures
        -1 <= max_used_col(s, rows, cols, n) < n,
        max_used_col(s, rows, cols, n) >= 0 ==> col_used(
            s,
            rows,
            cols,
            max_used_col(s, rows, cols, n),
        ),
        forall|c: int| max_used_col(s, rows, cols, n) < c < n ==> !col_used(s, rows, cols, c),
    decreases n,
{
    if n > 0 {
        lemma_max_used_col_props(s, rows, cols, n - 1);
    }
}

/// A used column never lies right of the greatest used column.
pub proof fn lemma_col_used_le_max(s: Seq<GridCell>, rows: int, cols: int, n: int, c: int)
    requires
        0 <= c < n,
        col_used(s, rows, cols, c),
    ensures
        max_used_col(s, rows, cols, n) >= c,
    decreases n,
{
    if c < n - 1 {
        lemma_col_used_le_max(s, rows, cols, n - 1, c);
    }
}

/// One extracted selection row: the committed glyphs of columns
/// `[sc, ec)` in row `r`.
pub open spec fn row_slice(s: Seq<GridCell>, cols: int, r: int, sc: int, ec: int) -> Seq<char> {
    Seq::new(
        (if ec >= sc {
            ec - sc
        } else {
            0
        }) as nat,
        |j: int| s[cell_index(r, sc + j, cols)].content,
    )
}

/// The extracted text of a selection rectangle: one line per row of
/// `[sr, er)`, joined with newlines.
pub open spec fn rect_text(
    s: Seq<GridCell>,
    cols: int,
    sr: int,
    sc: int,
    er: int,
    ec: int,
) -> Seq<char>
    decreases er - sr,
{
    if er <= sr {
        Seq::empty()
    } else if er == sr + 1 {
        row_slice(s, cols, sr, sc, ec)
    } else {
        rect_text(s, cols, sr, sc, er - 1, ec) + seq!['\n'] + row_slice(s, cols, er - 1, sc, ec)
    }
}

/// The whole buffer after every staged preview is committed.
pub open spec fn commit_cells(s: Seq<GridCell>) -> Seq<GridCell> {
    s.map_values(|c: GridCell| c.spec_commit())
}

/// The edits `commit_all` records while walking the first `n` cells: one
/// entry per cell with a staged preview, in index order.
pub open spec fn commit_edits_up_to(s: Seq<GridCell>, n: int, tool: DrawingTools) -> Seq<Edit>
    decreases n,
{
    if n <= 0 {
        Seq::empty()
    } else {
        commit_edits_up_to(s, n - 1, tool) + (if s[n - 1].preview is Some {
            seq![
                Edit {
                    index: (n - 1) as usize,
                    from: s[n - 1].content,
                    to: s[n - 1].spec_commit().content,
                    tool,
                },
            ]
        } else {
            Seq::empty()
        })
    }
}

/// The full version `commit_all` records.
pub open spec fn commit_edits(s: Seq<GridCell>, tool: DrawingTools) -> Seq<Edit> {
    commit_edits_up_to(s, s.len() as int, tool)
}

/// The whole buffer after every highlighted cell is erased.
pub open spec fn erase_cells(s: Seq<GridCell>) -> Seq<GridCell> {
    s.map_values(
        |c: GridCell|
            if c.highlighted {
                c.spec_clear()
            } else {
                c
            },
    )
}

/// The edits `erase_highlighted` records while walking the first `n` cells.
pub open spec fn erase_edits_up_to(s: Seq<GridCell>, n: int, tool: DrawingTools) -> Seq<Edit>
    decreases n,
{
    if n <= 0 {
        Seq::empty()
    } else {
        erase_edits_up_to(s, n - 1, tool) + (if s[n - 1].highlighted {
            seq![
                Edit { index: (n - 1) as usize, from: s[n - 1].content, to: CHAR_SPACE, tool },
            ]
        } else {
            Seq::empty()
        })
    }
}

/// The full version `erase_highlighted` records.
pub open spec fn erase_edits(s: Seq<GridCell>, tool: DrawingTools) -> Seq<Edit> {
    erase_edits_up_to(s, s.len() as int, tool)
}

/// The buffer after a block of text is stamped in character by character,
/// starting at `(r, c)` with `c0` as the column each new line returns to: a
/// newline moves to the next row, a blank character skips its cell (what
/// stands there survives), any other character lands in its cell — as a
/// staged preview when `as_preview` holds, as committed content otherwise.
pub open spec fn place_chars(
    s: Seq<GridCell>,
    text: Seq<char>,
    cols: int,
    r: int,
    c: int,
    c0: int,
    as_preview: bool,
) -> Seq<GridCell>
    decreases text.len(),
{
    if text.len() == 0 {
        s
    } else {
        let ch = text[0];
        if ch == '\n' {
            place_chars(s, text.drop_first(), cols, r + 1, c0, c0, as_preview)
        } else if is_blank_char(ch) {
            place_chars(s, text.drop_first(), cols, r, c + 1, c0, as_preview)
        } else {
            let i = cell_index(r, c, cols);
            let w = if as_preview {
                s.update(i, GridCell { preview: Some(ch), ..s[i] })
            } else {
                write_content(s, i, ch)
            };
            place_chars(w, text.drop_first(), cols, r, c + 1, c0, as_preview)
        }
    }
}

/// Whether stamping the text stays inside a `rows` by `cols` grid: every
/// non-blank character must land on a cell.
pub open spec fn place_ok(
    text: Seq<char>,
    rows: int,
    cols: int,
    r: int,
    c: int,
    c0: int,
) -> bool
    decreases text.len(),
{
    if text.len() == 0 {
        true
    } else {
        let ch = text[0];
        if ch == '\n' {
            place_ok(text.drop_first(), rows, cols, r + 1, c0, c0)
        } else if is_blank_char(ch) {
            place_ok(text.drop_first(), rows, cols, r, c + 1, c0)
        } else {
            0 <= r < rows && 0 <= c < cols && place_ok(text.drop_first(), rows, cols, r, c + 1, c0)
        }
    }
}

/// The cursor position after stamping a block of text from `(r, c)`: the
/// grid contents play no part in it.
pub open spec fn place_state(text: Seq<char>, r: int, c: int, c0: int) -> (int, int)
    decreases text.len(),
{
    if text.len() == 0 {
        (r, c)
    } else if text[0] == '\n' {
        place_state(text.drop_first(), r + 1, c0, c0)
    } else {
        place_state(text.drop_first(), r, c + 1, c0)
    }
}

/// The edits recorded while loading a block of text as committed content,
/// appended to `acc`: one per landed character, in order.
pub open spec fn load_edits_from(
    s: Seq<GridCell>,
    text: Seq<char>,
    cols: int,
    r: int,
    c: int,
    c0: int,
    tool: DrawingTools,
    acc: Seq<Edit>,
) -> Seq<Edit>
    decreases text.len(),
{
    if text.len() == 0 {
        acc
    } else {
        let ch = text[0];
        if ch == '\n' {
            load_edits_from(s, text.drop_first(), cols, r + 1, c0, c0, tool, acc)
        } else if is_blank_char(ch) {
            load_edits_from(s, text.drop_first(), cols, r, c + 1, c0, tool, acc)
        } else {
            let i = cell_index(r, c, cols);
            load_edits_from(
                write_content(s, i, ch),
                text.drop_first(),
                cols,
                r,
                c + 1,
                c0,
                tool,
                acc.push(Edit { index: i as usize, from: s[i].content, to: ch, tool }),
            )
        }
    }
}

/// The full version a text load records.
pub open spec fn load_edits(
    s: Seq<GridCell>,
    text: Seq<char>,
    cols: int,
    r: int,
    c: int,
    c0: int,
    tool: DrawingTools,
) -> Seq<Edit> {
    load_edits_from(s, text, cols, r, c, c0, tool, Seq::empty())
}

/// The linear address of the cell at `(r, c)` in a grid `cols` columns wide.
pub open spec fn cell_index(r: int, c: int, cols: int) -> int {
    r * cols + c
}

/// Row-major addressing stays inside the buffer.
pub proof fn lemma_rowmajor_bound(r: int, c: int, rows: int, cols: int)
    by (nonlinear_arith)
    requires
        0 <= r < rows,
        0 <= c < cols,
    ensures
        0 <= cell_index(r, c, cols) < rows * cols,
{
}

/// Row-major addressing is injective for in-row column offsets.
pub proof fn lemma_rowmajor_injective(r1: int, c1: int, r2: int, c2: int, cols: int)
    by (nonlinear_arith)
    requires
        0 <= c1 < cols,
        0 <= c2 < cols,
        r1 >= 0,
        r2 >= 0,
        cell_index(r1, c1, cols) == cell_index(r2, c2, cols),
    ensures
        r1 == r2,
        c1 == c2,
{
}

/// The first row or column of a pixel selection is trimmed when the
/// selection does not start at the canvas edge.
pub open spec fn bump(x: int) -> int {
    if x > 0 {
        x + 1
    } else {
        x
    }
}

/// A buffer with no staged preview anywhere yields no commit edits.
proof fn lemma_commit_edits_no_preview(s: Seq<GridCell>, n: int, tool: DrawingTools)
    requires
        n <= s.len(),
        forall|i: int| 0 <= i < s.len() ==> (#[trigger] s[i].preview) is None,
    ensures
        commit_edits_up_to(s, n, tool).len() == 0,
    decreases n,
{
    if n > 0 {
        lemma_commit_edits_no_preview(s, n - 1, tool);
    }
}

/// Commit idempotence: once `commit_all` has run, every preview is gone, so
/// running it again changes no cell and records no version.
pub proof fn lemma_commit_all_idempotent(s: Seq<GridCell>, tool: DrawingTools)
    ensures
        commit_cells(commit_cells(s)) == commit_cells(s),
        commit_edits(commit_cells(s), tool).len() == 0,
{
    let t = commit_cells(s);
    assert(forall|i: int| 0 <= i < t.len() ==> (#[trigger] t[i].preview) is None);
    assert(commit_cells(t) =~= t);
    lemma_commit_edits_no_preview(t, t.len() as int, tool);
}

/// The cell a freshly created or cleared grid position holds.
pub open spec fn empty_cell() -> GridCell {
    GridCell {
        highlight_index: 0,
        content: CHAR_SPACE,
        preview: None,
        highlighted: false,
        line_direction: None,
    }
}

/// A cell after `discard_all` has visited it: a staged preview (and the
/// direction tag that travels with it) is dropped; other cells are untouched.
pub open spec fn spec_discard_cell(c: GridCell) -> GridCell {
    if c.preview is Some {
        GridCell { preview: None, line_direction: None, ..c }
    } else {
        c
    }
}

/// No committed newline glyph anywhere: the plain-text file format relies
/// on this, since a committed newline would shift every later glyph of its
/// row on reload.  Text loading and typing preserve it; only the raw cell
/// writers (`GridCell::newline`, `set_content`, `GridList::set`) can break
/// it, and they stay general because undo must restore arbitrary glyphs.
pub open spec fn newline_free(s: Seq<GridCell>) -> bool {
    forall|i: int| 0 <= i < s.len() ==> (#[trigger] s[i].content) != '\n'
}

/// Stamping text as committed content never writes a newline: a newline in
/// the text is a row break, and a blank character skips its cell.
pub proof fn lemma_place_preserves_newline_free(
    s: Seq<GridCell>,
    text: Seq<char>,
    rows: int,
    cols: int,
    r: int,
    c: int,
    c0: int,
)
    requires
        newline_free(s),
        s.len() == rows * cols,
        place_ok(text, rows, cols, r, c, c0),
    ensures
        newline_free(place_chars(s, text, cols, r, c, c0, false)),
    decreases text.len(),
{
    if text.len() > 0 {
        let ch = text[0];
        if ch == '\n' {
            lemma_place_preserves_newline_free(s, text.drop_first(), rows, cols, r + 1, c0, c0);
        } else if is_blank_char(ch) {
            lemma_place_preserves_newline_free(s, text.drop_first(), rows, cols, r, c + 1, c0);
        } else {
            let i = cell_index(r, c, cols);
            assert(place_ok(text, rows, cols, r, c, c0));
            assert(0 <= r < rows && 0 <= c < cols);
            lemma_rowmajor_bound(r, c, rows, cols);
            assert(0 <= i < s.len());
            let w = write_content(s, i, ch);
            crate::history::lemma_write_content_facts(s, i, ch);
            assert forall|j: int| 0 <= j < w.len() implies (#[trigger] w[j].content) != '\n' by {
                if j != i {
                    assert(w[j] == s[j]);
                }
            }
            lemma_place_preserves_newline_free(w, text.drop_first(), rows, cols, r, c + 1, c0);
        }
    }
}

/// Committing previews keeps the buffer newline-free as long as no staged
/// preview is itself a newline: the overlap table only ever yields a glyph
/// of its own or the staged character.
pub proof fn lemma_commit_preserves_newline_free(s: Seq<GridCell>)
    requires
        newline_free(s),
        forall|i: int|
            0 <= i < s.len() ==> ((#[trigger] s[i].preview) is Some ==> s[i].preview->0 != '\n'),
    ensures
        newline_free(commit_cells(s)),
{
    assert forall|i: int|
        0 <= i < commit_cells(s).len() implies (#[trigger] commit_cells(s)[i].content)
        != '\n' by {
        if s[i].preview is Some {
            crate::overlap::lemma_resolve_overlap_no_newline(
                s[i].line_direction,
                s[i].content,
                s[i].preview->0,
            );
        }
    }
}

/// The whole buffer after exactly the cell at `i` is highlighted (with its
/// own index as its highlight order) and every other highlight is cleared.
pub open spec fn highlighted_cells(s: Seq<GridCell>, i: int) -> Seq<GridCell> {
    Seq::new(
        s.len(),
        |j: int|
            if j == i {
                GridCell {
                    highlighted: true,
                    highlight_index: i as usize,
                    ..spec_unhighlight_cell(s[j])
                }
            } else {
                spec_unhighlight_cell(s[j])
            },
    )
}

/// The whole buffer after every staged preview is dropped.
pub open spec fn discard_cells(s: Seq<GridCell>) -> Seq<GridCell> {
    s.map_values(|c: GridCell| spec_discard_cell(c))
}

/// A cell after all highlighting is cleared.
pub open spec fn spec_unhighlight_cell(c: GridCell) -> GridCell {
    if c.highlighted {
        GridCell { highlighted: false, highlight_index: 0, ..c }
    } else {
        c
    }
}

pub struct GridList {
    pub data: Vec<GridCell>,
    /// `(row_count, column_count)`.
    pub grid_size: (usize, usize),
    /// The last highlighted rectangle, as `((start_row, start_col),
    /// (end_row, end_col))` with exclusive ends; cleared with highlighting.
    pub current_selection: Option<((usize, usize), (usize, usize))>,
}

impl GridList {
    pub open spec fn rows(self) -> int {
        self.grid_size.0 as int
    }

    pub open spec fn cols(self) -> int {
        self.grid_size.1 as int
    }

    /// The one structural invariant: the buffer holds exactly one cell per
    /// grid position.
    pub open spec fn wf(self) -> bool {
        self.data@.len() == self.rows() * self.cols()
    }

    /// An empty placeholder grid, used before the real canvas size is known.
    pub fn default() -> (r: Self)
        ensures
            r.wf(),
            r.grid_size == (0usize, 0usize),
            r.data@.len() == 0,
            r.current_selection is None,
    {
        GridList { data: Vec::new(), grid_size: (0, 0), current_selection: None }
    }

    /// A grid of `rows * cols` empty cells.
    pub fn new(rows: usize, cols: usize) -> (r: Self)
        requires
            rows * cols <= usize::MAX,
        ensures
            r.wf(),
            r.grid_size == (rows, cols),
            r.data@.len() == rows * cols,
            forall|i: int| 0 <= i < r.data@.len() ==> r.data@[i] == empty_cell(),
            r.current_selection is None,
    {
        let n: usize = rows * cols;
        let mut data: Vec<GridCell> = Vec::new();
        let mut i: usize = 0;
        while i < n
            invariant
                i <= n,
                data@.len() == i,
                forall|j: int| 0 <= j < i ==> data@[j] == empty_cell(),
            decreases n - i,
        {
            data.push(GridCell::empty());
            i = i + 1;
        }
        GridList { data, grid_size: (rows, cols), current_selection: None }
    }

    /// Reset every cell to empty, keeping the grid's dimensions.
    pub fn clear_all(&mut self)
        requires
            old(self).wf(),
        ensures
            final(self).wf(),
            final(self).grid_size == old(self).grid_size,
            final(self).current_selection == old(self).current_selection,
            final(self).data@.len() == old(self).data@.len(),
            forall|i: int|
                0 <= i < final(self).data@.len() ==> final(self).data@[i] == empty_cell(),
    {
        let n: usize = self.data.len();
        let mut data: Vec<GridCell> = Vec::new();
        let mut i: usize = 0;
        while i < n
            invariant
                i <= n,
                data@.len() == i,
                forall|j: int| 0 <= j < i ==> data@[j] == empty_cell(),
            decreases n - i,
        {
            data.push(GridCell::empty());
            i = i + 1;
        }
        self.data = data;
    }

    /// Read the cell at a linear index.
    pub fn get(&self, index: usize) -> (r: GridCell)
        requires
            index < self.data@.len(),
        ensures
            r == self.data@[index as int],
    {
        self.data[index]
    }

    /// Overwrite the committed content at a linear index, leaving every other
    /// part of the cell alone.  This is the direct write undo/redo use.
    pub fn set(&mut self, index: usize, content: char)
        requires
            index < old(self).data@.len(),
        ensures
            final(self).data@ == old(self).data@.update(
                index as int,
                (GridCell { content, ..old(self).data@[index as int] }),
            ),
            final(self).grid_size == old(self).grid_size,
            final(self).current_selection == old(self).current_selection,
    {
        let mut cell = self.data[index];
        cell.set_content(content);
        self.data[index] = cell;
    }

    /// Stage a preview at a linear index.
    pub fn set_preview(&mut self, index: usize, content: char)
        requires
            index < old(self).data@.len(),
        ensures
            final(self).data@ == old(self).data@.update(
                index as int,
                (GridCell { preview: Some(content), ..old(self).data@[index as int] }),
            ),
            final(self).grid_size == old(self).grid_size,
            final(self).current_selection == old(self).current_selection,
    {
        let mut cell = self.data[index];
        cell.set_preview(content);
        self.data[index] = cell;
    }

    /// Tag the cell at a linear index with a drawing direction.
    pub fn set_line_direction(&mut self, index: usize, direction: crate::shapes::line::LineDirection)
        requires
            index < old(self).data@.len(),
        ensures
            final(self).data@ == old(self).data@.update(
                index as int,
                (GridCell {
                    line_direction: Some(direction),
                    ..old(self).data@[index as int]
                }),
            ),
            final(self).grid_size == old(self).grid_size,
            final(self).current_selection == old(self).current_selection,
    {
        let mut cell = self.data[index];
        cell.set_line_direction(direction);
        self.data[index] = cell;
    }

    /// Remove all highlighting (and with it the remembered selection).
    pub fn clear_all_highlight(&mut self)
        ensures
            final(self).data@.len() == old(self).data@.len(),
            forall|i: int|
                0 <= i < final(self).data@.len() ==> final(self).data@[i]
                    == spec_unhighlight_cell(old(self).data@[i]),
            final(self).grid_size == old(self).grid_size,
            final(self).current_selection is None,
    {
        let n: usize = self.data.len();
        let mut i: usize = 0;
        while i < n
            invariant
                i <= n,
                n == self.data@.len(),
                self.data@.len() == old(self).data@.len(),
                forall|j: int|
                    0 <= j < i ==> self.data@[j] == spec_unhighlight_cell(old(self).data@[j]),
                forall|j: int| i <= j < n ==> self.data@[j] == old(self).data@[j],
                self.grid_size == old(self).grid_size,
                self.current_selection == old(self).current_selection,
            decreases n - i,
        {
            let mut cell = self.data[i];
            if cell.highlighted {
                cell.clear_highlight();
                self.data[i] = cell;
            }
            i = i + 1;
        }
        self.current_selection = None;
    }

    /// Highlight exactly one cell, clearing any previous highlight.  The
    /// cell's highlight order is its own linear index.
    pub fn highlight(&mut self, index: usize)
        requires
            index < old(self).data@.len(),
        ensures
            final(self).data@.len() == old(self).data@.len(),
            final(self).data@[index as int] == (GridCell {
                highlighted: true,
                highlight_index: index,
                ..spec_unhighlight_cell(old(self).data@[index as int])
            }),
            forall|i: int|
                0 <= i < final(self).data@.len() && i != index ==> final(self).data@[i]
                    == spec_unhighlight_cell(old(self).data@[i]),
            final(self).grid_size == old(self).grid_size,
            final(self).current_selection is None,
    {
        self.clear_all_highlight();
        let mut cell = self.data[index];
        cell.highlight(index);
        self.data[index] = cell;
    }

    /// Drop every staged preview, leaving committed content untouched.
    pub fn discard_all(&mut self)
        ensures
            final(self).data@.len() == old(self).data@.len(),
            forall|i: int|
                0 <= i < final(self).data@.len() ==> final(self).data@[i]
                    == spec_discard_cell(old(self).data@[i]),
            final(self).grid_size == old(self).grid_size,
            final(self).current_selection == old(self).current_selection,
    {
        let n: usize = self.data.len();
        let mut i: usize = 0;
        while i < n
            invariant
                i <= n,
                n == self.data@.len(),
                self.data@.len() == old(self).data@.len(),
                forall|j: int|
                    0 <= j < i ==> self.data@[j] == spec_discard_cell(old(self).data@[j]),
                forall|j: int| i <= j < n ==> self.data@[j] == old(self).data@[j],
                self.grid_size == old(self).grid_size,
                self.current_selection == old(self).current_selection,
            decreases n - i,
        {
            let mut cell = self.data[i];
            if cell.preview.is_some() {
                cell.discard();
                self.data[i] = cell;
            }
            i = i + 1;
        }
    }

    /// Highlight the cells of a selection rectangle, clearing any previous
    /// highlight.  The bounds are the floored cell coordinates of the pixel
    /// rectangle's corners; the first row and column are trimmed (by one)
    /// whenever the rectangle does not start at the canvas edge, and the
    /// rectangle is remembered as the current selection.
    pub fn highlight_rect(
        &mut self,
        start_row: usize,
        start_col: usize,
        end_row: usize,
        end_col: usize,
    )
        requires
            old(self).wf(),
            end_row <= old(self).grid_size.0,
            end_col <= old(self).grid_size.1,
            start_row < usize::MAX,
            start_col < usize::MAX,
        ensures
            final(self).wf(),
            final(self).grid_size == old(self).grid_size,
            final(self).data@.len() == old(self).data@.len(),
            forall|r: int, c: int|
                0 <= r < old(self).rows() && 0 <= c < old(self).cols() ==> final(self).data@[
                    #[trigger] cell_index(r, c, old(self).cols())
                ] == (if bump(start_row as int) <= r < end_row && bump(start_col as int) <= c
                    < end_col {
                    (GridCell {
                        highlighted: true,
                        highlight_index: cell_index(r, c, old(self).cols()) as usize,
                        ..spec_unhighlight_cell(
                            old(self).data@[cell_index(r, c, old(self).cols())],
                        )
                    })
                } else {
                    spec_unhighlight_cell(old(self).data@[cell_index(r, c, old(self).cols())])
                }),
            final(self).current_selection == Some(
                (
                    (bump(start_row as int) as usize, bump(start_col as int) as usize),
                    (end_row, end_col),
                ),
            ),
    {
        self.clear_all_highlight();
        let ghost s1 = self.data@;
        let ghost rows_g = self.rows();
        let ghost cols_g = self.cols();
        let cols_n = self.grid_size.1;
        let mut sr = start_row;
        if sr > 0 {
            sr = sr + 1;
        }
        let mut sc = start_col;
        if sc > 0 {
            sc = sc + 1;
        }
        let sel_height = if end_row > sr {
            end_row - sr
        } else {
            0
        };
        let sel_width = if end_col > sc {
            end_col - sc
        } else {
            0
        };
        proof {
            assert forall|r: int, c: int|
                0 <= r < rows_g && 0 <= c < cols_g implies 0 <= #[trigger] cell_index(
                r,
                c,
                cols_g,
            ) < s1.len() by {
                lemma_rowmajor_bound(r, c, rows_g, cols_g);
            }
        }
        let mut row: usize = 0;
        while row < sel_height
            invariant
                row <= sel_height,
                sel_height > 0 ==> sr + sel_height == end_row && end_row <= rows_g,
                sel_width > 0 ==> sc + sel_width == end_col && end_col <= cols_g,
                cols_n as int == cols_g,
                self.data@.len() == s1.len(),
                s1.len() == rows_g * cols_g,
                self.grid_size == old(self).grid_size,
                self.current_selection is None,
                forall|r: int, c: int|
                    0 <= r < rows_g && 0 <= c < cols_g ==> self.data@[
                        #[trigger] cell_index(r, c, cols_g)
                    ] == (if sr <= r < sr + row && sc <= c < sc + sel_width {
                        (GridCell {
                            highlighted: true,
                            highlight_index: cell_index(r, c, cols_g) as usize,
                            ..s1[cell_index(r, c, cols_g)]
                        })
                    } else {
                        s1[cell_index(r, c, cols_g)]
                    }),
            decreases sel_height - row,
        {
            let mut col: usize = 0;
            while col < sel_width
                invariant
                    row < sel_height,
                    col <= sel_width,
                    sel_height > 0 ==> sr + sel_height == end_row && end_row <= rows_g,
                    sel_width > 0 ==> sc + sel_width == end_col && end_col <= cols_g,
                    cols_n as int == cols_g,
                    self.data@.len() == s1.len(),
                    s1.len() == rows_g * cols_g,
                    self.grid_size == old(self).grid_size,
                    self.current_selection is None,
                    forall|r: int, c: int|
                        0 <= r < rows_g && 0 <= c < cols_g ==> self.data@[
                            #[trigger] cell_index(r, c, cols_g)
                        ] == (if (sr <= r < sr + row && sc <= c < sc + sel_width) || (r == sr + row
                            && sc <= c < sc + col) {
                            (GridCell {
                                highlighted: true,
                                highlight_index: cell_index(r, c, cols_g) as usize,
                                ..s1[cell_index(r, c, cols_g)]
                            })
                        } else {
                            s1[cell_index(r, c, cols_g)]
                        }),
                decreases sel_width - col,
            {
                let buf_len = self.data.len();
                proof {
                    lemma_rowmajor_bound(sr + row, sc + col, rows_g, cols_g);
                    assert(cell_index(sr + row, sc + col, cols_g) < buf_len);
                    assert((sr + row) * cols_g + (sc + col) < buf_len);
                }
                let index = (sr + row) * cols_n + (sc + col);
                let ghost prev = self.data@;
                let mut cellv = self.data[index];
                cellv.highlight(index);
                self.data[index] = cellv;
                proof {
                    assert forall|r: int, c: int|
                        0 <= r < rows_g && 0 <= c < cols_g implies self.data@[
                        #[trigger] cell_index(r, c, cols_g)
                    ] == (if (sr <= r < sr + row && sc <= c < sc + sel_width) || (r == sr + row
                        && sc <= c < sc + col + 1) {
                        (GridCell {
                            highlighted: true,
                            highlight_index: cell_index(r, c, cols_g) as usize,
                            ..s1[cell_index(r, c, cols_g)]
                        })
                    } else {
                        s1[cell_index(r, c, cols_g)]
                    }) by {
                        lemma_rowmajor_bound(r, c, rows_g, cols_g);
                        if cell_index(r, c, cols_g) == index as int {
                            lemma_rowmajor_injective(
                                r,
                                c,
                                sr + row,
                                sc + col,
                                cols_g,
                            );
                        }
                    }
                }
                col = col + 1;
            }
            row = row + 1;
        }
        self.current_selection = Some(((sr, sc), (end_row, end_col)));
    }

    /// Whether row `r` holds any non-blank committed content.
    fn row_has_content(&self, r: usize) -> (res: bool)
        requires
            self.wf(),
            (r as int) < self.rows(),
        ensures
            res == row_used(self.data@, self.cols(), r as int),
    {
        let cols_n = self.grid_size.1;
        let buf_len = self.data.len();
        let mut c: usize = 0;
        while c < cols_n
            invariant
                self.wf(),
                (r as int) < self.rows(),
                c <= cols_n,
                cols_n == self.grid_size.1,
                buf_len == self.data@.len(),
                forall|j: int|
                    0 <= j < c ==> is_blank_char(
                        self.data@[#[trigger] cell_index(r as int, j, self.cols())].content,
                    ),
            decreases cols_n - c,
        {
            proof {
                lemma_rowmajor_bound(r as int, c as int, self.rows(), self.cols());
                assert(cell_index(r as int, c as int, self.cols()) < buf_len);
            }
            let idx = r * cols_n + c;
            if !is_blank(self.data[idx].content) {
                proof {
                    assert(!is_blank_char(
                        self.data@[cell_index(r as int, c as int, self.cols())].content,
                    ));
                }
                return true;
            }
            c = c + 1;
        }
        proof {
            assert(!row_used(self.data@, self.cols(), r as int));
        }
        false
    }

    /// Whether column `c` holds any non-blank committed content.
    fn col_has_content(&self, c: usize) -> (res: bool)
        requires
            self.wf(),
            (c as int) < self.cols(),
        ensures
            res == col_used(self.data@, self.rows(), self.cols(), c as int),
    {
        let rows_n = self.grid_size.0;
        let cols_n = self.grid_size.1;
        let buf_len = self.data.len();
        let mut r: usize = 0;
        while r < rows_n
            invariant
                self.wf(),
                (c as int) < self.cols(),
                r <= rows_n,
                rows_n == self.grid_size.0,
                cols_n == self.grid_size.1,
                buf_len == self.data@.len(),
                forall|j: int|
                    0 <= j < r ==> is_blank_char(
                        self.data@[#[trigger] cell_index(j, c as int, self.cols())].content,
                    ),
            decreases rows_n - r,
        {
            proof {
                lemma_rowmajor_bound(r as int, c as int, self.rows(), self.cols());
                assert(cell_index(r as int, c as int, self.cols()) < buf_len);
            }
            let idx = r * cols_n + c;
            if !is_blank(self.data[idx].content) {
                proof {
                    assert(!is_blank_char(
                        self.data@[cell_index(r as int, c as int, self.cols())].content,
                    ));
                }
                return true;
            }
            r = r + 1;
        }
        proof {
            assert(!col_used(self.data@, self.rows(), self.cols(), c as int));
        }
        false
    }

    /// Serialize the grid's occupied bounding box as newline-terminated rows
    /// of committed glyphs; a grid with no content at all serializes to the
    /// empty string.
    pub fn to_text(&self) -> (r: String)
        requires
            self.wf(),
        ensures
            ({
                let mr = max_used_row(self.data@, self.cols(), self.rows());
                let mc = max_used_col(self.data@, self.rows(), self.cols(), self.cols());
                &&& (mr == -1 ==> r@ == Seq::<char>::empty())
                &&& (mr >= 0 ==> r@ == render_grid(self.data@, self.cols(), mr + 1, mc + 1))
            }),
    {
        let rows_n = self.grid_size.0;
        let cols_n = self.grid_size.1;
        let buf_len = self.data.len();
        let mut found_r = false;
        let mut mr: usize = 0;
        let mut i: usize = 0;
        while i < rows_n
            invariant
                self.wf(),
                i <= rows_n,
                rows_n == self.grid_size.0,
                cols_n == self.grid_size.1,
                !found_r ==> max_used_row(self.data@, self.cols(), i as int) == -1,
                found_r ==> max_used_row(self.data@, self.cols(), i as int) == mr as int && (
                mr as int) < i,
            decreases rows_n - i,
        {
            if self.row_has_content(i) {
                found_r = true;
                mr = i;
            }
            i = i + 1;
        }
        if !found_r {
            return String::new();
        }
        let mut found_c = false;
        let mut mc: usize = 0;
        let mut j: usize = 0;
        while j < cols_n
            invariant
                self.wf(),
                j <= cols_n,
                rows_n == self.grid_size.0,
                cols_n == self.grid_size.1,
                !found_c ==> max_used_col(self.data@, self.rows(), self.cols(), j as int) == -1,
                found_c ==> max_used_col(self.data@, self.rows(), self.cols(), j as int)
                    == mc as int && (mc as int) < j,
            decreases cols_n - j,
        {
            if self.col_has_content(j) {
                found_c = true;
                mc = j;
            }
            j = j + 1;
        }
        if !found_c {
            proof {
                lemma_max_used_row_props(self.data@, self.cols(), self.rows());
                let cw = choose|c: int|
                    0 <= c < self.cols() && !is_blank_char(
                        self.data@[cell_index(mr as int, c, self.cols())].content,
                    );
                assert(col_used(self.data@, self.rows(), self.cols(), cw));
                lemma_col_used_le_max(self.data@, self.rows(), self.cols(), self.cols(), cw);
                assert(false);
            }
            return String::new();
        }
        let w = mc + 1;
        let mut out: Vec<char> = Vec::new();
        let mut rr: usize = 0;
        while rr < mr + 1
            invariant
                self.wf(),
                rr <= mr + 1,
                (mr as int) < self.rows(),
                (mc as int) < self.cols(),
                w == mc + 1,
                rows_n == self.grid_size.0,
                cols_n == self.grid_size.1,
                buf_len == self.data@.len(),
                out@ == render_grid(self.data@, self.cols(), rr as int, w as int),
            decreases mr + 1 - rr,
        {
            let ghost base = out@;
            let mut cc: usize = 0;
            while cc < w
                invariant
                    self.wf(),
                    cc <= w,
                    rr <= mr,
                    (mr as int) < self.rows(),
                    (mc as int) < self.cols(),
                    w == mc + 1,
                    cols_n == self.grid_size.1,
                    buf_len == self.data@.len(),
                    out@ == base + Seq::new(
                        cc as nat,
                        |j: int| self.data@[cell_index(rr as int, j, self.cols())].content,
                    ),
                decreases w - cc,
            {
                proof {
                    lemma_rowmajor_bound(rr as int, cc as int, self.rows(), self.cols());
                    assert(cell_index(rr as int, cc as int, self.cols()) < buf_len);
                }
                let idx = rr * cols_n + cc;
                out.push(self.data[idx].content);
                proof {
                    assert(out@ =~= base + Seq::new(
                        (cc + 1) as nat,
                        |j: int| self.data@[cell_index(rr as int, j, self.cols())].content,
                    ));
                }
                cc = cc + 1;
            }
            out.push('\n');
            proof {
                assert(out@ =~= base + render_row(self.data@, self.cols(), rr as int, w as int));
            }
            rr = rr + 1;
        }
        chars_to_string(&out)
    }

    /// Extract the text under the current selection rectangle: one line per
    /// selected row, the lines joined with newlines.  With no selection the
    /// result is empty.
    pub fn get_highlighted_content(&self) -> (r: String)
        requires
            self.wf(),
            self.current_selection is Some ==> ((self.current_selection->0).1.0 as int)
                <= self.rows() && ((self.current_selection->0).1.1 as int) <= self.cols(),
        ensures
            self.current_selection is None ==> r@ == Seq::<char>::empty(),
            self.current_selection is Some ==> r@ == rect_text(
                self.data@,
                self.cols(),
                (self.current_selection->0).0.0 as int,
                (self.current_selection->0).0.1 as int,
                (self.current_selection->0).1.0 as int,
                (self.current_selection->0).1.1 as int,
            ),
    {
        match self.current_selection {
            None => String::new(),
            Some(((sr, sc), (er, ec))) => {
                let cols_n = self.grid_size.1;
                let buf_len = self.data.len();
                let mut out: Vec<char> = Vec::new();
                let mut rr = sr;
                while rr < er
                    invariant
                        self.wf(),
                        sr <= rr,
                        rr <= er || rr == sr,
                        (er as int) <= self.rows(),
                        (ec as int) <= self.cols(),
                        cols_n == self.grid_size.1,
                        buf_len == self.data@.len(),
                        out@ == rect_text(
                            self.data@,
                            self.cols(),
                            sr as int,
                            sc as int,
                            rr as int,
                            ec as int,
                        ),
                    decreases er - rr,
                {
                    if rr > sr {
                        out.push('\n');
                    }
                    let ghost base = out@;
                    let mut cc = sc;
                    while cc < ec
                        invariant
                            self.wf(),
                            sc <= cc,
                            cc <= ec || cc == sc,
                            rr < er,
                            (er as int) <= self.rows(),
                            (ec as int) <= self.cols(),
                            cols_n == self.grid_size.1,
                            buf_len == self.data@.len(),
                            out@ == base + Seq::new(
                                (cc - sc) as nat,
                                |j: int| self.data@[cell_index(
                                    rr as int,
                                    sc + j,
                                    self.cols(),
                                )].content,
                            ),
                        decreases ec - cc,
                    {
                        proof {
                            lemma_rowmajor_bound(rr as int, cc as int, self.rows(), self.cols());
                            assert(cell_index(rr as int, cc as int, self.cols()) < buf_len);
                        }
                        let idx = rr * cols_n + cc;
                        out.push(self.data[idx].content);
                        proof {
                            assert(out@ =~= base + Seq::new(
                                (cc + 1 - sc) as nat,
                                |j: int| self.data@[cell_index(
                                    rr as int,
                                    sc + j,
                                    self.cols(),
                                )].content,
                            ));
                        }
                        cc = cc + 1;
                    }
                    proof {
                        assert(out@ =~= base + row_slice(
                            self.data@,
                            self.cols(),
                            rr as int,
                            sc as int,
                            ec as int,
                        ));
                        assert(out@ =~= rect_text(
                            self.data@,
                            self.cols(),
                            sr as int,
                            sc as int,
                            rr + 1 as int,
                            ec as int,
                        ));
                    }
                    rr = rr + 1;
                }
                chars_to_string(&out)
            },
        }
    }

    /// Stage a multi-line block of text as previews, starting at
    /// `(row, col)`: each line advances the column from `col`, each newline
    /// advances the row, and blank characters leave their cells alone.
    pub fn put_preview_at(&mut self, content: &str, row: usize, col: usize)
        requires
            old(self).wf(),
            place_ok(
                content@,
                old(self).rows(),
                old(self).cols(),
                row as int,
                col as int,
                col as int,
            ),
            row + content@.len() <= usize::MAX,
            col + content@.len() <= usize::MAX,
        ensures
            final(self).wf(),
            final(self).grid_size == old(self).grid_size,
            final(self).current_selection == old(self).current_selection,
            final(self).data@ == place_chars(
                old(self).data@,
                content@,
                old(self).cols(),
                row as int,
                col as int,
                col as int,
                true,
            ),
    {
        let ghost s0 = self.data@;
        let ghost text = content@;
        let chars = str_chars(content);
        let n = chars.len();
        let cols_n = self.grid_size.1;
        let buf_len = self.data.len();
        let mut r = row;
        let mut c = col;
        let mut k: usize = 0;
        proof {
            assert(text.skip(0) =~= text);
        }
        while k < n
            invariant
                k <= n,
                n == text.len(),
                chars@ == text,
                self.wf(),
                self.grid_size == old(self).grid_size,
                self.current_selection == old(self).current_selection,
                self.data@.len() == s0.len(),
                buf_len == self.data@.len(),
                cols_n == self.grid_size.1,
                r <= row + k,
                c <= col + k,
                row + text.len() <= usize::MAX,
                col + text.len() <= usize::MAX,
                place_chars(s0, text, old(self).cols(), row as int, col as int, col as int, true)
                    == place_chars(
                    self.data@,
                    text.skip(k as int),
                    old(self).cols(),
                    r as int,
                    c as int,
                    col as int,
                    true,
                ),
                place_ok(
                    text.skip(k as int),
                    old(self).rows(),
                    old(self).cols(),
                    r as int,
                    c as int,
                    col as int,
                ),
            decreases n - k,
        {
            let ch = chars[k];
            proof {
                assert(text.skip(k as int)[0] == text[k as int]);
                assert(text.skip(k as int).drop_first() =~= text.skip(k as int + 1));
            }
            if ch == '\n' {
                r = r + 1;
                c = col;
            } else if is_blank(ch) {
                c = c + 1;
            } else {
                proof {
                    lemma_rowmajor_bound(r as int, c as int, old(self).rows(), old(self).cols());
                    assert(cell_index(r as int, c as int, old(self).cols()) < buf_len);
                }
                let idx = r * cols_n + c;
                let mut cellv = self.data[idx];
                cellv.set_preview(ch);
                self.data[idx] = cellv;
                c = c + 1;
            }
            k = k + 1;
        }
        proof {
            assert(text.skip(n as int) =~= Seq::<char>::empty());
        }
    }

    /// Whether a block of text stamped at `(row, col)` would stay on the
    /// grid: the runtime check behind the text-placement precondition.
    pub fn placement_fits(&self, content: &str, row: usize, col: usize) -> (res: bool)
        requires
            row + content@.len() <= usize::MAX,
            col + content@.len() <= usize::MAX,
        ensures
            res == place_ok(
                content@,
                self.rows(),
                self.cols(),
                row as int,
                col as int,
                col as int,
            ),
    {
        let ghost text = content@;
        let chars = str_chars(content);
        let n = chars.len();
        let rows_n = self.grid_size.0;
        let cols_n = self.grid_size.1;
        let mut r = row;
        let mut c = col;
        let mut k: usize = 0;
        proof {
            assert(text.skip(0) =~= text);
        }
        while k < n
            invariant
                k <= n,
                n == text.len(),
                chars@ == text,
                text == content@,
                rows_n == self.grid_size.0,
                cols_n == self.grid_size.1,
                r <= row + k,
                c <= col + k,
                row + text.len() <= usize::MAX,
                col + text.len() <= usize::MAX,
                place_ok(text, self.rows(), self.cols(), row as int, col as int, col as int)
                    == place_ok(
                    text.skip(k as int),
                    self.rows(),
                    self.cols(),
                    r as int,
                    c as int,
                    col as int,
                ),
            decreases n - k,
        {
            let ch = chars[k];
            proof {
                assert(text.skip(k as int)[0] == text[k as int]);
                assert(text.skip(k as int).drop_first() =~= text.skip(k as int + 1));
            }
            if ch == '\n' {
                r = r + 1;
                c = col;
            } else if is_blank(ch) {
                c = c + 1;
            } else {
                if !(r < rows_n && c < cols_n) {
                    proof {
                        assert(!place_ok(
                            text.skip(k as int),
                            self.rows(),
                            self.cols(),
                            r as int,
                            c as int,
                            col as int,
                        ));
                    }
                    return false;
                }
                c = c + 1;
            }
            k = k + 1;
        }
        proof {
            assert(text.skip(n as int) =~= Seq::<char>::empty());
        }
        true
    }

    /// Load a multi-line block of text into committed content, starting at
    /// `(row, col)`, skipping blank characters so that content already
    /// present under them survives, and record one version of the writes.
    pub fn load_content_at(
        &mut self,
        content: String,
        row: usize,
        col: usize,
        history: &mut History,
        tool: DrawingTools,
    )
        requires
            old(self).wf(),
            old(history).wf(),
            place_ok(
                content@,
                old(self).rows(),
                old(self).cols(),
                row as int,
                col as int,
                col as int,
            ),
            row + content@.len() <= usize::MAX,
            col + content@.len() <= usize::MAX,
        ensures
            final(self).wf(),
            final(self).grid_size == old(self).grid_size,
            final(self).current_selection == old(self).current_selection,
            final(self).data@ == place_chars(
                old(self).data@,
                content@,
                old(self).cols(),
                row as int,
                col as int,
                col as int,
                false,
            ),
            newline_free(old(self).data@) ==> newline_free(final(self).data@),
            final(history).wf(),
            ({
                let edits = load_edits(
                    old(self).data@,
                    content@,
                    old(self).cols(),
                    row as int,
                    col as int,
                    col as int,
                    tool,
                );
                &&& (edits.len() == 0 ==> *final(history) == *old(history))
                &&& (edits.len() > 0 ==> {
                    &&& final(history).versions@.len() == old(history).index + 1
                    &&& final(history).versions@.subrange(0, old(history).index as int) == old(
                        history,
                    ).versions@.subrange(0, old(history).index as int)
                    &&& final(history).versions@[old(history).index as int].edits@ == edits
                    &&& final(history).index == old(history).index + 1
                })
            }),
    {
        let ghost s0 = self.data@;
        let ghost text = content@;
        let chars = str_chars(content.as_str());
        let n = chars.len();
        let cols_n = self.grid_size.1;
        let buf_len = self.data.len();
        let mut version = crate::history::Version::new();
        let mut r = row;
        let mut c = col;
        let mut k: usize = 0;
        proof {
            assert(text.skip(0) =~= text);
            assert(version.edits@ =~= Seq::<Edit>::empty());
        }
        while k < n
            invariant
                k <= n,
                n == text.len(),
                chars@ == text,
                self.wf(),
                self.grid_size == old(self).grid_size,
                self.current_selection == old(self).current_selection,
                self.data@.len() == s0.len(),
                buf_len == self.data@.len(),
                cols_n == self.grid_size.1,
                r <= row + k,
                c <= col + k,
                row + text.len() <= usize::MAX,
                col + text.len() <= usize::MAX,
                place_chars(s0, text, old(self).cols(), row as int, col as int, col as int, false)
                    == place_chars(
                    self.data@,
                    text.skip(k as int),
                    old(self).cols(),
                    r as int,
                    c as int,
                    col as int,
                    false,
                ),
                load_edits(s0, text, old(self).cols(), row as int, col as int, col as int, tool)
                    == load_edits_from(
                    self.data@,
                    text.skip(k as int),
                    old(self).cols(),
                    r as int,
                    c as int,
                    col as int,
                    tool,
                    version.edits@,
                ),
                place_ok(
                    text.skip(k as int),
                    old(self).rows(),
                    old(self).cols(),
                    r as int,
                    c as int,
                    col as int,
                ),
            decreases n - k,
        {
            let ch = chars[k];
            proof {
                assert(text.skip(k as int)[0] == text[k as int]);
                assert(text.skip(k as int).drop_first() =~= text.skip(k as int + 1));
            }
            if ch == '\n' {
                r = r + 1;
                c = col;
            } else if is_blank(ch) {
                c = c + 1;
            } else {
                proof {
                    lemma_rowmajor_bound(r as int, c as int, old(self).rows(), old(self).cols());
                    assert(cell_index(r as int, c as int, old(self).cols()) < buf_len);
                }
                let idx = r * cols_n + c;
                let ghost before = self.data@;
                let ghost ver_before = version.edits@;
                let mut cellv = self.data[idx];
                let from = cellv.content;
                cellv.set_content(ch);
                self.data[idx] = cellv;
                version.push(idx, from, ch, tool);
                proof {
                    let ie = cell_index(r as int, c as int, old(self).cols());
                    let e = Edit { index: idx, from, to: ch, tool };
                    assert(self.data@ == write_content(before, ie, ch));
                    assert(idx == ie as usize);
                    assert(e == (Edit {
                        index: ie as usize,
                        from: before[ie].content,
                        to: ch,
                        tool,
                    }));
                    assert(version.edits@ == ver_before.push(e));
                    assert(load_edits_from(
                        before,
                        text.skip(k as int),
                        old(self).cols(),
                        r as int,
                        c as int,
                        col as int,
                        tool,
                        ver_before,
                    ) == load_edits_from(
                        self.data@,
                        text.skip(k as int + 1),
                        old(self).cols(),
                        r as int,
                        c as int + 1,
                        col as int,
                        tool,
                        version.edits@,
                    ));
                }
                c = c + 1;
            }
            k = k + 1;
        }
        proof {
            assert(text.skip(n as int) =~= Seq::<char>::empty());
            if newline_free(s0) {
                lemma_place_preserves_newline_free(
                    s0,
                    text,
                    old(self).rows(),
                    old(self).cols(),
                    row as int,
                    col as int,
                    col as int,
                );
            }
        }
        history.save_version(version);
    }

    /// Load a whole diagram: stamp the text's non-blank characters from the
    /// grid's origin and record one version of the writes.
    pub fn load_content(&mut self, content: String, history: &mut History, tool: DrawingTools)
        requires
            old(self).wf(),
            old(history).wf(),
            place_ok(content@, old(self).rows(), old(self).cols(), 0, 0, 0),
            content@.len() <= usize::MAX,
        ensures
            final(self).wf(),
            final(self).grid_size == old(self).grid_size,
            final(self).current_selection == old(self).current_selection,
            final(self).data@ == place_chars(
                old(self).data@,
                content@,
                old(self).cols(),
                0,
                0,
                0,
                false,
            ),
            newline_free(old(self).data@) ==> newline_free(final(self).data@),
            final(history).wf(),
            ({
                let edits = load_edits(old(self).data@, content@, old(self).cols(), 0, 0, 0, tool);
                &&& (edits.len() == 0 ==> *final(history) == *old(history))
                &&& (edits.len() > 0 ==> {
                    &&& final(history).versions@.len() == old(history).index + 1
                    &&& final(history).versions@.subrange(0, old(history).index as int) == old(
                        history,
                    ).versions@.subrange(0, old(history).index as int)
                    &&& final(history).versions@[old(history).index as int].edits@ == edits
                    &&& final(history).index == old(history).index + 1
                })
            }),
    {
        self.load_content_at(content, 0, 0, history, tool);
    }

    /// Commit every staged preview, merging each through the overlap table,
    /// and record one version holding every `(index, from, to)` change.  A
    /// run with nothing staged changes no cell and records no version.
    pub fn commit_all(&mut self, history: &mut History, tool: DrawingTools)
        requires
            old(history).wf(),
        ensures
            final(self).wf() == old(self).wf(),
            final(self).grid_size == old(self).grid_size,
            final(self).current_selection == old(self).current_selection,
            final(self).data@ == commit_cells(old(self).data@),
            forall|i: int|
                0 <= i < final(self).data@.len()
                    ==> (#[trigger] final(self).data@[i].preview) is None,
            newline_free(old(self).data@) && (forall|i: int|
                0 <= i < old(self).data@.len() ==> ((#[trigger] old(self).data@[i].preview) is Some
                    ==> old(self).data@[i].preview->0 != '\n')) ==> newline_free(
                final(self).data@,
            ),
            final(history).wf(),
            commit_edits(old(self).data@, tool).len() == 0 ==> *final(history) == *old(history)
                && final(self).data@ == old(self).data@,
            commit_edits(old(self).data@, tool).len() > 0 ==> {
                &&& final(history).versions@.len() == old(history).index + 1
                &&& final(history).versions@.subrange(0, old(history).index as int) == old(
                    history,
                ).versions@.subrange(0, old(history).index as int)
                &&& final(history).versions@[old(history).index as int].edits@ == commit_edits(
                    old(self).data@,
                    tool,
                )
                &&& final(history).index == old(history).index + 1
            },
    {
        let ghost s0 = self.data@;
        let n: usize = self.data.len();
        let mut version = crate::history::Version::new();
        let mut i: usize = 0;
        while i < n
            invariant
                i <= n,
                n == self.data@.len(),
                self.data@.len() == s0.len(),
                forall|j: int| 0 <= j < i ==> self.data@[j] == s0[j].spec_commit(),
                forall|j: int| i <= j < n ==> self.data@[j] == s0[j],
                version.edits@ == commit_edits_up_to(s0, i as int, tool),
                self.grid_size == old(self).grid_size,
                self.current_selection == old(self).current_selection,
            decreases n - i,
        {
            let cell = self.data[i];
            if cell.preview.is_some() {
                let from = cell.content;
                let mut c = cell;
                c.commit();
                self.data[i] = c;
                version.push(i, from, c.content, tool);
                proof {
                    assert(version.edits@ =~= commit_edits_up_to(s0, i as int, tool) + seq![
                        Edit {
                            index: i,
                            from: s0[i as int].content,
                            to: s0[i as int].spec_commit().content,
                            tool,
                        },
                    ]);
                }
            }
            i = i + 1;
        }
        proof {
            assert(self.data@ =~= commit_cells(s0));
            if newline_free(s0) && (forall|j: int|
                0 <= j < s0.len() ==> ((#[trigger] s0[j].preview) is Some ==> s0[j].preview->0
                    != '\n')) {
                lemma_commit_preserves_newline_free(s0);
            }
            if commit_edits(s0, tool).len() == 0 {
                assert(self.data@ =~= s0) by {
                    lemma_commit_edits_all_previews(s0, tool);
                    assert(forall|j: int|
                        0 <= j < s0.len() ==> (#[trigger] s0[j].preview) is None);
                    assert(forall|j: int|
                        0 <= j < s0.len() ==> #[trigger] s0[j].spec_commit() == s0[j]);
                }
            }
        }
        history.save_version(version);
    }

    /// Erase every highlighted cell, recording one version of the erasures.
    /// Erasing clears the highlight metadata too; `clear_all_highlight` is
    /// still what drops the remembered selection rectangle.
    pub fn erase_highlighted(&mut self, history: &mut History, tool: DrawingTools)
        requires
            old(history).wf(),
        ensures
            final(self).wf() == old(self).wf(),
            final(self).grid_size == old(self).grid_size,
            final(self).current_selection == old(self).current_selection,
            final(self).data@ == erase_cells(old(self).data@),
            final(history).wf(),
            erase_edits(old(self).data@, tool).len() == 0 ==> *final(history) == *old(history),
            erase_edits(old(self).data@, tool).len() > 0 ==> {
                &&& final(history).versions@.len() == old(history).index + 1
                &&& final(history).versions@.subrange(0, old(history).index as int) == old(
                    history,
                ).versions@.subrange(0, old(history).index as int)
                &&& final(history).versions@[old(history).index as int].edits@ == erase_edits(
                    old(self).data@,
                    tool,
                )
                &&& final(history).index == old(history).index + 1
            },
    {
        let ghost s0 = self.data@;
        let n: usize = self.data.len();
        let mut version = crate::history::Version::new();
        let mut i: usize = 0;
        while i < n
            invariant
                i <= n,
                n == self.data@.len(),
                self.data@.len() == s0.len(),
                forall|j: int|
                    0 <= j < i ==> self.data@[j] == (if s0[j].highlighted {
                        s0[j].spec_clear()
                    } else {
                        s0[j]
                    }),
                forall|j: int| i <= j < n ==> self.data@[j] == s0[j],
                version.edits@ == erase_edits_up_to(s0, i as int, tool),
                self.grid_size == old(self).grid_size,
                self.current_selection == old(self).current_selection,
            decreases n - i,
        {
            let cell = self.data[i];
            if cell.highlighted {
                let from = cell.content;
                let mut c = cell;
                c.clear();
                self.data[i] = c;
                version.push(i, from, CHAR_SPACE, tool);
                proof {
                    assert(version.edits@ =~= erase_edits_up_to(s0, i as int, tool) + seq![
                        Edit { index: i, from: s0[i as int].content, to: CHAR_SPACE, tool },
                    ]);
                }
            }
            i = i + 1;
        }
        proof {
            assert(self.data@ =~= erase_cells(s0));
        }
        history.save_version(version);
    }
}

/// A buffer that yields no commit edits has no staged preview anywhere.
proof fn lemma_commit_edits_all_previews(s: Seq<GridCell>, tool: DrawingTools)
    requires
        commit_edits(s, tool).len() == 0,
    ensures
        forall|i: int| 0 <= i < s.len() ==> (#[trigger] s[i].preview) is None,
{
    assert forall|i: int| 0 <= i < s.len() implies (#[trigger] s[i].preview) is None by {
        if s[i].preview is Some {
            lemma_commit_edits_nonempty(s, i, s.len() as int, tool);
        }
    }
}

/// A cell with a staged preview contributes at least one commit edit.
proof fn lemma_commit_edits_nonempty(s: Seq<GridCell>, i: int, n: int, tool: DrawingTools)
    requires
        0 <= i < n <= s.len(),
        s[i].preview is Some,
    ensures
        commit_edits_up_to(s, n, tool).len() > 0,
    decreases n,
{
    if i < n - 1 {
        lemma_commit_edits_nonempty(s, i, n - 1, tool);
    }
}


/// One serialized selection row viewed from a starting column: the glyphs of
/// columns `[j0, w)` in row `rr`, newline-terminated.
pub open spec fn row_suffix(s: Seq<GridCell>, cols: int, rr: int, w: int, j0: int) -> Seq<char> {
    Seq::new((w - j0) as nat, |j: int| s[cell_index(rr, j0 + j, cols)].content).push('\n')
}

/// Stamping a concatenation stamps the first part and then the second from
/// the cursor the first part leaves; bounds and cursor compose the same way.
proof fn lemma_place_concat(
    g: Seq<GridCell>,
    a: Seq<char>,
    b: Seq<char>,
    trows: int,
    tcols: int,
    r: int,
    c: int,
    c0: int,
    p: bool,
)
    ensures
        place_chars(g, a + b, tcols, r, c, c0, p) == place_chars(
            place_chars(g, a, tcols, r, c, c0, p),
            b,
            tcols,
            place_state(a, r, c, c0).0,
            place_state(a, r, c, c0).1,
            c0,
            p,
        ),
        place_state(a + b, r, c, c0) == place_state(
            b,
            place_state(a, r, c, c0).0,
            place_state(a, r, c, c0).1,
            c0,
        ),
        place_ok(a + b, trows, tcols, r, c, c0) == (place_ok(a, trows, tcols, r, c, c0)
            && place_ok(
            b,
            trows,
            tcols,
            place_state(a, r, c, c0).0,
            place_state(a, r, c, c0).1,
            c0,
        )),
    decreases a.len(),
{
    if a.len() == 0 {
        assert(a + b =~= b);
    } else {
        let ch = a[0];
        assert((a + b)[0] == ch);
        assert((a + b).drop_first() =~= a.drop_first() + b);
        if ch == '\n' {
            lemma_place_concat(g, a.drop_first(), b, trows, tcols, r + 1, c0, c0, p);
        } else if is_blank_char(ch) {
            lemma_place_concat(g, a.drop_first(), b, trows, tcols, r, c + 1, c0, p);
        } else {
            let i = cell_index(r, c, tcols);
            let w = if p {
                g.update(i, GridCell { preview: Some(ch), ..g[i] })
            } else {
                write_content(g, i, ch)
            };
            lemma_place_concat(w, a.drop_first(), b, trows, tcols, r, c + 1, c0, p);
        }
    }
}

/// Stamping one serialized row from its own row start lands exactly the
/// row's non-blank glyphs in their columns, touches nothing else, and leaves
/// the cursor at the start of the next row.
proof fn lemma_place_row(
    s: Seq<GridCell>,
    cols: int,
    g: Seq<GridCell>,
    trows: int,
    tcols: int,
    rr: int,
    w: int,
    j0: int,
)
    requires
        0 <= rr < trows,
        0 <= j0 <= w,
        0 < w <= tcols,
        g.len() == trows * tcols,
        forall|j: int| j0 <= j < w ==> s[#[trigger] cell_index(rr, j, cols)].content != '\n',
    ensures
        place_ok(row_suffix(s, cols, rr, w, j0), trows, tcols, rr, j0, 0),
        place_state(row_suffix(s, cols, rr, w, j0), rr, j0, 0) == (rr + 1, 0int),
        place_chars(g, row_suffix(s, cols, rr, w, j0), tcols, rr, j0, 0, false).len() == g.len(),
        forall|j: int|
            j0 <= j < w ==> place_chars(g, row_suffix(s, cols, rr, w, j0), tcols, rr, j0, 0, false)[
                #[trigger] cell_index(rr, j, tcols)
            ] == (if !is_blank_char(s[cell_index(rr, j, cols)].content) {
                (GridCell {
                    content: s[cell_index(rr, j, cols)].content,
                    ..g[cell_index(rr, j, tcols)]
                })
            } else {
                g[cell_index(rr, j, tcols)]
            }),
        forall|r2: int, c2: int|
            0 <= r2 < trows && 0 <= c2 < tcols && !(r2 == rr && j0 <= c2 < w) ==> place_chars(
                g,
                row_suffix(s, cols, rr, w, j0),
                tcols,
                rr,
                j0,
                0,
                false,
            )[#[trigger] cell_index(r2, c2, tcols)] == g[cell_index(r2, c2, tcols)],
    decreases w - j0,
{
    let suffix = row_suffix(s, cols, rr, w, j0);
    let base = Seq::new((w - j0) as nat, |j: int| s[cell_index(rr, j0 + j, cols)].content);
    assert(suffix == base.push('\n'));
    assert(base.len() == w - j0);
    if j0 == w {
        assert(suffix[0] == '\n');
        assert(suffix.drop_first() =~= Seq::<char>::empty());
        assert(place_chars(g, Seq::<char>::empty(), tcols, rr + 1, 0, 0, false) == g);
        assert(place_ok(Seq::<char>::empty(), trows, tcols, rr + 1, 0, 0));
        assert(place_state(Seq::<char>::empty(), rr + 1, 0, 0) == (rr + 1, 0int));
        assert(place_chars(g, suffix, tcols, rr, j0, 0, false) == g);
    } else {
        let ch = s[cell_index(rr, j0, cols)].content;
        assert(suffix[0] == ch);
        assert(suffix.drop_first() =~= row_suffix(s, cols, rr, w, j0 + 1));
        if is_blank_char(ch) {
            lemma_place_row(s, cols, g, trows, tcols, rr, w, j0 + 1);
        } else {
            let i = cell_index(rr, j0, tcols);
            lemma_rowmajor_bound(rr, j0, trows, tcols);
            let g1 = write_content(g, i, ch);
            assert(g1.len() == g.len());
            lemma_place_row(s, cols, g1, trows, tcols, rr, w, j0 + 1);
            assert forall|r2: int, c2: int|
                0 <= r2 < trows && 0 <= c2 < tcols && !(r2 == rr && c2 == j0) implies g1[
                #[trigger] cell_index(r2, c2, tcols)
            ] == g[cell_index(r2, c2, tcols)] by {
                lemma_rowmajor_bound(r2, c2, trows, tcols);
                if cell_index(r2, c2, tcols) == i {
                    lemma_rowmajor_injective(r2, c2, rr, j0, tcols);
                }
            }
        }
    }
}

/// Stamping the first `nr` serialized rows lands exactly the non-blank
/// glyphs of the `nr` by `w` box at their own rows and columns and touches
/// nothing else.
proof fn lemma_place_grid(
    s: Seq<GridCell>,
    cols: int,
    g: Seq<GridCell>,
    trows: int,
    tcols: int,
    nr: int,
    w: int,
)
    requires
        0 <= nr <= trows,
        0 < w <= tcols,
        g.len() == trows * tcols,
        forall|r2: int, c2: int|
            0 <= r2 < nr && 0 <= c2 < w ==> s[#[trigger] cell_index(r2, c2, cols)].content
                != '\n',
    ensures
        place_ok(render_grid(s, cols, nr, w), trows, tcols, 0, 0, 0),
        place_state(render_grid(s, cols, nr, w), 0, 0, 0) == (nr, 0int),
        place_chars(g, render_grid(s, cols, nr, w), tcols, 0, 0, 0, false).len() == g.len(),
        forall|r2: int, c2: int|
            0 <= r2 < nr && 0 <= c2 < w ==> place_chars(
                g,
                render_grid(s, cols, nr, w),
                tcols,
                0,
                0,
                0,
                false,
            )[#[trigger] cell_index(r2, c2, tcols)] == (if !is_blank_char(
                s[cell_index(r2, c2, cols)].content,
            ) {
                (GridCell {
                    content: s[cell_index(r2, c2, cols)].content,
                    ..g[cell_index(r2, c2, tcols)]
                })
            } else {
                g[cell_index(r2, c2, tcols)]
            }),
        forall|r2: int, c2: int|
            0 <= r2 < trows && 0 <= c2 < tcols && (r2 >= nr || c2 >= w) ==> place_chars(
                g,
                render_grid(s, cols, nr, w),
                tcols,
                0,
                0,
                0,
                false,
            )[#[trigger] cell_index(r2, c2, tcols)] == g[cell_index(r2, c2, tcols)],
    decreases nr,
{
    if nr == 0 {
        assert(place_chars(g, render_grid(s, cols, 0, w), tcols, 0, 0, 0, false) == g);
    } else {
        let a = render_grid(s, cols, nr - 1, w);
        let b = render_row(s, cols, nr - 1, w);
        lemma_place_grid(s, cols, g, trows, tcols, nr - 1, w);
        let g1 = place_chars(g, a, tcols, 0, 0, 0, false);
        lemma_place_concat(g, a, b, trows, tcols, 0, 0, 0, false);
        assert(b =~= row_suffix(s, cols, nr - 1, w, 0));
        lemma_place_row(s, cols, g1, trows, tcols, nr - 1, w, 0);
    }
}

/// Text round-trip: serialize a grid's occupied bounding box and stamp the
/// text into any grid whose dimensions cover that box.  The stamping stays
/// in bounds, and every non-blank glyph of the source grid reappears as the
/// committed content of the same row and column of the target grid.
pub proof fn lemma_text_round_trip(
    s: Seq<GridCell>,
    rows: int,
    cols: int,
    t: Seq<GridCell>,
    trows: int,
    tcols: int,
)
    requires
        0 <= rows,
        0 <= cols,
        s.len() == rows * cols,
        t.len() == trows * tcols,
        0 <= trows,
        0 <= tcols,
        max_used_row(s, cols, rows) < trows,
        max_used_col(s, rows, cols, cols) < tcols,
        forall|i: int| 0 <= i < s.len() ==> (#[trigger] s[i].content) != '\n',
    ensures
        ({
            let mr = max_used_row(s, cols, rows);
            let mc = max_used_col(s, rows, cols, cols);
            let text = if mr < 0 {
                Seq::<char>::empty()
            } else {
                render_grid(s, cols, mr + 1, mc + 1)
            };
            &&& place_ok(text, trows, tcols, 0, 0, 0)
            &&& forall|r: int, c: int|
                0 <= r < rows && 0 <= c < cols && !is_blank_char(
                    s[#[trigger] cell_index(r, c, cols)].content,
                ) ==> place_chars(t, text, tcols, 0, 0, 0, false)[cell_index(r, c, tcols)].content
                == s[cell_index(r, c, cols)].content
        }),
{
    let mr = max_used_row(s, cols, rows);
    let mc = max_used_col(s, rows, cols, cols);
    lemma_max_used_row_props(s, cols, rows);
    lemma_max_used_col_props(s, rows, cols, cols);
    if mr < 0 {
        assert forall|r: int, c: int|
            0 <= r < rows && 0 <= c < cols implies is_blank_char(
            s[#[trigger] cell_index(r, c, cols)].content,
        ) by {
            if !is_blank_char(s[cell_index(r, c, cols)].content) {
                assert(row_used(s, cols, r));
                lemma_row_used_le_max(s, cols, rows, r);
            }
        }
    } else {
        let text = render_grid(s, cols, mr + 1, mc + 1);
        assert(0 < mc + 1 <= tcols) by {
            assert(row_used(s, cols, mr));
            let cw = choose|c: int|
                0 <= c < cols && !is_blank_char(s[cell_index(mr, c, cols)].content);
            assert(col_used(s, rows, cols, cw));
            lemma_col_used_le_max(s, rows, cols, cols, cw);
        }
        assert forall|r2: int, c2: int|
            0 <= r2 < mr + 1 && 0 <= c2 < mc + 1 implies s[#[trigger] cell_index(
            r2,
            c2,
            cols,
        )].content != '\n' by {
            lemma_rowmajor_bound(r2, c2, rows, cols);
        }
        lemma_place_grid(s, cols, t, trows, tcols, mr + 1, mc + 1);
        assert forall|r: int, c: int|
            0 <= r < rows && 0 <= c < cols && !is_blank_char(
                s[#[trigger] cell_index(r, c, cols)].content,
            ) implies place_chars(t, text, tcols, 0, 0, 0, false)[cell_index(
            r,
            c,
            tcols,
        )].content == s[cell_index(r, c, cols)].content by {
            assert(row_used(s, cols, r));
            lemma_row_used_le_max(s, cols, rows, r);
            assert(col_used(s, rows, cols, c));
            lemma_col_used_le_max(s, rows, cols, cols, c);
        }
    }
}

} // verus!
