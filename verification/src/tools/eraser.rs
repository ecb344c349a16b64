//! The eraser tool: erases a square area under the cursor, or — with the
//! modifier held — the whole recorded shape that once wrote the cell.

use vstd::prelude::*;

use crate::consts::CHAR_SPACE;
use crate::grid_cell::GridCell;
use crate::grid_list::{cell_index, lemma_rowmajor_bound, lemma_rowmajor_injective, GridList};
use crate::history::{
    edits_in_bounds, push_no_overwrite, versions_in_bounds, write_content, Edit, History, Version,
};
use crate::tools::{DrawingTools, ResizeOption, ToolsSize};

verus! {

/// `x - k`, stopped at zero.
pub open spec fn clamp_sub(x: int, k: int) -> int {
    if x >= k {
        x - k
    } else {
        0
    }
}

/// Whether `(r, c)` lies in the square eraser footprint of half-width `k`
/// centred on `(row, col)`, clipped to the grid.
pub open spec fn in_erase_box(
    r: int,
    c: int,
    row: int,
    col: int,
    k: int,
    rows: int,
    cols: int,
) -> bool {
    clamp_sub(row, k) <= r <= row + k && r < rows && clamp_sub(col, k) <= c <= col + k && c < cols
}

/// Whether every committed glyph in the footprint is a space.
pub open spec fn erase_box_empty(
    s: Seq<GridCell>,
    row: int,
    col: int,
    k: int,
    rows: int,
    cols: int,
) -> bool {
    forall|r: int, c: int|
        in_erase_box(r, c, row, col, k, rows, cols) ==> s[#[trigger] cell_index(r, c, cols)].content
            == CHAR_SPACE
}

/// The version contents after the eraser sweeps columns `[c, chi]` of row
/// `r`, first write per cell winning, cells off the grid skipped.
pub open spec fn erase_row_edits(
    s: Seq<GridCell>,
    acc: Seq<Edit>,
    r: int,
    c: int,
    chi: int,
    rows: int,
    cols: int,
) -> Seq<Edit>
    decreases chi + 1 - c,
{
    if c > chi {
        acc
    } else {
        let acc2 = if r < rows && c < cols {
            push_no_overwrite(
                acc,
                Edit {
                    index: cell_index(r, c, cols) as usize,
                    from: s[cell_index(r, c, cols)].content,
                    to: CHAR_SPACE,
                    tool: DrawingTools::Eraser,
                },
            )
        } else {
            acc
        };
        erase_row_edits(s, acc2, r, c + 1, chi, rows, cols)
    }
}

/// The version contents after the eraser sweeps rows `[r, rhi]`, columns
/// `[clo, chi]`, in row-major order.
pub open spec fn erase_area_edits(
    s: Seq<GridCell>,
    acc: Seq<Edit>,
    r: int,
    rhi: int,
    clo: int,
    chi: int,
    rows: int,
    cols: int,
) -> Seq<Edit>
    decreases rhi + 1 - r,
{
    if r > rhi {
        acc
    } else {
        erase_area_edits(
            s,
            erase_row_edits(s, acc, r, clo, chi, rows, cols),
            r + 1,
            rhi,
            clo,
            chi,
            rows,
            cols,
        )
    }
}

/// Whether the version holds an edit that wrote cell `pos` as part of a
/// drawn shape (anything but a selection move).
pub open spec fn version_covers(edits: Seq<Edit>, pos: int) -> bool {
    exists|k: int|
        0 <= k < edits.len() && (#[trigger] edits[k]).index == pos && edits[k].tool
            != DrawingTools::Select
}

/// The first version in the log that wrote cell `pos` as part of a drawn
/// shape, searching from position `k`.
pub open spec fn find_covering_from(versions: Seq<Version>, pos: int, k: int) -> Option<int>
    decreases versions.len() - k,
{
    if k < 0 || k >= versions.len() {
        None
    } else if version_covers(versions[k].edits@, pos) {
        Some(k)
    } else {
        find_covering_from(versions, pos, k + 1)
    }
}

/// The buffer after every cell a batch of edits wrote is blanked.
pub open spec fn blank_cells(s: Seq<GridCell>, edits: Seq<Edit>) -> Seq<GridCell>
    decreases edits.len(),
{
    if edits.len() == 0 {
        s
    } else {
        blank_cells(write_content(s, edits[0].index as int, CHAR_SPACE), edits.drop_first())
    }
}

/// The version the shape eraser records: one blanking edit per edit of the
/// erased version.
pub open spec fn eraser_edits_of(edits: Seq<Edit>) -> Seq<Edit> {
    edits.map_values(
        |e: Edit| Edit { index: e.index, from: e.to, to: CHAR_SPACE, tool: DrawingTools::Eraser },
    )
}

/// Which kind of pass the eraser makes over a footprint.
pub enum EraserAction {
    Clear,
    CheckEmpty,
}

/// How erasing decides what to remove.
pub enum EraserMethod {
    HistoryBased,
}

/// The eraser accumulates one version of everything a stroke removes.
pub struct EraserTool {
    pub version: Version,
    pub last_cursor_position: Option<usize>,
    pub size: ToolsSize,
    pub method: EraserMethod,
}

impl EraserTool {
    pub fn new() -> (r: Self)
        ensures
            r.version.edits@.len() == 0,
            r.last_cursor_position is None,
            r.size == ToolsSize::Default,
    {
        Self {
            version: Version::new(),
            last_cursor_position: None,
            size: ToolsSize::Default,
            method: EraserMethod::HistoryBased,
        }
    }

    /// The next footprint size up.
    pub open spec fn spec_increased(size: ToolsSize) -> ToolsSize {
        match size {
            ToolsSize::Default => ToolsSize::Small,
            ToolsSize::Small => ToolsSize::Medium,
            ToolsSize::Medium => ToolsSize::Large,
            ToolsSize::Large => ToolsSize::Large,
        }
    }

    /// The next footprint size down.
    pub open spec fn spec_decreased(size: ToolsSize) -> ToolsSize {
        match size {
            ToolsSize::Default => ToolsSize::Default,
            ToolsSize::Small => ToolsSize::Default,
            ToolsSize::Medium => ToolsSize::Small,
            ToolsSize::Large => ToolsSize::Medium,
        }
    }

    pub fn increase_size(&mut self)
        ensures
            *final(self) == (EraserTool { size: Self::spec_increased(old(self).size), ..*old(self) }),
    {
        self.size = match self.size {
            ToolsSize::Default => ToolsSize::Small,
            ToolsSize::Small => ToolsSize::Medium,
            ToolsSize::Medium => ToolsSize::Large,
            ToolsSize::Large => ToolsSize::Large,
        };
    }

    pub fn decrease_size(&mut self)
        ensures
            *final(self) == (EraserTool { size: Self::spec_decreased(old(self).size), ..*old(self) }),
    {
        self.size = match self.size {
            ToolsSize::Default => ToolsSize::Default,
            ToolsSize::Small => ToolsSize::Default,
            ToolsSize::Medium => ToolsSize::Small,
            ToolsSize::Large => ToolsSize::Medium,
        };
    }

    pub fn resize(&mut self, option: ResizeOption)
        ensures
            option is Increase ==> *final(self) == (EraserTool {
                size: Self::spec_increased(old(self).size),
                ..*old(self)
            }),
            option is Decrease ==> *final(self) == (EraserTool {
                size: Self::spec_decreased(old(self).size),
                ..*old(self)
            }),
    {
        match option {
            ResizeOption::Increase => self.increase_size(),
            ResizeOption::Decrease => self.decrease_size(),
        }
    }

    /// One pass over the square footprint centred on `pos`: `Clear` erases
    /// every cell in it (recording each first write into the stroke's
    /// version) and yields true; `CheckEmpty` touches nothing and yields
    /// whether the whole footprint is blank.
    pub fn area_action(&mut self, grid_list: &mut GridList, pos: usize, action: &EraserAction) -> (res:
        bool)
        requires
            old(grid_list).wf(),
            (pos as int) < old(grid_list).rows() * old(grid_list).cols(),
            old(grid_list).rows() <= usize::MAX - 4,
            old(grid_list).cols() <= usize::MAX - 4,
        ensures
            final(grid_list).wf(),
            final(grid_list).grid_size == old(grid_list).grid_size,
            final(grid_list).current_selection == old(grid_list).current_selection,
            ({
                let s = old(grid_list).data@;
                let rows = old(grid_list).rows();
                let cols = old(grid_list).cols();
                let row = pos as int / cols;
                let col = pos as int % cols;
                let k = old(self).size.spec_radius();
                &&& ((*action) is CheckEmpty) ==> {
                        &&& *final(grid_list) == *old(grid_list)
                        &&& *final(self) == *old(self)
                        &&& res == erase_box_empty(s, row, col, k, rows, cols)
                }
                &&& ((*action) is Clear) ==> {
                        &&& res == true
                        &&& final(self).last_cursor_position == old(self).last_cursor_position
                        &&& final(self).size == old(self).size
                        &&& forall|r: int, c: int|
                            0 <= r < rows && 0 <= c < cols ==> final(grid_list).data@[
                                #[trigger] cell_index(r, c, cols)
                            ] == (if in_erase_box(r, c, row, col, k, rows, cols) {
                                s[cell_index(r, c, cols)].spec_clear()
                            } else {
                                s[cell_index(r, c, cols)]
                            })
                        &&& final(self).version.edits@ == erase_area_edits(
                            s,
                            old(self).version.edits@,
                            clamp_sub(row, k),
                            row + k,
                            clamp_sub(col, k),
                            col + k,
                            rows,
                            cols,
                        )
                }
            }),
    {
        let ghost rows_g = grid_list.rows();
        let ghost cols_g = grid_list.cols();
        let ghost s0 = grid_list.data@;
        let rows_n = grid_list.grid_size.0;
        let cols_n = grid_list.grid_size.1;
        let buf_len = grid_list.data.len();
        proof {
            lemma_pos_div_bounds(pos as int, rows_g, cols_g);
        }
        let row = pos / cols_n;
        let col = pos % cols_n;
        let k = self.size.radius();
        let rlo = if row >= k {
            row - k
        } else {
            0
        };
        let clo = if col >= k {
            col - k
        } else {
            0
        };
        let rhi = row + k;
        let chi = col + k;

        match action {
            EraserAction::CheckEmpty => {
                proof {
                    assert((*action) is CheckEmpty);
                }
                let mut i = rlo;
                while i <= rhi
                    invariant
                        rlo <= i,
                        i <= rhi + 1 || i == rlo,
                        rlo == clamp_sub(row as int, k as int),
                        clo == clamp_sub(col as int, k as int),
                        rhi == row + k,
                        chi == col + k,
                        (row as int) < rows_g,
                        (col as int) < cols_g,
                        row as int == pos as int / cols_g,
                        col as int == pos as int % cols_g,
                        k <= 4,
                        k as int == old(self).size.spec_radius(),
                        rows_n as int == rows_g,
                        cols_n as int == cols_g,
                        rows_g == old(grid_list).rows(),
                        cols_g == old(grid_list).cols(),
                        rows_g <= usize::MAX - 4,
                        cols_g <= usize::MAX - 4,
                        grid_list.wf(),
                        (*action) is CheckEmpty,
                        *self == *old(self),
                        *grid_list == *old(grid_list),
                        s0 == grid_list.data@,
                        s0.len() == rows_g * cols_g,
                        buf_len == s0.len(),
                        forall|r: int, c: int|
                            in_erase_box(r, c, row as int, col as int, k as int, rows_g, cols_g)
                                && r < i ==> s0[#[trigger] cell_index(r, c, cols_g)].content
                                == CHAR_SPACE,
                    decreases rhi + 1 - i,
                {
                    let mut j = clo;
                    while j <= chi
                        invariant
                            rlo <= i <= rhi,
                            clo <= j,
                            j <= chi + 1 || j == clo,
                            rlo == clamp_sub(row as int, k as int),
                            clo == clamp_sub(col as int, k as int),
                            rhi == row + k,
                            chi == col + k,
                            (row as int) < rows_g,
                            (col as int) < cols_g,
                            row as int == pos as int / cols_g,
                            col as int == pos as int % cols_g,
                            k <= 4,
                            k as int == old(self).size.spec_radius(),
                            rows_n as int == rows_g,
                            cols_n as int == cols_g,
                            rows_g == old(grid_list).rows(),
                            cols_g == old(grid_list).cols(),
                            rows_g <= usize::MAX - 4,
                            cols_g <= usize::MAX - 4,
                            grid_list.wf(),
                            (*action) is CheckEmpty,
                            *self == *old(self),
                            *grid_list == *old(grid_list),
                            s0 == grid_list.data@,
                            s0.len() == rows_g * cols_g,
                            buf_len == s0.len(),
                            forall|r: int, c: int|
                                in_erase_box(
                                    r,
                                    c,
                                    row as int,
                                    col as int,
                                    k as int,
                                    rows_g,
                                    cols_g,
                                ) && r < i ==> s0[#[trigger] cell_index(r, c, cols_g)].content
                                    == CHAR_SPACE,
                            forall|c: int|
                                in_erase_box(
                                    i as int,
                                    c,
                                    row as int,
                                    col as int,
                                    k as int,
                                    rows_g,
                                    cols_g,
                                ) && c < j ==> s0[#[trigger] cell_index(
                                    i as int,
                                    c,
                                    cols_g,
                                )].content == CHAR_SPACE,
                        decreases chi + 1 - j,
                    {
                        if i < rows_n && j < cols_n {
                            proof {
                                lemma_rowmajor_bound(i as int, j as int, rows_g, cols_g);
                                assert(cell_index(i as int, j as int, cols_g) < buf_len);
                            }
                            let p = i * cols_n + j;
                            let from_content = grid_list.get(p).read_content();
                            if from_content != CHAR_SPACE {
                                proof {
                                    assert(in_erase_box(
                                        i as int,
                                        j as int,
                                        row as int,
                                        col as int,
                                        k as int,
                                        rows_g,
                                        cols_g,
                                    ));
                                    assert(s0[cell_index(i as int, j as int, cols_g)].content
                                        != CHAR_SPACE);
                                }
                                return false;
                            }
                        }
                        j = j + 1;
                    }
                    i = i + 1;
                }
                true
            },
            EraserAction::Clear => {
                proof {
                    assert((*action) is Clear);
                }
                let ghost ver0 = self.version.edits@;
                let ghost total = erase_area_edits(
                    s0,
                    ver0,
                    rlo as int,
                    rhi as int,
                    clo as int,
                    chi as int,
                    rows_g,
                    cols_g,
                );
                let mut i = rlo;
                while i <= rhi
                    invariant
                        rlo <= i,
                        i <= rhi + 1 || i == rlo,
                        rlo == clamp_sub(row as int, k as int),
                        clo == clamp_sub(col as int, k as int),
                        rhi == row + k,
                        chi == col + k,
                        (row as int) < rows_g,
                        (col as int) < cols_g,
                        row as int == pos as int / cols_g,
                        col as int == pos as int % cols_g,
                        k <= 4,
                        k as int == old(self).size.spec_radius(),
                        rows_n as int == rows_g,
                        cols_n as int == cols_g,
                        rows_g == old(grid_list).rows(),
                        cols_g == old(grid_list).cols(),
                        rows_g <= usize::MAX - 4,
                        cols_g <= usize::MAX - 4,
                        grid_list.wf(),
                        grid_list.grid_size == old(grid_list).grid_size,
                        grid_list.current_selection == old(grid_list).current_selection,
                        grid_list.data@.len() == s0.len(),
                        s0.len() == rows_g * cols_g,
                        buf_len == s0.len(),
                        self.last_cursor_position == old(self).last_cursor_position,
                        self.size == old(self).size,
                        forall|r: int, c: int|
                            0 <= r < rows_g && 0 <= c < cols_g ==> grid_list.data@[
                                #[trigger] cell_index(r, c, cols_g)
                            ] == (if in_erase_box(
                                r,
                                c,
                                row as int,
                                col as int,
                                k as int,
                                rows_g,
                                cols_g,
                            ) && r < i {
                                s0[cell_index(r, c, cols_g)].spec_clear()
                            } else {
                                s0[cell_index(r, c, cols_g)]
                            }),
                        total == erase_area_edits(
                            s0,
                            self.version.edits@,
                            i as int,
                            rhi as int,
                            clo as int,
                            chi as int,
                            rows_g,
                            cols_g,
                        ),
                    decreases rhi + 1 - i,
                {
                    proof {
                        assert(erase_area_edits(
                            s0,
                            self.version.edits@,
                            i as int,
                            rhi as int,
                            clo as int,
                            chi as int,
                            rows_g,
                            cols_g,
                        ) == erase_area_edits(
                            s0,
                            erase_row_edits(
                                s0,
                                self.version.edits@,
                                i as int,
                                clo as int,
                                chi as int,
                                rows_g,
                                cols_g,
                            ),
                            i as int + 1,
                            rhi as int,
                            clo as int,
                            chi as int,
                            rows_g,
                            cols_g,
                        ));
                    }
                    let mut j = clo;
                    while j <= chi
                        invariant
                            rlo <= i <= rhi,
                            clo <= j,
                            j <= chi + 1 || j == clo,
                            rlo == clamp_sub(row as int, k as int),
                            clo == clamp_sub(col as int, k as int),
                            rhi == row + k,
                            chi == col + k,
                            (row as int) < rows_g,
                            (col as int) < cols_g,
                            row as int == pos as int / cols_g,
                            col as int == pos as int % cols_g,
                            k <= 4,
                            k as int == old(self).size.spec_radius(),
                            rows_n as int == rows_g,
                            cols_n as int == cols_g,
                            rows_g == old(grid_list).rows(),
                            cols_g == old(grid_list).cols(),
                            rows_g <= usize::MAX - 4,
                            cols_g <= usize::MAX - 4,
                            grid_list.wf(),
                            grid_list.grid_size == old(grid_list).grid_size,
                            grid_list.current_selection == old(grid_list).current_selection,
                            grid_list.data@.len() == s0.len(),
                            s0.len() == rows_g * cols_g,
                            buf_len == s0.len(),
                            self.last_cursor_position == old(self).last_cursor_position,
                            self.size == old(self).size,
                                forall|r: int, c: int|
                                0 <= r < rows_g && 0 <= c < cols_g ==> grid_list.data@[
                                    #[trigger] cell_index(r, c, cols_g)
                                ] == (if (in_erase_box(
                                    r,
                                    c,
                                    row as int,
                                    col as int,
                                    k as int,
                                    rows_g,
                                    cols_g,
                                ) && r < i) || (r == i && in_erase_box(
                                    r,
                                    c,
                                    row as int,
                                    col as int,
                                    k as int,
                                    rows_g,
                                    cols_g,
                                ) && c < j) {
                                    s0[cell_index(r, c, cols_g)].spec_clear()
                                } else {
                                    s0[cell_index(r, c, cols_g)]
                                }),
                            total == erase_area_edits(
                                s0,
                                erase_row_edits(
                                    s0,
                                    self.version.edits@,
                                    i as int,
                                    j as int,
                                    chi as int,
                                    rows_g,
                                    cols_g,
                                ),
                                i as int + 1,
                                rhi as int,
                                clo as int,
                                chi as int,
                                rows_g,
                                cols_g,
                            ),
                        decreases chi + 1 - j,
                    {
                        let ghost ver_prev = self.version.edits@;
                        if i < rows_n && j < cols_n {
                            proof {
                                lemma_rowmajor_bound(i as int, j as int, rows_g, cols_g);
                                assert(cell_index(i as int, j as int, cols_g) < buf_len);
                            }
                            let p = i * cols_n + j;
                            let cellv = grid_list.get(p);
                            let from_content = cellv.read_content();
                            let mut cl = cellv;
                            cl.clear();
                            grid_list.data[p] = cl;
                            self.version.push_without_overwrite(
                                p,
                                from_content,
                                CHAR_SPACE,
                                DrawingTools::Eraser,
                            );
                            proof {
                                assert forall|r: int, c: int|
                                    0 <= r < rows_g && 0 <= c < cols_g implies grid_list.data@[
                                    #[trigger] cell_index(r, c, cols_g)
                                ] == (if (in_erase_box(
                                    r,
                                    c,
                                    row as int,
                                    col as int,
                                    k as int,
                                    rows_g,
                                    cols_g,
                                ) && r < i) || (r == i && in_erase_box(
                                    r,
                                    c,
                                    row as int,
                                    col as int,
                                    k as int,
                                    rows_g,
                                    cols_g,
                                ) && c < j + 1) {
                                    s0[cell_index(r, c, cols_g)].spec_clear()
                                } else {
                                    s0[cell_index(r, c, cols_g)]
                                }) by {
                                    lemma_rowmajor_bound(r, c, rows_g, cols_g);
                                    if cell_index(r, c, cols_g) == p as int {
                                        lemma_rowmajor_injective(r, c, i as int, j as int, cols_g);
                                    }
                                }
                                assert(erase_row_edits(
                                    s0,
                                    ver_prev,
                                    i as int,
                                    j as int,
                                    chi as int,
                                    rows_g,
                                    cols_g,
                                ) == erase_row_edits(
                                    s0,
                                    self.version.edits@,
                                    i as int,
                                    j as int + 1,
                                    chi as int,
                                    rows_g,
                                    cols_g,
                                ));
                            }
                        } else {
                            proof {
                                assert(erase_row_edits(
                                    s0,
                                    ver_prev,
                                    i as int,
                                    j as int,
                                    chi as int,
                                    rows_g,
                                    cols_g,
                                ) == erase_row_edits(
                                    s0,
                                    self.version.edits@,
                                    i as int,
                                    j as int + 1,
                                    chi as int,
                                    rows_g,
                                    cols_g,
                                ));
                            }
                        }
                        j = j + 1;
                    }
                    proof {
                        assert(erase_row_edits(
                            s0,
                            self.version.edits@,
                            i as int,
                            chi as int + 1,
                            chi as int,
                            rows_g,
                            cols_g,
                        ) == self.version.edits@);
                        assert(j as int == chi as int + 1);
                    }
                    i = i + 1;
                }
                proof {
                    assert(erase_area_edits(
                        s0,
                        self.version.edits@,
                        rhi as int + 1,
                        rhi as int,
                        clo as int,
                        chi as int,
                        rows_g,
                        cols_g,
                    ) == self.version.edits@);
                    assert(final(self).version.edits@ == erase_area_edits(
                        s0,
                        ver0,
                        rlo as int,
                        rhi as int,
                        clo as int,
                        chi as int,
                        rows_g,
                        cols_g,
                    ));
                }
                true
            },
        }
    }

    /// One pass with the shape eraser: `Clear` looks for the first recorded
    /// version that drew the cell under the cursor (selection moves do not
    /// count), blanks every cell that version wrote, and records the
    /// blanking as a new version; `CheckEmpty` touches nothing and yields
    /// whether the cell under the cursor is blank.
    pub fn shape_action(
        &mut self,
        grid_list: &mut GridList,
        history: &mut History,
        pos: usize,
        action: &EraserAction,
    ) -> (res: bool)
        requires
            old(grid_list).wf(),
            old(history).wf(),
            versions_in_bounds(old(history).versions@, old(grid_list).data@.len() as int),
            (pos as int) < old(grid_list).data@.len(),
        ensures
            *final(self) == *old(self),
            final(grid_list).wf(),
            final(grid_list).grid_size == old(grid_list).grid_size,
            final(grid_list).current_selection == old(grid_list).current_selection,
            final(history).wf(),
            ((*action) is CheckEmpty) ==> {
                &&& *final(grid_list) == *old(grid_list)
                &&& *final(history) == *old(history)
                &&& res == (old(grid_list).data@[pos as int].content == CHAR_SPACE)
            },
            ((*action) is Clear) ==> {
                &&& res == true
                &&& match find_covering_from(old(history).versions@, pos as int, 0) {
                    None => *final(grid_list) == *old(grid_list) && *final(history) == *old(
                        history,
                    ),
                    Some(vi) => {
                        let edits = old(history).versions@[vi].edits@;
                        &&& final(grid_list).data@ == blank_cells(old(grid_list).data@, edits)
                        &&& final(history).versions@.len() == old(history).index + 1
                        &&& final(history).versions@.subrange(0, old(history).index as int) == old(
                            history,
                        ).versions@.subrange(0, old(history).index as int)
                        &&& final(history).versions@[old(history).index as int].edits@
                            == eraser_edits_of(edits)
                        &&& final(history).index == old(history).index + 1
                    },
                }
            },
    {
        let from_content = grid_list.get(pos).read_content();
        match action {
            EraserAction::CheckEmpty => {
                if from_content != CHAR_SPACE {
                    return false;
                }
                true
            },
            EraserAction::Clear => {
                let ghost versions0 = history.versions@;
                let ghost target = find_covering_from(versions0, pos as int, 0);
                let n = history.versions.len();
                let mut found: Option<usize> = None;
                let mut vi: usize = 0;
                while vi < n
                    invariant
                        vi <= n,
                        n == history.versions@.len(),
                        versions0 == history.versions@,
                        *history == *old(history),
                        *grid_list == *old(grid_list),
                        *self == *old(self),
                        target == find_covering_from(versions0, pos as int, 0),
                        found is None ==> target == find_covering_from(
                            versions0,
                            pos as int,
                            vi as int,
                        ),
                        found is Some ==> target == Some(found->0 as int) && (found->0 as int)
                            < n && version_covers(versions0[found->0 as int].edits@, pos as int),
                    decreases n - vi,
                {
                    if found.is_none() {
                        let m = history.versions[vi].edits.len();
                        let mut covered = false;
                        let mut k: usize = 0;
                        while k < m
                            invariant
                                k <= m,
                                vi < n,
                                n == history.versions@.len(),
                                versions0 == history.versions@,
                                *history == *old(history),
                                *grid_list == *old(grid_list),
                                *self == *old(self),
                                m == versions0[vi as int].edits@.len(),
                                covered ==> version_covers(
                                    versions0[vi as int].edits@,
                                    pos as int,
                                ),
                                !covered ==> forall|j: int|
                                    0 <= j < k ==> !((#[trigger] versions0[vi as int].edits@[j]).index
                                        == pos as int && versions0[vi as int].edits@[j].tool
                                        != DrawingTools::Select),
                            decreases m - k,
                        {
                            let e = history.versions[vi].edits[k];
                            if e.get_index() == pos && !(matches!(
                                e.get_tool(),
                                DrawingTools::Select,
                            )) {
                                covered = true;
                            }
                            k = k + 1;
                        }
                        if covered {
                            found = Some(vi);
                            proof {
                                assert(version_covers(versions0[vi as int].edits@, pos as int));
                            }
                        } else {
                            proof {
                                assert(!version_covers(versions0[vi as int].edits@, pos as int));
                            }
                        }
                    }
                    vi = vi + 1;
                }
                if let Some(history_index) = found {
                    let ghost edits = versions0[history_index as int].edits@;
                    let ghost s0 = grid_list.data@;
                    proof {
                        assert(edits_in_bounds(edits, s0.len() as int));
                        assert(edits.skip(0) =~= edits);
                        assert(eraser_edits_of(edits).take(0) =~= Seq::<Edit>::empty());
                    }
                    let m = history.versions[history_index].edits.len();
                    let mut new_version = Version::new();
                    let mut k: usize = 0;
                    while k < m
                        invariant
                            k <= m,
                            (history_index as int) < history.versions@.len(),
                            versions0 == history.versions@,
                            *history == *old(history),
                            *self == *old(self),
                            m == edits.len(),
                            edits == versions0[history_index as int].edits@,
                            edits_in_bounds(edits, s0.len() as int),
                            grid_list.wf() == old(grid_list).wf(),
                            grid_list.grid_size == old(grid_list).grid_size,
                            grid_list.current_selection == old(grid_list).current_selection,
                            grid_list.data@.len() == s0.len(),
                            blank_cells(s0, edits) == blank_cells(
                                grid_list.data@,
                                edits.skip(k as int),
                            ),
                            new_version.edits@ == eraser_edits_of(edits).take(k as int),
                        decreases m - k,
                    {
                        let e = history.versions[history_index].edits[k];
                        proof {
                            assert(edits.skip(k as int)[0] == edits[k as int]);
                            assert(edits.skip(k as int).drop_first() =~= edits.skip(
                                k as int + 1,
                            ));
                        }
                        grid_list.set(e.index, CHAR_SPACE);
                        new_version.push(e.index, e.to, CHAR_SPACE, DrawingTools::Eraser);
                        proof {
                            assert(new_version.edits@ =~= eraser_edits_of(edits).take(
                                k as int + 1,
                            ));
                        }
                        k = k + 1;
                    }
                    proof {
                        assert(edits.skip(m as int) =~= Seq::<Edit>::empty());
                        assert(eraser_edits_of(edits).take(m as int) =~= eraser_edits_of(edits));
                        assert(version_covers(edits, pos as int));
                        assert(eraser_edits_of(edits).len() > 0);
                    }
                    history.save_version(new_version);
                }
                true
            },
        }
    }

    /// One stroke step of the eraser at `pos`.  Without the modifier it
    /// erases the square footprint; with it, the whole recorded shape under
    /// the cursor.  A step over the previous cursor cell, or over ground the
    /// pass would find already blank, does nothing.
    pub fn stroke(
        &mut self,
        grid_list: &mut GridList,
        history: &mut History,
        pos: usize,
        ctrl: bool,
    )
        requires
            old(grid_list).wf(),
            old(history).wf(),
            versions_in_bounds(old(history).versions@, old(grid_list).data@.len() as int),
            (pos as int) < old(grid_list).rows() * old(grid_list).cols(),
            old(grid_list).rows() <= usize::MAX - 4,
            old(grid_list).cols() <= usize::MAX - 4,
        ensures
            final(grid_list).wf(),
            final(grid_list).grid_size == old(grid_list).grid_size,
            final(grid_list).current_selection == old(grid_list).current_selection,
            final(history).wf(),
            final(self).size == old(self).size,
            ({
                let s = old(grid_list).data@;
                let rows = old(grid_list).rows();
                let cols = old(grid_list).cols();
                let row = pos as int / cols;
                let col = pos as int % cols;
                let k = old(self).size.spec_radius();
                if ctrl {
                    let skip = old(self).last_cursor_position is Some && (old(
                        self,
                    ).last_cursor_position->0 == pos || s[pos as int].content == CHAR_SPACE);
                    if skip {
                        &&& *final(self) == *old(self)
                        &&& *final(grid_list) == *old(grid_list)
                        &&& *final(history) == *old(history)
                    } else {
                        &&& final(self).last_cursor_position == Some(pos)
                        &&& final(self).version == old(self).version
                        &&& match find_covering_from(old(history).versions@, pos as int, 0) {
                            None => *final(grid_list) == *old(grid_list) && *final(history)
                                == *old(history),
                            Some(vi) => {
                                let edits = old(history).versions@[vi].edits@;
                                &&& final(grid_list).data@ == blank_cells(s, edits)
                                &&& final(history).versions@.len() == old(history).index + 1
                                &&& final(history).versions@[old(history).index as int].edits@
                                    == eraser_edits_of(edits)
                                &&& final(history).index == old(history).index + 1
                            },
                        }
                    }
                } else {
                    let skip = old(self).last_cursor_position is Some && (old(
                        self,
                    ).last_cursor_position->0 == pos || erase_box_empty(
                        s,
                        row,
                        col,
                        k,
                        rows,
                        cols,
                    ));
                    if skip {
                        &&& *final(self) == *old(self)
                        &&& *final(grid_list) == *old(grid_list)
                        &&& *final(history) == *old(history)
                    } else {
                        &&& *final(history) == *old(history)
                        &&& final(self).last_cursor_position == Some(pos)
                        &&& forall|r: int, c: int|
                            0 <= r < rows && 0 <= c < cols ==> final(grid_list).data@[
                                #[trigger] cell_index(r, c, cols)
                            ] == (if in_erase_box(r, c, row, col, k, rows, cols) {
                                s[cell_index(r, c, cols)].spec_clear()
                            } else {
                                s[cell_index(r, c, cols)]
                            })
                        &&& final(self).version.edits@ == erase_area_edits(
                            s,
                            old(self).version.edits@,
                            clamp_sub(row, k),
                            row + k,
                            clamp_sub(col, k),
                            col + k,
                            rows,
                            cols,
                        )
                    }
                }
            }),
    {
        proof {
            lemma_pos_div_bounds(
                pos as int,
                old(grid_list).rows(),
                old(grid_list).cols(),
            );
        }
        if ctrl {
            if let Some(last_cursor_pos) = self.last_cursor_position {
                if pos == last_cursor_pos || self.shape_action(
                    grid_list,
                    history,
                    pos,
                    &EraserAction::CheckEmpty,
                ) {
                    return ;
                }
            }
            self.last_cursor_position = Some(pos);
            let _ = self.shape_action(grid_list, history, pos, &EraserAction::Clear);
            return ;
        }
        if let Some(last_cursor_pos) = self.last_cursor_position {
            if pos == last_cursor_pos || self.area_action(
                grid_list,
                pos,
                &EraserAction::CheckEmpty,
            ) {
                return ;
            }
        }
        self.last_cursor_position = Some(pos);
        let _ = self.area_action(grid_list, pos, &EraserAction::Clear);
    }

    /// End the stroke: save its accumulated version and start afresh.
    pub fn finish(&mut self, history: &mut History)
        requires
            old(history).wf(),
        ensures
            final(self).last_cursor_position == old(self).last_cursor_position,
            final(self).size == old(self).size,
            final(self).version.edits@.len() == 0,
            final(history).wf(),
            old(self).version.edits@.len() == 0 ==> *final(history) == *old(history),
            old(self).version.edits@.len() > 0 ==> {
                &&& final(history).versions@.len() == old(history).index + 1
                &&& final(history).versions@.subrange(0, old(history).index as int) == old(
                    history,
                ).versions@.subrange(0, old(history).index as int)
                &&& final(history).versions@[old(history).index as int].edits@ == old(
                    self,
                ).version.edits@
                &&& final(history).index == old(history).index + 1
            },
    {
        history.save_version(self.version.duplicate());
        self.version.clear();
    }

}

/// Row-major position arithmetic for a linear index: its row and column are
/// in range and recombine to the index.
pub proof fn lemma_pos_div_bounds(pos: int, rows: int, cols: int)
    requires
        0 <= pos,
        0 <= rows,
        0 <= cols,
        pos < rows * cols,
    ensures
        cols > 0,
        0 <= pos / cols < rows,
        0 <= pos % cols < cols,
        cell_index(pos / cols, pos % cols, cols) == pos,
{
    assert(cols > 0) by (nonlinear_arith)
        requires
            0 <= pos,
            0 <= rows,
            0 <= cols,
            pos < rows * cols,
    ;
    vstd::arithmetic::div_mod::lemma_fundamental_div_mod(pos, cols);
    vstd::arithmetic::div_mod::lemma_mod_bound(pos, cols);
    vstd::arithmetic::div_mod::lemma_div_pos_is_pos(pos, cols);
    assert(rows * cols == cols * rows) by (nonlinear_arith);
    vstd::arithmetic::div_mod::lemma_multiply_divide_lt(pos, cols, rows);
    assert(cell_index(pos / cols, pos % cols, cols) == (pos / cols) * cols + pos % cols);
    assert((pos / cols) * cols == cols * (pos / cols)) by (nonlinear_arith);
}

} // verus!
