//! The single-cell erase tool: clears the cell under the cursor.

use vstd::prelude::*;

use crate::grid_list::{cell_index, lemma_rowmajor_bound, GridList};

verus! {

/// A stateless tool that erases one cell at a time.
pub struct EraseTool;

impl EraseTool {
    pub fn new() -> (r: Self) {
        Self {  }
    }

    /// Clear the cell at `(row, col)`.
    pub fn erase_at(&self, grid_list: &mut GridList, row: usize, col: usize)
        requires
            old(grid_list).wf(),
            (row as int) < old(grid_list).rows(),
            (col as int) < old(grid_list).cols(),
        ensures
            final(grid_list).wf(),
            final(grid_list).grid_size == old(grid_list).grid_size,
            final(grid_list).current_selection == old(grid_list).current_selection,
            final(grid_list).data@ == old(grid_list).data@.update(
                cell_index(row as int, col as int, old(grid_list).cols()),
                old(grid_list).data@[cell_index(
                    row as int,
                    col as int,
                    old(grid_list).cols(),
                )].spec_clear(),
            ),
    {
        let ghost rows_g = grid_list.rows();
        let ghost cols_g = grid_list.cols();
        let cols_n = grid_list.grid_size.1;
        let buf_len = grid_list.data.len();
        proof {
            lemma_rowmajor_bound(row as int, col as int, rows_g, cols_g);
            assert(cell_index(row as int, col as int, cols_g) < buf_len);
        }
        let i = row * cols_n + col;
        let mut cell = grid_list.data[i];
        cell.clear();
        grid_list.data[i] = cell;
    }
}

} // verus!
