//! Character-grid diagram core: an addressable grid of cells with a
//! preview/commit/discard editing protocol, a box-drawing junction resolver,
//! a versioned undo/redo history, and the shapes and tools that draw on the
//! grid.  The surrounding application shell translates pointer and key events
//! into plain row/column calls on these types.

pub mod consts;
pub mod grid_cell;
pub mod grid_list;
pub mod history;
pub mod overlap;
pub mod shapes;
pub mod state;
pub mod textio;
pub mod tools;
