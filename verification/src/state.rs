//! Application-level editing state shared across windows.

use vstd::prelude::*;

use crate::tools::DrawingTools;

verus! {

/// The modal editing state a window can be in.
#[derive(Clone, Copy, Debug, PartialEq, Eq, Structural)]
pub enum OperationMode {
    Normal,
    Draw,
    Erase,
    Text,
    Visual,
}

impl OperationMode {
    /// The display name of the mode.
    pub fn label(&self) -> (r: &'static str)
        ensures
            *self is Normal ==> r@ == "NORMAL"@,
            *self is Draw ==> r@ == "DRAWING"@,
            *self is Erase ==> r@ == "ERASE"@,
            *self is Text ==> r@ == "TEXT INPUT"@,
            *self is Visual ==> r@ == "VISUAL"@,
    {
        match self {
            OperationMode::Normal => "NORMAL",
            OperationMode::Draw => "DRAWING",
            OperationMode::Erase => "ERASE",
            OperationMode::Text => "TEXT INPUT",
            OperationMode::Visual => "VISUAL",
        }
    }
}

/// Per-window editing state: the active tool and the file the diagram was
/// opened from, when there is one.
#[derive(Debug)]
pub struct WindowData {
    pub mode: DrawingTools,
    pub current_file: Option<String>,
}

impl WindowData {
    pub fn new() -> (r: Self)
        ensures
            r.mode == DrawingTools::Select,
            r.current_file is None,
    {
        Self { mode: DrawingTools::Select, current_file: None }
    }
}

} // verus!
