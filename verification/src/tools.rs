//! Tool identifiers and shared tool-level types.  Each concrete tool
//! translates already-resolved grid coordinates and key values into grid,
//! shape and history mutations; pointer-to-cell mapping stays with the
//! application shell.

pub mod erase;
pub mod eraser;
pub mod joint_fixer;
pub mod line;
pub mod rect;
pub mod select;
pub mod text;

use vstd::prelude::*;

verus! {

/// Which tool produced an edit; recorded on every history entry.
#[derive(Clone, Copy, Debug, PartialEq, Eq, Structural)]
pub enum DrawingTools {
    Select,
    Line,
    Text,
    Eraser,
    Rect,
}

impl DrawingTools {
    /// The display name of the tool.
    pub fn label(&self) -> (r: &'static str)
        ensures
            *self is Select ==> r@ == "SELECT"@,
            *self is Line ==> r@ == "LINE"@,
            *self is Text ==> r@ == "TEXT"@,
            *self is Eraser ==> r@ == "ERASER"@,
            *self is Rect ==> r@ == "RECTANGLE"@,
    {
        match self {
            DrawingTools::Select => "SELECT",
            DrawingTools::Line => "LINE",
            DrawingTools::Text => "TEXT",
            DrawingTools::Eraser => "ERASER",
            DrawingTools::Rect => "RECTANGLE",
        }
    }
}

/// The footprint size of area tools such as the eraser.
#[derive(Clone, Copy, Debug, PartialEq, Eq, Structural)]
pub enum ToolsSize {
    Default,
    Small,
    Medium,
    Large,
}

impl ToolsSize {
    /// The half-width of the square footprint the size stands for.
    pub open spec fn spec_radius(self) -> int {
        match self {
            ToolsSize::Default => 0,
            ToolsSize::Small => 1,
            ToolsSize::Medium => 2,
            ToolsSize::Large => 4,
        }
    }

    pub fn radius(&self) -> (r: usize)
        ensures
            r == self.spec_radius(),
    {
        match self {
            ToolsSize::Default => 0,
            ToolsSize::Small => 1,
            ToolsSize::Medium => 2,
            ToolsSize::Large => 4,
        }
    }
}

/// A request to grow or shrink a tool's footprint.
#[derive(Clone, Copy, Debug, PartialEq, Eq, Structural)]
pub enum ResizeOption {
    Increase,
    Decrease,
}

/// The set of tools and which of them is active.  The application shell
/// routes each input event to the active tool's own methods.
pub struct ToolManager {
    pub select: crate::tools::select::SelectTool,
    pub line: crate::tools::line::LineTool,
    pub text: crate::tools::text::TextTool,
    pub eraser: crate::tools::eraser::EraserTool,
    pub rect: crate::tools::rect::RectTool,
    pub current: DrawingTools,
}

impl ToolManager {
    pub fn new() -> (r: Self)
        ensures
            r.current == DrawingTools::Select,
            r.text.version.edits@.len() == 0,
            r.eraser.version.edits@.len() == 0,
    {
        Self {
            select: crate::tools::select::SelectTool::new(),
            line: crate::tools::line::LineTool::new(),
            text: crate::tools::text::TextTool::new(),
            eraser: crate::tools::eraser::EraserTool::new(),
            rect: crate::tools::rect::RectTool::new(),
            current: DrawingTools::Select,
        }
    }

    pub fn set_tool(&mut self, tool: DrawingTools)
        ensures
            *final(self) == (ToolManager { current: tool, ..*old(self) }),
    {
        self.current = tool;
    }
}

} // verus!
