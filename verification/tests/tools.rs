use ascii_d::consts::{CHAR_SPACE, CHAR_VER_L};
use ascii_d::grid_list::GridList;
use ascii_d::history::History;
use ascii_d::shapes::line::LineDirection;
use ascii_d::shapes::{Shape, ShapeList};
use ascii_d::state::{OperationMode, WindowData};
use ascii_d::tools::erase::EraseTool;
use ascii_d::tools::eraser::EraserTool;
use ascii_d::tools::line::LineTool;
use ascii_d::tools::rect::RectTool;
use ascii_d::tools::select::SelectTool;
use ascii_d::tools::text::{TextInput, TextTool};
use ascii_d::tools::{DrawingTools, ResizeOption, ToolManager, ToolsSize};

#[test]
fn line_tool_snaps_to_dominant_axis() {
    let tool = LineTool::new();
    let mut shapes = ShapeList::new();
    tool.start_at(&mut shapes, 3, 3);
    tool.drag_to(&mut shapes, 8, 4); // taller than wide: vertical downward
    match &shapes.data[0] {
        Shape::Line(l) => {
            assert_eq!(l.end, (8, 3));
            assert_eq!(l.direction, LineDirection::UpToDown);
        },
        _ => panic!("expected a line"),
    }
    tool.drag_to(&mut shapes, 3, 0); // wider than tall, leftward
    match &shapes.data[0] {
        Shape::Line(l) => {
            assert_eq!(l.end, (3, 0));
            assert_eq!(l.direction, LineDirection::RightToLeft);
        },
        _ => panic!("expected a line"),
    }
}

#[test]
fn rect_tool_tracks_cursor_corner() {
    let tool = RectTool::new();
    let mut shapes = ShapeList::new();
    tool.start_at(&mut shapes, 1, 1);
    tool.drag_to(&mut shapes, 4, 6);
    match &shapes.data[0] {
        Shape::Rect(r) => {
            assert_eq!(r.start, (1, 1));
            assert_eq!(r.end, (4, 6));
        },
        _ => panic!("expected a rectangle"),
    }
}

#[test]
fn eraser_sizes_step_up_and_down() {
    let mut eraser = EraserTool::new();
    assert_eq!(eraser.size, ToolsSize::Default);
    eraser.increase_size();
    eraser.increase_size();
    assert_eq!(eraser.size, ToolsSize::Medium);
    eraser.resize(ResizeOption::Increase);
    assert_eq!(eraser.size, ToolsSize::Large);
    eraser.increase_size();
    assert_eq!(eraser.size, ToolsSize::Large);
    eraser.resize(ResizeOption::Decrease);
    eraser.decrease_size();
    eraser.decrease_size();
    assert_eq!(eraser.size, ToolsSize::Default);
    assert_eq!(ToolsSize::Large.radius(), 4);
}

#[test]
fn eraser_stroke_clears_footprint_and_records_version() {
    let mut grid = GridList::new(6, 6);
    let mut history = History::new();
    let mut eraser = EraserTool::new();
    for i in 0..36 {
        grid.set(i, '#');
    }
    eraser.increase_size(); // radius 1
    eraser.stroke(&mut grid, &mut history, 2 * 6 + 2, false);
    for r in 1..4usize {
        for c in 1..4usize {
            assert_eq!(grid.get(r * 6 + c).read_content(), CHAR_SPACE);
        }
    }
    assert_eq!(grid.get(0).read_content(), '#');
    eraser.finish(&mut history);
    assert_eq!(history.get_history().len(), 1);
    assert_eq!(history.get_history()[0].get_edits().len(), 9);
}

#[test]
fn eraser_stroke_skips_already_blank_ground() {
    let mut grid = GridList::new(6, 6);
    let mut history = History::new();
    let mut eraser = EraserTool::new();
    grid.set(14, '#');
    eraser.stroke(&mut grid, &mut history, 0, false);
    // second step over blank ground does nothing
    eraser.stroke(&mut grid, &mut history, 1, false);
    eraser.finish(&mut history);
    assert_eq!(history.get_history().len(), 1);
    assert_eq!(grid.get(14).read_content(), '#');
}

#[test]
fn shape_eraser_removes_whole_recorded_shape() {
    let mut grid = GridList::new(6, 6);
    let mut history = History::new();
    // a committed vertical run recorded as one version
    grid.set_preview(2, CHAR_VER_L);
    grid.set_preview(8, CHAR_VER_L);
    grid.set_preview(14, CHAR_VER_L);
    grid.commit_all(&mut history, DrawingTools::Line);
    let mut eraser = EraserTool::new();
    eraser.stroke(&mut grid, &mut history, 8, true);
    assert_eq!(grid.get(2).read_content(), CHAR_SPACE);
    assert_eq!(grid.get(8).read_content(), CHAR_SPACE);
    assert_eq!(grid.get(14).read_content(), CHAR_SPACE);
    assert_eq!(history.get_history().len(), 2);
    // the blanking is itself undoable
    history.undo(&mut grid);
    assert_eq!(grid.get(8).read_content(), CHAR_VER_L);
}

#[test]
fn erase_tool_clears_single_cell() {
    let mut grid = GridList::new(4, 4);
    grid.set(5, 'x');
    let tool = EraseTool::new();
    tool.erase_at(&mut grid, 1, 1);
    assert_eq!(grid.get(5).read_content(), CHAR_SPACE);
}

#[test]
fn text_tool_types_and_wraps_cursor() {
    let mut grid = GridList::new(3, 3);
    let mut history = History::new();
    let mut tool = TextTool::new();
    tool.begin_at(&mut grid, 0, 1);
    tool.input(&TextInput::Character('a'), &mut grid, &mut history);
    tool.input(&TextInput::Character('b'), &mut grid, &mut history);
    tool.input(&TextInput::Character('c'), &mut grid, &mut history);
    assert_eq!(grid.get(1).read_content(), 'a');
    assert_eq!(grid.get(2).read_content(), 'b');
    assert_eq!(grid.get(3).read_content(), 'c'); // wrapped to row 1, col 0
    assert_eq!(tool.cursor_position, (1, 1));
    assert_eq!(history.get_history().len(), 3);
}

#[test]
fn text_tool_backspace_erases_previous_cell() {
    let mut grid = GridList::new(3, 3);
    let mut history = History::new();
    let mut tool = TextTool::new();
    tool.begin_at(&mut grid, 0, 0);
    tool.input(&TextInput::Character('a'), &mut grid, &mut history);
    tool.input(&TextInput::Backspace, &mut grid, &mut history);
    assert_eq!(grid.get(0).read_content(), CHAR_SPACE);
    assert_eq!(tool.cursor_position, (0, 0));
}

#[test]
fn text_tool_enter_returns_to_line_start() {
    let mut grid = GridList::new(4, 4);
    let mut history = History::new();
    let mut tool = TextTool::new();
    tool.begin_at(&mut grid, 0, 2);
    tool.input(&TextInput::Character('x'), &mut grid, &mut history);
    tool.input(&TextInput::Enter, &mut grid, &mut history);
    assert_eq!(tool.cursor_position, (1, 2));
}

#[test]
fn text_tool_arrows_move_within_bounds() {
    let mut grid = GridList::new(2, 2);
    let mut history = History::new();
    let mut tool = TextTool::new();
    tool.begin_at(&mut grid, 0, 0);
    tool.input(&TextInput::ArrowUp, &mut grid, &mut history);
    assert_eq!(tool.cursor_position, (0, 0));
    tool.input(&TextInput::ArrowDown, &mut grid, &mut history);
    assert_eq!(tool.cursor_position, (1, 0));
    tool.input(&TextInput::ArrowRight, &mut grid, &mut history);
    assert_eq!(tool.cursor_position, (1, 1));
    tool.input(&TextInput::ArrowLeft, &mut grid, &mut history);
    assert_eq!(tool.cursor_position, (1, 0));
    assert!(history.get_history().is_empty());
}

#[test]
fn select_tool_grabs_highlighted_region_as_block() {
    let mut grid = GridList::new(6, 6);
    let mut history = History::new();
    let mut shapes = ShapeList::new();
    let mut tool = SelectTool::new();
    grid.load_content("ab".to_string(), &mut history, DrawingTools::Text);
    grid.highlight_rect(0, 0, 1, 2);
    let began = tool.start_at(&mut grid, &mut history, &mut shapes, 0, 0);
    assert!(!began);
    assert_eq!(shapes.data.len(), 1);
    match &shapes.data[0] {
        Shape::Block(b) => {
            assert_eq!(b.start, (0, 0));
            let content: String = b.content.iter().collect();
            assert_eq!(content, "ab");
        },
        _ => panic!("expected a block"),
    }
    // the grabbed cells were erased and highlighting cleared
    assert_eq!(grid.get(0).read_content(), CHAR_SPACE);
    assert!(grid.current_selection.is_none());
    // dropping the block elsewhere re-stamps it
    tool.drag_to(&mut shapes, 3, 3);
    shapes.draw(&mut grid);
    shapes.commit(&mut grid, &mut history);
    assert_eq!(grid.get(3 * 6 + 3).read_content(), 'a');
    assert_eq!(grid.get(3 * 6 + 4).read_content(), 'b');
}

#[test]
fn select_tool_on_plain_ground_begins_selection() {
    let mut grid = GridList::new(4, 4);
    let mut history = History::new();
    let mut shapes = ShapeList::new();
    let mut tool = SelectTool::new();
    let began = tool.start_at(&mut grid, &mut history, &mut shapes, 1, 1);
    assert!(began);
    assert!(tool.is_selecting);
    tool.finish();
    assert!(!tool.is_selecting);
}

#[test]
fn labels_name_tools_and_modes() {
    assert_eq!(DrawingTools::Select.label(), "SELECT");
    assert_eq!(DrawingTools::Rect.label(), "RECTANGLE");
    assert_eq!(OperationMode::Text.label(), "TEXT INPUT");
    let data = WindowData::new();
    assert_eq!(data.mode, DrawingTools::Select);
    assert!(data.current_file.is_none());
}

#[test]
fn tool_manager_switches_active_tool() {
    let mut manager = ToolManager::new();
    assert_eq!(manager.current, DrawingTools::Select);
    manager.set_tool(DrawingTools::Eraser);
    assert_eq!(manager.current, DrawingTools::Eraser);
    manager.eraser.increase_size();
    assert_eq!(manager.eraser.size, ToolsSize::Small);
}

#[test]
fn tool_drawn_horizontal_line_stages_its_run() {
    let mut grid = GridList::new(8, 8);
    let tool = LineTool::new();
    let mut shapes = ShapeList::new();
    tool.start_at(&mut shapes, 0, 0);
    tool.drag_to(&mut shapes, 0, 5);
    shapes.draw(&mut grid);
    for c in 0..5 {
        assert_eq!(grid.get(c).read(), '─', "cell (0,{c})");
    }
    assert_ne!(grid.get(5).read(), ' '); // the arrowhead
    assert_eq!(grid.get(0).line_direction, Some(LineDirection::LeftToRight));
}

#[test]
fn tool_drawn_vertical_line_stages_its_run() {
    let mut grid = GridList::new(8, 8);
    let tool = LineTool::new();
    let mut shapes = ShapeList::new();
    tool.start_at(&mut shapes, 1, 2);
    tool.drag_to(&mut shapes, 5, 2);
    shapes.draw(&mut grid);
    for r in 1..5 {
        assert_eq!(grid.get(r * 8 + 2).read(), CHAR_VER_L, "cell ({r},2)");
    }
    assert_eq!(grid.get(10).line_direction, Some(LineDirection::UpToDown));
}
