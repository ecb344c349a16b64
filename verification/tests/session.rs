use ascii_d::consts::{CHAR_CORNER_TL_L, CHAR_CROSS, CHAR_SPACE};
use ascii_d::grid_list::GridList;
use ascii_d::history::History;
use ascii_d::shapes::line::{LineDirection, LineShape};
use ascii_d::shapes::rect::RectShape;
use ascii_d::shapes::{Shape, ShapeList};
use ascii_d::tools::DrawingTools;

/// A small editing session: draw a box and a crossing line, serialize,
/// reload, and unwind the whole session with undo.
#[test]
fn drawing_session_round_trips_and_unwinds() {
    let mut grid = GridList::new(12, 12);
    let mut history = History::new();
    let mut shapes = ShapeList::new();

    let mut rect = RectShape::new(1, 1);
    rect.end = (4, 6);
    shapes.add_shape(Shape::Rect(rect));
    shapes.draw(&mut grid);
    shapes.commit(&mut grid, &mut history);

    let mut line = LineShape::new(2, 0);
    line.end = (2, 8);
    line.direction = LineDirection::LeftToRight;
    shapes.add_shape(Shape::Line(line));
    shapes.draw(&mut grid);
    shapes.commit(&mut grid, &mut history);

    // the line crossed both vertical edges of the box
    assert_eq!(grid.get(2 * 12 + 1).read_content(), CHAR_CROSS);
    assert_eq!(grid.get(2 * 12 + 6).read_content(), CHAR_CROSS);
    assert_eq!(grid.get(12 + 1).read_content(), CHAR_CORNER_TL_L);

    // serialization round-trip preserves the picture
    let text = grid.to_text();
    let mut reloaded = GridList::new(12, 12);
    reloaded.load_content(text, &mut history, DrawingTools::Select);
    for i in 0..144 {
        assert_eq!(reloaded.get(i).read_content(), grid.get(i).read_content());
    }

    // three versions were recorded (rect, line, reload); unwind the first two
    history.undo(&mut grid);
    history.undo(&mut grid);
    history.undo(&mut grid);
    for i in 0..144 {
        assert_eq!(grid.get(i).read_content(), CHAR_SPACE, "cell {i}");
    }
}
