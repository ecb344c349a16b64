use ascii_d::consts::{
    CHAR_ARROW_LEFT, CHAR_ARROW_RIGHT, CHAR_ARROW_UP, CHAR_CORNER_BL_L, CHAR_CORNER_BR_L,
    CHAR_CORNER_TL_L, CHAR_CORNER_TR_L, CHAR_HOR_DOWN_L, CHAR_HOR_L, CHAR_SPACE, CHAR_VER_L,
};
use ascii_d::grid_list::GridList;
use ascii_d::history::History;
use ascii_d::shapes::block::BlockShape;
use ascii_d::shapes::line::{LineDirection, LineShape};
use ascii_d::shapes::rect::RectShape;
use ascii_d::shapes::text::TextShape;
use ascii_d::shapes::{Shape, ShapeList};

#[test]
fn rect_draw_places_corners_and_edges_only() {
    let mut grid = GridList::new(10, 10);
    let mut rect = RectShape::new(2, 2);
    rect.end = (5, 7);
    rect.draw(&mut grid);
    let at = |r: usize, c: usize| grid.get(r * 10 + c).read();
    assert_eq!(at(2, 2), CHAR_CORNER_TL_L);
    assert_eq!(at(2, 7), CHAR_CORNER_TR_L);
    assert_eq!(at(5, 2), CHAR_CORNER_BL_L);
    assert_eq!(at(5, 7), CHAR_CORNER_BR_L);
    for c in 3..7 {
        assert_eq!(at(2, c), CHAR_HOR_L);
        assert_eq!(at(5, c), CHAR_HOR_L);
    }
    for r in 3..5 {
        assert_eq!(at(r, 2), CHAR_VER_L);
        assert_eq!(at(r, 7), CHAR_VER_L);
    }
    // interior untouched
    for r in 3..5 {
        for c in 3..7 {
            assert_eq!(at(r, c), CHAR_SPACE);
            assert!(grid.get(r * 10 + c).preview.is_none());
        }
    }
}

#[test]
fn rect_draw_normalizes_swapped_corners() {
    let mut grid = GridList::new(10, 10);
    let mut rect = RectShape::new(5, 7);
    rect.end = (2, 2);
    rect.draw(&mut grid);
    assert_eq!(grid.get(2 * 10 + 2).read(), CHAR_CORNER_TL_L);
    assert_eq!(grid.get(5 * 10 + 7).read(), CHAR_CORNER_BR_L);
}

#[test]
fn line_draw_tags_start_cell_and_stages_run() {
    let mut grid = GridList::new(10, 10);
    let mut line = LineShape::new(0, 0);
    line.end = (0, 5);
    line.direction = LineDirection::LeftToRight; // the tag a rightward drag gets
    line.draw(&mut grid);
    assert_eq!(grid.get(0).line_direction, Some(LineDirection::LeftToRight));
    for c in 0..5 {
        assert_eq!(grid.get(c).read(), CHAR_HOR_L, "cell (0,{c})");
    }
    assert_eq!(grid.get(5).read(), CHAR_ARROW_RIGHT);
}

#[test]
fn line_draw_leftward_stages_run_toward_start() {
    let mut grid = GridList::new(10, 10);
    let mut line = LineShape::new(0, 7);
    line.end = (0, 2);
    line.direction = LineDirection::RightToLeft; // the tag a leftward drag gets
    line.draw(&mut grid);
    for c in 3..8 {
        assert_eq!(grid.get(c).read(), CHAR_HOR_L, "cell (0,{c})");
    }
    assert_eq!(grid.get(2).read(), CHAR_ARROW_LEFT);
}

#[test]
fn committed_perpendicular_line_uses_direction_tag_for_tee() {
    let mut grid = GridList::new(10, 10);
    let mut history = History::new();
    // a committed horizontal run through row 0 (a rightward drag)
    let mut hor = LineShape::new(0, 0);
    hor.end = (0, 5);
    hor.direction = LineDirection::LeftToRight;
    hor.draw(&mut grid);
    hor.commit(&mut grid, &mut history);
    // a vertical line drawn downward starting on top of it
    let mut ver = LineShape::new(0, 3);
    ver.end = (3, 3);
    ver.direction = LineDirection::UpToDown;
    ver.draw(&mut grid);
    ver.commit(&mut grid, &mut history);
    assert_eq!(grid.get(3).read_content(), CHAR_HOR_DOWN_L);
}

#[test]
fn line_draw_up_to_down_places_run_and_arrowhead() {
    let mut grid = GridList::new(10, 10);
    let mut line = LineShape::new(1, 4);
    line.end = (4, 4);
    line.direction = LineDirection::UpToDown;
    line.draw(&mut grid);
    for r in 1..4 {
        assert_eq!(grid.get(r * 10 + 4).read(), CHAR_VER_L);
    }
    assert_eq!(grid.get(4 * 10 + 4).read(), CHAR_ARROW_UP);
}

#[test]
fn block_draw_stamps_non_blank_characters_as_preview() {
    let mut grid = GridList::new(6, 6);
    grid.set(7, 'k');
    let block = BlockShape::new(1, 0, "a c".to_string());
    block.draw(&mut grid);
    assert_eq!(grid.get(6).read(), 'a');
    assert_eq!(grid.get(7).read(), 'k');
    assert_eq!(grid.get(8).read(), 'c');
}

#[test]
fn text_shape_draw_writes_run_and_blanks_shrunk_tail() {
    let mut grid = GridList::new(6, 6);
    let mut text = TextShape::new(2, 1, "");
    text.push_char('h');
    text.push_char('i');
    text.push_char('!');
    text.pop_char();
    text.draw(&mut grid);
    assert_eq!(grid.get(2 * 6 + 1).read_content(), 'h');
    assert_eq!(grid.get(2 * 6 + 2).read_content(), 'i');
    assert_eq!(grid.get(2 * 6 + 3).read_content(), CHAR_SPACE);
}

#[test]
fn shape_list_commit_skips_manual_text_shapes() {
    let mut grid = GridList::new(6, 6);
    let mut history = History::new();
    let mut shapes = ShapeList::new();
    let mut line = LineShape::new(0, 0);
    line.end = (0, 2);
    line.direction = LineDirection::RightToLeft;
    shapes.add_shape(Shape::Line(line));
    shapes.add_shape(Shape::Text(TextShape::new(3, 0, "")));
    shapes.draw(&mut grid); // only the last shape draws; text writes nothing here
    let line_ref = &shapes.data[0];
    assert!(line_ref.is_preview());
    shapes.commit(&mut grid, &mut history);
    assert!(!shapes.data[0].is_preview());
    assert!(shapes.data[1].is_preview()); // manual-commit text left alone
}

#[test]
fn shape_list_draw_draws_last_previewing_shape() {
    let mut grid = GridList::new(6, 6);
    let mut shapes = ShapeList::new();
    let mut rect = RectShape::new(0, 0);
    rect.end = (2, 2);
    shapes.add_shape(Shape::Rect(rect));
    shapes.draw(&mut grid);
    assert_eq!(grid.get(0).read(), CHAR_CORNER_TL_L);
}

#[test]
fn find_shape_in_point_uses_normalized_half_open_bounds() {
    let mut shapes = ShapeList::new();
    let mut rect = RectShape::new(4, 4);
    rect.end = (1, 1);
    shapes.add_shape(Shape::Rect(rect));
    assert_eq!(shapes.find_shape_in_point(2, 2), Some(0));
    assert_eq!(shapes.find_shape_in_point(4, 2), None);
    assert_eq!(shapes.find_shape_in_point(0, 0), None);
}

#[test]
fn find_shape_in_rect_requires_both_endpoints_inside() {
    let mut shapes = ShapeList::new();
    let mut inside = RectShape::new(1, 1);
    inside.end = (2, 2);
    shapes.add_shape(Shape::Rect(inside));
    let mut sticking_out = RectShape::new(1, 1);
    sticking_out.end = (8, 8);
    shapes.add_shape(Shape::Rect(sticking_out));
    let found = shapes.find_shape_in_rect(0, 0, 5, 5);
    assert_eq!(found, vec![0]);
}
