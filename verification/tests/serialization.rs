use ascii_d::grid_list::GridList;
use ascii_d::history::History;
use ascii_d::tools::DrawingTools;

#[test]
fn to_text_of_empty_grid_is_empty() {
    let grid = GridList::new(5, 5);
    assert_eq!(grid.to_text(), "");
}

#[test]
fn to_text_emits_bounding_box_rows() {
    let mut grid = GridList::new(5, 5);
    let mut history = History::new();
    grid.load_content("ab\n c".to_string(), &mut history, DrawingTools::Text);
    assert_eq!(grid.to_text(), "ab\n c\n");
}

#[test]
fn load_content_skips_blanks_so_underlying_content_survives() {
    let mut grid = GridList::new(5, 5);
    let mut history = History::new();
    grid.set(6, 'x');
    // the space above position (1,1) must not clobber the 'x'
    grid.load_content("ab\n  cd".to_string(), &mut history, DrawingTools::Text);
    assert_eq!(grid.get(0).read_content(), 'a');
    assert_eq!(grid.get(1).read_content(), 'b');
    assert_eq!(grid.get(6).read_content(), 'x');
    assert_eq!(grid.get(7).read_content(), 'c');
    assert_eq!(grid.get(8).read_content(), 'd');
}

#[test]
fn text_round_trip_reproduces_every_glyph() {
    let mut grid = GridList::new(6, 6);
    let mut history = History::new();
    grid.load_content("┌─┐\n│x│\n└─┘".to_string(), &mut history, DrawingTools::Line);
    let text = grid.to_text();
    let mut reloaded = GridList::new(6, 6);
    reloaded.load_content(text, &mut history, DrawingTools::Line);
    for i in 0..36 {
        assert_eq!(
            reloaded.get(i).read_content(),
            grid.get(i).read_content(),
            "cell {i}"
        );
    }
}

#[test]
fn round_trip_into_wider_grid_keeps_rows_and_columns() {
    let mut grid = GridList::new(4, 4);
    let mut history = History::new();
    grid.load_content("ab\ncd".to_string(), &mut history, DrawingTools::Text);
    let text = grid.to_text();
    let mut wider = GridList::new(9, 9);
    wider.load_content(text, &mut history, DrawingTools::Text);
    assert_eq!(wider.get(0).read_content(), 'a');
    assert_eq!(wider.get(1).read_content(), 'b');
    assert_eq!(wider.get(9).read_content(), 'c');
    assert_eq!(wider.get(10).read_content(), 'd');
}

#[test]
fn put_preview_at_stages_without_touching_content() {
    let mut grid = GridList::new(4, 4);
    grid.set(1, 'z');
    grid.put_preview_at("ab", 0, 0);
    assert_eq!(grid.get(0).read(), 'a');
    assert_eq!(grid.get(1).read(), 'b');
    assert_eq!(grid.get(0).read_content(), ' ');
    assert_eq!(grid.get(1).read_content(), 'z');
}
