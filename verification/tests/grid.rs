use ascii_d::consts::{CHAR_CROSS, CHAR_HOR_L, CHAR_SPACE, CHAR_VER_L};
use ascii_d::grid_list::GridList;
use ascii_d::history::History;
use ascii_d::tools::DrawingTools;

#[test]
fn read_prefers_preview_over_content() {
    let mut grid = GridList::new(4, 4);
    grid.set(5, 'a');
    assert_eq!(grid.get(5).read(), 'a');
    grid.set_preview(5, 'b');
    assert_eq!(grid.get(5).read(), 'b');
    assert_eq!(grid.get(5).read_content(), 'a');
    let mut cell = grid.get(5);
    cell.discard();
    assert_eq!(cell.read(), 'a');
    cell.set_preview('c');
    cell.set_content('d');
    assert_eq!(cell.read(), 'c');
    cell.discard();
    assert_eq!(cell.read(), 'd');
}

#[test]
fn commit_all_is_idempotent_with_nothing_staged() {
    let mut grid = GridList::new(4, 4);
    let mut history = History::new();
    grid.set_preview(0, CHAR_HOR_L);
    grid.commit_all(&mut history, DrawingTools::Line);
    assert_eq!(grid.get(0).read_content(), CHAR_HOR_L);
    assert_eq!(history.get_history().len(), 1);
    assert_eq!(history.index, 1);
    // nothing is staged now: committing twice more changes nothing
    grid.commit_all(&mut history, DrawingTools::Line);
    grid.commit_all(&mut history, DrawingTools::Line);
    assert_eq!(history.get_history().len(), 1);
    assert_eq!(history.index, 1);
    assert_eq!(grid.get(0).read_content(), CHAR_HOR_L);
}

#[test]
fn commit_merges_crossing_preview_through_overlap() {
    let mut grid = GridList::new(4, 4);
    let mut history = History::new();
    grid.set(5, CHAR_HOR_L);
    grid.set_preview(5, CHAR_VER_L);
    grid.commit_all(&mut history, DrawingTools::Line);
    assert_eq!(grid.get(5).read_content(), CHAR_CROSS);
}

#[test]
fn clear_all_resets_every_cell() {
    let mut grid = GridList::new(3, 3);
    grid.set(4, 'x');
    grid.set_preview(2, 'y');
    grid.clear_all();
    for i in 0..9 {
        assert_eq!(grid.get(i).read(), CHAR_SPACE);
        assert!(grid.get(i).preview.is_none());
    }
}

#[test]
fn clear_resets_highlight_metadata_too() {
    let mut grid = GridList::new(3, 3);
    grid.set(4, 'x');
    grid.highlight(4);
    let mut cell = grid.get(4);
    cell.clear();
    assert_eq!(cell.content, CHAR_SPACE);
    assert!(cell.preview.is_none());
    assert!(!cell.highlighted);
    assert_eq!(cell.highlight_index, 0);
}

#[test]
fn highlight_rect_trims_first_row_and_col_away_from_edge() {
    let mut grid = GridList::new(8, 8);
    // starting inside the canvas: first row and column are trimmed
    grid.highlight_rect(1, 1, 5, 5);
    assert_eq!(grid.current_selection, Some(((2, 2), (5, 5))));
    for r in 0..8usize {
        for c in 0..8usize {
            let highlighted = grid.get(r * 8 + c).highlighted;
            let expected = (2..5).contains(&r) && (2..5).contains(&c);
            assert_eq!(highlighted, expected, "cell ({r},{c})");
        }
    }
}

#[test]
fn highlight_rect_from_origin_keeps_first_row_and_col() {
    let mut grid = GridList::new(8, 8);
    grid.highlight_rect(0, 0, 3, 2);
    assert_eq!(grid.current_selection, Some(((0, 0), (3, 2))));
    for r in 0..8usize {
        for c in 0..8usize {
            let highlighted = grid.get(r * 8 + c).highlighted;
            let expected = r < 3 && c < 2;
            assert_eq!(highlighted, expected, "cell ({r},{c})");
        }
    }
}

#[test]
fn get_highlighted_content_reads_selection_rows() {
    let mut grid = GridList::new(8, 8);
    let mut history = History::new();
    grid.load_content("abc\ndef".to_string(), &mut history, DrawingTools::Text);
    grid.highlight_rect(0, 0, 2, 3);
    assert_eq!(grid.get_highlighted_content(), "abc\ndef");
}

#[test]
fn erase_highlighted_clears_cells_and_records_version() {
    let mut grid = GridList::new(4, 4);
    let mut history = History::new();
    grid.set(5, 'x');
    grid.highlight(5);
    grid.erase_highlighted(&mut history, DrawingTools::Select);
    assert_eq!(grid.get(5).read_content(), CHAR_SPACE);
    assert!(!grid.get(5).highlighted);
    assert_eq!(history.get_history().len(), 1);
    let version = &history.get_history()[0];
    assert_eq!(version.get_edits().len(), 1);
    assert_eq!(version.get_edits()[0].get_index(), 5);
    assert_eq!(version.get_edits()[0].get_from(), 'x');
    assert_eq!(version.get_edits()[0].get_to(), CHAR_SPACE);
}
