use ascii_d::consts::CHAR_SPACE;
use ascii_d::grid_list::GridList;
use ascii_d::history::{History, Version};
use ascii_d::tools::DrawingTools;

#[test]
fn empty_version_is_dropped() {
    let mut history = History::new();
    history.save_version(Version::new());
    assert_eq!(history.get_history().len(), 0);
    assert_eq!(history.index, 0);
}

#[test]
fn undo_and_redo_are_noops_at_the_ends() {
    let mut grid = GridList::new(3, 3);
    let mut history = History::new();
    history.undo(&mut grid);
    history.redo(&mut grid);
    assert_eq!(history.index, 0);
    assert_eq!(grid.get(0).read_content(), CHAR_SPACE);
}

#[test]
fn history_round_trip_restores_grid() {
    let mut grid = GridList::new(4, 4);
    let mut history = History::new();
    // two versions applied through the normal commit path
    grid.set_preview(0, 'a');
    grid.set_preview(5, 'b');
    grid.commit_all(&mut history, DrawingTools::Text);
    grid.set_preview(5, 'c');
    grid.set_preview(9, 'd');
    grid.commit_all(&mut history, DrawingTools::Text);
    let applied: Vec<char> = (0..16).map(|i| grid.get(i).read_content()).collect();

    history.undo(&mut grid);
    history.undo(&mut grid);
    assert_eq!(grid.get(0).read_content(), CHAR_SPACE);
    assert_eq!(grid.get(5).read_content(), CHAR_SPACE);
    assert_eq!(grid.get(9).read_content(), CHAR_SPACE);

    history.redo(&mut grid);
    history.redo(&mut grid);
    let replayed: Vec<char> = (0..16).map(|i| grid.get(i).read_content()).collect();
    assert_eq!(replayed, applied);
}

#[test]
fn undo_restores_overwritten_glyph_exactly() {
    let mut grid = GridList::new(3, 3);
    let mut history = History::new();
    grid.set_preview(4, 'x');
    grid.commit_all(&mut history, DrawingTools::Text);
    grid.set_preview(4, 'y');
    grid.commit_all(&mut history, DrawingTools::Text);
    assert_eq!(grid.get(4).read_content(), 'y');
    history.undo(&mut grid);
    assert_eq!(grid.get(4).read_content(), 'x');
    history.undo(&mut grid);
    assert_eq!(grid.get(4).read_content(), CHAR_SPACE);
}

#[test]
fn branch_discard_makes_redo_unavailable() {
    let mut grid = GridList::new(3, 3);
    let mut history = History::new();
    grid.set_preview(0, 'a');
    grid.commit_all(&mut history, DrawingTools::Text);
    grid.set_preview(1, 'b');
    grid.commit_all(&mut history, DrawingTools::Text);
    history.undo(&mut grid);
    assert_eq!(history.index, 1);
    assert_eq!(history.get_history().len(), 2);
    // a new save discards the redoable version
    grid.set_preview(2, 'z');
    grid.commit_all(&mut history, DrawingTools::Text);
    assert_eq!(history.get_history().len(), 2);
    assert_eq!(history.index, 2);
    let before: Vec<char> = (0..9).map(|i| grid.get(i).read_content()).collect();
    history.redo(&mut grid);
    let after: Vec<char> = (0..9).map(|i| grid.get(i).read_content()).collect();
    assert_eq!(history.index, 2);
    assert_eq!(before, after);
    // the discarded version's glyph never comes back
    assert_eq!(grid.get(1).read_content(), CHAR_SPACE);
    assert_eq!(grid.get(2).read_content(), 'z');
}

#[test]
fn push_without_overwrite_keeps_first_write() {
    let mut version = Version::new();
    version.push_without_overwrite(3, 'a', ' ', DrawingTools::Eraser);
    version.push_without_overwrite(3, 'b', ' ', DrawingTools::Eraser);
    version.push_without_overwrite(4, 'c', ' ', DrawingTools::Eraser);
    assert_eq!(version.len(), 2);
    assert_eq!(version.get_edits()[0].get_from(), 'a');
    assert_eq!(version.get_edits()[1].get_index(), 4);
}
