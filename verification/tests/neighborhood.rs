use ascii_d::consts::{
    CHAR_CORNER_BR_L, CHAR_CORNER_TL_L, CHAR_CROSS, CHAR_HOR_DOWN_L, CHAR_HOR_L, CHAR_SPACE,
    CHAR_VER_L,
};
use ascii_d::grid_list::GridList;
use ascii_d::history::History;
use ascii_d::tools::eraser::EraserTool;
use ascii_d::tools::joint_fixer::JointFixerTool;

fn grid_with(cells: &[(usize, char)]) -> GridList {
    let mut grid = GridList::new(5, 5);
    for &(i, c) in cells {
        grid.set(i, c);
    }
    grid
}

#[test]
fn vertical_neighbors_give_vertical_line() {
    // center (2,2) = 12; up = 7, down = 17
    let grid = grid_with(&[(7, CHAR_VER_L), (17, CHAR_VER_L)]);
    let fixer = JointFixerTool::new();
    let resolved = fixer.calculate_content(&grid, Some(7), Some(17), Some(11), Some(13));
    assert_eq!(resolved, Some(CHAR_VER_L));
}

#[test]
fn all_four_neighbors_give_cross() {
    let grid = grid_with(&[
        (7, CHAR_VER_L),
        (17, CHAR_VER_L),
        (11, CHAR_HOR_L),
        (13, CHAR_HOR_L),
    ]);
    let fixer = JointFixerTool::new();
    let resolved = fixer.calculate_content(&grid, Some(7), Some(17), Some(11), Some(13));
    assert_eq!(resolved, Some(CHAR_CROSS));
}

#[test]
fn down_and_right_give_top_left_corner() {
    let grid = grid_with(&[(17, CHAR_VER_L), (13, CHAR_HOR_L)]);
    let fixer = JointFixerTool::new();
    let resolved = fixer.calculate_content(&grid, Some(7), Some(17), Some(11), Some(13));
    assert_eq!(resolved, Some(CHAR_CORNER_TL_L));
}

#[test]
fn three_neighbors_give_matching_tee() {
    let grid = grid_with(&[(17, CHAR_VER_L), (11, CHAR_HOR_L), (13, CHAR_HOR_L)]);
    let fixer = JointFixerTool::new();
    let resolved = fixer.calculate_content(&grid, Some(7), Some(17), Some(11), Some(13));
    assert_eq!(resolved, Some(CHAR_HOR_DOWN_L));
}

#[test]
fn no_connecting_neighbor_blanks_the_cell() {
    let grid = grid_with(&[]);
    let fixer = JointFixerTool::new();
    let resolved = fixer.calculate_content(&grid, Some(7), Some(17), Some(11), Some(13));
    assert_eq!(resolved, Some(CHAR_SPACE));
}

#[test]
fn single_connection_leaves_cell_alone() {
    let grid = grid_with(&[(17, CHAR_VER_L)]);
    let fixer = JointFixerTool::new();
    let resolved = fixer.calculate_content(&grid, Some(7), Some(17), Some(11), Some(13));
    assert_eq!(resolved, None);
}

#[test]
fn fix_at_writes_resolved_glyph_and_records_edit() {
    let mut grid = grid_with(&[(7, CHAR_VER_L), (11, CHAR_HOR_L), (12, 'x')]);
    let mut fixer = JointFixerTool::new();
    let mut history = History::new();
    fixer.fix_at(&mut grid, 2, 2);
    assert_eq!(grid.get(12).read_content(), CHAR_CORNER_BR_L);
    fixer.finish(&mut history);
    assert_eq!(history.get_history().len(), 1);
    let edits = history.get_history()[0].get_edits();
    assert_eq!(edits.len(), 1);
    assert_eq!(edits[0].get_index(), 12);
    assert_eq!(edits[0].get_from(), 'x');
    assert_eq!(edits[0].get_to(), CHAR_CORNER_BR_L);
}

#[test]
fn fixed_joint_is_shape_erasable() {
    let mut grid = grid_with(&[(7, CHAR_VER_L), (11, CHAR_HOR_L), (12, 'x')]);
    let mut fixer = JointFixerTool::new();
    let mut history = History::new();
    fixer.fix_at(&mut grid, 2, 2);
    fixer.finish(&mut history);
    // the recorded fix does not carry the selection tag, so the shape
    // eraser finds and removes it
    let mut eraser = EraserTool::new();
    eraser.stroke(&mut grid, &mut history, 12, true);
    assert_eq!(grid.get(12).read_content(), CHAR_SPACE);
}
