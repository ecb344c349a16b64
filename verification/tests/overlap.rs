use ascii_d::consts::{
    CHAR_ARROW_LEFT, CHAR_ARROW_RIGHT, CHAR_ARROW_UP, CHAR_CORNER_BL_L, CHAR_CORNER_BR_L, CHAR_CORNER_TL_L, CHAR_CORNER_TR_L,
    CHAR_CROSS, CHAR_HOR_DOWN_L, CHAR_HOR_L, CHAR_HOR_UP_L, CHAR_SPACE, CHAR_VER_L,
    CHAR_VER_LEFT_L, CHAR_VER_RIGHT_L,
};
use ascii_d::overlap::calculate_cell_content;
use ascii_d::shapes::line::LineDirection;

#[test]
fn blank_current_lets_incoming_win() {
    assert_eq!(calculate_cell_content(None, CHAR_SPACE, CHAR_VER_L), CHAR_VER_L);
    assert_eq!(calculate_cell_content(None, '\n', CHAR_HOR_L), CHAR_HOR_L);
}

#[test]
fn crossing_lines_without_direction_become_cross() {
    assert_eq!(calculate_cell_content(None, CHAR_HOR_L, CHAR_VER_L), CHAR_CROSS);
    assert_eq!(calculate_cell_content(None, CHAR_VER_L, CHAR_HOR_L), CHAR_CROSS);
}

#[test]
fn crossing_lines_with_direction_become_tees() {
    assert_eq!(
        calculate_cell_content(Some(LineDirection::UpToDown), CHAR_HOR_L, CHAR_VER_L),
        CHAR_HOR_DOWN_L
    );
    assert_eq!(
        calculate_cell_content(Some(LineDirection::DownToUp), CHAR_HOR_L, CHAR_VER_L),
        CHAR_HOR_UP_L
    );
    assert_eq!(
        calculate_cell_content(Some(LineDirection::LeftToRight), CHAR_VER_L, CHAR_HOR_L),
        CHAR_VER_RIGHT_L
    );
    assert_eq!(
        calculate_cell_content(Some(LineDirection::RightToLeft), CHAR_VER_L, CHAR_HOR_L),
        CHAR_VER_LEFT_L
    );
}

#[test]
fn line_meeting_corner_becomes_tee() {
    assert_eq!(calculate_cell_content(None, CHAR_HOR_L, CHAR_CORNER_BL_L), CHAR_HOR_UP_L);
    assert_eq!(calculate_cell_content(None, CHAR_HOR_L, CHAR_CORNER_TR_L), CHAR_HOR_DOWN_L);
    assert_eq!(calculate_cell_content(None, CHAR_VER_L, CHAR_CORNER_TL_L), CHAR_VER_RIGHT_L);
    assert_eq!(calculate_cell_content(None, CHAR_VER_L, CHAR_CORNER_BR_L), CHAR_VER_LEFT_L);
}

#[test]
fn corner_meeting_matching_direction_stays_corner() {
    assert_eq!(
        calculate_cell_content(Some(LineDirection::LeftToRight), CHAR_CORNER_TL_L, CHAR_HOR_L),
        CHAR_CORNER_TL_L
    );
    assert_eq!(
        calculate_cell_content(None, CHAR_CORNER_TL_L, CHAR_HOR_L),
        CHAR_HOR_DOWN_L
    );
}

#[test]
fn opposite_corners_become_cross() {
    assert_eq!(calculate_cell_content(None, CHAR_CORNER_TL_L, CHAR_CORNER_BR_L), CHAR_CROSS);
    assert_eq!(calculate_cell_content(None, CHAR_CORNER_BR_L, CHAR_CORNER_TL_L), CHAR_CROSS);
    assert_eq!(calculate_cell_content(None, CHAR_CORNER_BL_L, CHAR_CORNER_TR_L), CHAR_CROSS);
}

#[test]
fn adjacent_corners_become_tee() {
    assert_eq!(calculate_cell_content(None, CHAR_CORNER_TL_L, CHAR_CORNER_TR_L), CHAR_HOR_DOWN_L);
    assert_eq!(calculate_cell_content(None, CHAR_CORNER_BL_L, CHAR_CORNER_BR_L), CHAR_HOR_UP_L);
}

#[test]
fn tee_meeting_perpendicular_becomes_cross_unless_direction_matches() {
    assert_eq!(calculate_cell_content(None, CHAR_HOR_UP_L, CHAR_VER_L), CHAR_CROSS);
    assert_eq!(
        calculate_cell_content(Some(LineDirection::DownToUp), CHAR_HOR_UP_L, CHAR_VER_L),
        CHAR_HOR_UP_L
    );
    assert_eq!(calculate_cell_content(None, CHAR_VER_LEFT_L, CHAR_HOR_L), CHAR_CROSS);
}

#[test]
fn arrowhead_meeting_perpendicular_becomes_corner() {
    assert_eq!(
        calculate_cell_content(Some(LineDirection::RightToLeft), CHAR_ARROW_UP, CHAR_HOR_L),
        CHAR_CORNER_TR_L
    );
    assert_eq!(
        calculate_cell_content(Some(LineDirection::LeftToRight), CHAR_ARROW_UP, CHAR_HOR_L),
        CHAR_CORNER_TL_L
    );
}

#[test]
fn cross_absorbs_anything_line_like() {
    assert_eq!(calculate_cell_content(None, CHAR_CROSS, CHAR_HOR_L), CHAR_CROSS);
    assert_eq!(calculate_cell_content(None, CHAR_CROSS, CHAR_CORNER_BL_L), CHAR_CROSS);
    assert_eq!(calculate_cell_content(None, CHAR_CROSS, 'x'), 'x');
}

#[test]
fn unmatched_pairs_let_incoming_win() {
    assert_eq!(calculate_cell_content(None, 'q', CHAR_VER_L), CHAR_VER_L);
    assert_eq!(calculate_cell_content(None, CHAR_HOR_L, 'q'), 'q');
}

#[test]
fn right_tee_meeting_horizontal_depends_on_direction() {
    assert_eq!(
        calculate_cell_content(Some(LineDirection::LeftToRight), CHAR_VER_RIGHT_L, CHAR_HOR_L),
        CHAR_VER_RIGHT_L
    );
    assert_eq!(calculate_cell_content(None, CHAR_VER_RIGHT_L, CHAR_HOR_L), CHAR_CROSS);
    assert_eq!(calculate_cell_content(None, CHAR_VER_RIGHT_L, CHAR_VER_L), CHAR_VER_RIGHT_L);
    assert_eq!(
        calculate_cell_content(None, CHAR_VER_RIGHT_L, CHAR_CORNER_TR_L),
        CHAR_CROSS
    );
}

#[test]
fn left_tee_meeting_corners() {
    assert_eq!(calculate_cell_content(None, CHAR_VER_LEFT_L, CHAR_CORNER_TL_L), CHAR_CROSS);
    assert_eq!(
        calculate_cell_content(None, CHAR_VER_LEFT_L, CHAR_CORNER_BR_L),
        CHAR_VER_LEFT_L
    );
    assert_eq!(calculate_cell_content(None, CHAR_VER_LEFT_L, CHAR_VER_L), CHAR_VER_LEFT_L);
}

#[test]
fn side_arrowheads_meeting_vertical_become_corners() {
    assert_eq!(
        calculate_cell_content(Some(LineDirection::UpToDown), CHAR_ARROW_RIGHT, CHAR_VER_L),
        CHAR_CORNER_TR_L
    );
    assert_eq!(
        calculate_cell_content(Some(LineDirection::DownToUp), CHAR_ARROW_RIGHT, CHAR_VER_L),
        CHAR_CORNER_BR_L
    );
    assert_eq!(
        calculate_cell_content(Some(LineDirection::UpToDown), CHAR_ARROW_LEFT, CHAR_VER_L),
        CHAR_CORNER_TL_L
    );
    assert_eq!(
        calculate_cell_content(Some(LineDirection::DownToUp), CHAR_ARROW_LEFT, CHAR_VER_L),
        CHAR_CORNER_BL_L
    );
    assert_eq!(calculate_cell_content(None, CHAR_ARROW_LEFT, CHAR_VER_L), CHAR_VER_L);
}
