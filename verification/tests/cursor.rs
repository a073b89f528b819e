use tui_additions::framework::{
    CursorState, Framework, FrameworkDirection, FrameworkError, FrameworkItem, Row, RowItem, State,
};
use tui_additions::layout::Constraint;

fn label(selectable: bool) -> RowItem {
    RowItem {
        item: FrameworkItem::Label {
            text: String::from("cell"),
            selectable,
        },
        width: Constraint::Length(10),
    }
}

fn row(items: Vec<RowItem>) -> Row {
    Row {
        items,
        centered: false,
        height: Constraint::Length(3),
    }
}

/// Two selectable items in row zero, one in row one.
fn two_one_grid() -> State {
    State(vec![
        row(vec![label(true), label(true)]),
        row(vec![label(true)]),
    ])
}

#[test]
fn movement_scenario() {
    let mut fw = Framework::new(two_one_grid());
    assert_eq!(fw.clean.cursor, CursorState::Idle);

    // entering from the right lands on the far edge of row zero
    fw.move_cursor(FrameworkDirection::Right).unwrap();
    assert_eq!(fw.clean.cursor, CursorState::Hover(1, 0));

    // moving down clamps the column to row one's single item
    fw.move_cursor(FrameworkDirection::Down).unwrap();
    assert_eq!(fw.clean.cursor, CursorState::Hover(0, 1));

    fw.select().unwrap();
    assert_eq!(fw.clean.cursor, CursorState::Selected(0, 1));

    // movement is locked while selected
    let err = fw.move_cursor(FrameworkDirection::Left).unwrap_err();
    assert_eq!(err, FrameworkError::MoveSelected);
    assert_eq!(fw.clean.cursor, CursorState::Selected(0, 1));

    fw.deselect().unwrap();
    assert_eq!(fw.clean.cursor, CursorState::Hover(0, 1));
}

#[test]
fn movement_stays_in_bounds() {
    let mut fw = Framework::new(two_one_grid());
    let moves = [
        FrameworkDirection::Down,
        FrameworkDirection::Down,
        FrameworkDirection::Right,
        FrameworkDirection::Up,
        FrameworkDirection::Right,
        FrameworkDirection::Right,
        FrameworkDirection::Left,
        FrameworkDirection::Up,
        FrameworkDirection::Up,
    ];
    for direction in moves {
        fw.move_cursor(direction).unwrap();
        match fw.clean.cursor {
            CursorState::Hover(x, y) => {
                assert!(y < fw.clean.selectables.len());
                assert!(x < fw.clean.selectables[y].len());
            }
            other => panic!("movement left the cursor in {:?}", other),
        }
    }
}

#[test]
fn movement_from_idle_enters_at_edges() {
    for (direction, expected) in [
        (FrameworkDirection::Left, CursorState::Hover(0, 0)),
        (FrameworkDirection::Up, CursorState::Hover(0, 0)),
        (FrameworkDirection::Right, CursorState::Hover(1, 0)),
        (FrameworkDirection::Down, CursorState::Hover(0, 1)),
    ] {
        let mut fw = Framework::new(two_one_grid());
        fw.move_cursor(direction).unwrap();
        assert_eq!(fw.clean.cursor, expected);
    }
}

#[test]
fn movement_on_empty_index_resets_to_origin() {
    let mut fw = Framework::new(State(vec![row(vec![label(false)])]));
    assert!(fw.clean.selectables.is_empty());
    fw.move_cursor(FrameworkDirection::Down).unwrap();
    assert_eq!(fw.clean.cursor, CursorState::Hover(0, 0));
}

#[test]
fn select_and_deselect_need_the_right_state() {
    let mut fw = Framework::new(two_one_grid());

    // nothing hovered yet
    let err = fw.select().unwrap_err();
    assert_eq!(err, FrameworkError::CursorStateMismatch);
    assert_eq!(fw.clean.cursor, CursorState::Idle);

    // nothing selected yet
    let err = fw.deselect().unwrap_err();
    assert_eq!(err, FrameworkError::CursorStateMismatch);
    assert_eq!(fw.clean.cursor, CursorState::Idle);

    fw.move_cursor(FrameworkDirection::Left).unwrap();
    fw.select().unwrap();

    // selecting twice fails and changes nothing
    let err = fw.select().unwrap_err();
    assert_eq!(err, FrameworkError::CursorStateMismatch);
    assert_eq!(fw.clean.cursor, CursorState::Selected(0, 0));
}

#[test]
fn cursor_state_queries() {
    let mut fw = Framework::new(two_one_grid());
    assert!(fw.is_none());
    assert!(!fw.is_hover());
    assert!(!fw.is_selected());
    fw.move_cursor(FrameworkDirection::Right).unwrap();
    assert!(fw.is_hover());
    fw.select().unwrap();
    assert!(fw.is_selected());
}

#[test]
fn raw_cursor_machine_select_deselect() {
    let mut cursor = CursorState::Hover(2, 3);
    cursor.select().unwrap();
    assert_eq!(cursor, CursorState::Selected(2, 3));
    assert_eq!(cursor.select().unwrap_err(), FrameworkError::CursorStateMismatch);
    cursor.deselect().unwrap();
    assert_eq!(cursor, CursorState::Hover(2, 3));
    assert_eq!(cursor.deselect().unwrap_err(), FrameworkError::CursorStateMismatch);

    let mut idle = CursorState::Idle;
    assert_eq!(idle.select().unwrap_err(), FrameworkError::CursorStateMismatch);
    assert_eq!(idle, CursorState::Idle);
}

#[test]
fn hover_and_selected_resolve_grid_coordinates() {
    let selectables = vec![vec![(0, 0), (3, 0)], vec![(1, 2)]];
    let cursor = CursorState::Hover(1, 0);
    assert_eq!(cursor.hover(&selectables), Some((3, 0)));
    assert_eq!(cursor.selected(&selectables), None);
    let cursor = CursorState::Selected(0, 1);
    assert_eq!(cursor.selected(&selectables), Some((1, 2)));

    // an empty index resolves to nothing even while hovering
    let empty: Vec<Vec<(usize, usize)>> = vec![];
    assert_eq!(CursorState::Hover(0, 0).hover(&empty), None);
}
