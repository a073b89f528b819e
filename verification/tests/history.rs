use tui_additions::framework::{
    CursorState, DataValue, Framework, FrameworkDirection, FrameworkError, FrameworkItem, Row,
    RowItem, State,
};
use tui_additions::layout::Constraint;

fn grid(rows: usize, cols: usize) -> State {
    let mut out = Vec::new();
    for _ in 0..rows {
        let mut items = Vec::new();
        for _ in 0..cols {
            items.push(RowItem {
                item: FrameworkItem::Label {
                    text: String::from("cell"),
                    selectable: true,
                },
                width: Constraint::Length(5),
            });
        }
        out.push(Row {
            items,
            centered: false,
            height: Constraint::Length(3),
        });
    }
    State(out)
}

#[test]
fn push_then_revert_restores_everything() {
    let mut fw = Framework::new(grid(2, 2));
    fw.clean
        .data
        .state
        .insert(7, DataValue::Text(String::from("kept")));
    fw.move_cursor(FrameworkDirection::Right).unwrap();
    let cursor_at_push = fw.clean.cursor;

    fw.push_history();

    // mutate everything that the snapshot covers
    fw.clean.data.state.insert(7, DataValue::Number(99));
    fw.clean.data.global.insert(1, DataValue::Flag(true));
    fw.move_cursor(FrameworkDirection::Down).unwrap();
    fw.set_state(grid(1, 1));
    fw.clean.cursor = CursorState::Idle;

    fw.revert_last_history().unwrap();

    assert_eq!(fw.clean.cursor, cursor_at_push);
    assert_eq!(fw.state.0.len(), 2);
    assert_eq!(fw.state.0[0].items.len(), 2);
    assert_eq!(fw.clean.selectables, vec![vec![(0, 0), (1, 0)], vec![(0, 1), (1, 1)]]);
    assert_eq!(
        fw.clean.data.state.get(7),
        Some(&DataValue::Text(String::from("kept")))
    );
    // the global tier is not part of a snapshot
    assert_eq!(fw.clean.data.global.get(1), Some(&DataValue::Flag(true)));
    assert_eq!(fw.history.len(), 0);
}

#[test]
fn revert_on_empty_stack_fails() {
    let mut fw = Framework::new(grid(1, 1));
    assert_eq!(
        fw.revert_last_history().unwrap_err(),
        FrameworkError::NoSuchSave
    );
    assert_eq!(fw.revert_history(0).unwrap_err(), FrameworkError::NoSuchSave);
}

#[test]
fn revert_history_picks_by_index() {
    let mut fw = Framework::new(grid(1, 1));
    fw.clean.data.state.insert(1, DataValue::Number(1));
    fw.push_history();
    fw.clean.data.state.insert(1, DataValue::Number(2));
    fw.push_history();
    fw.clean.data.state.insert(1, DataValue::Number(3));

    // out of range leaves the stack alone
    assert_eq!(fw.revert_history(2).unwrap_err(), FrameworkError::NoSuchSave);
    assert_eq!(fw.history.len(), 2);

    fw.revert_history(0).unwrap();
    assert_eq!(fw.clean.data.state.get(1), Some(&DataValue::Number(1)));
    assert_eq!(fw.history.len(), 1);
}

#[test]
fn pop_and_clear_history() {
    let mut fw = Framework::new(grid(1, 1));
    assert!(fw.pop_history().is_none());
    fw.push_history();
    fw.push_history();
    let entry = fw.pop_history().unwrap();
    assert_eq!(entry.cursor, CursorState::Idle);
    assert_eq!(fw.history.len(), 1);
    fw.clear_history();
    assert_eq!(fw.history.len(), 0);
}

#[test]
fn from_history_rebuilds_a_framework() {
    let mut fw = Framework::new(grid(2, 1));
    fw.clean.data.state.insert(4, DataValue::Flag(false));
    fw.move_cursor(FrameworkDirection::Down).unwrap();
    fw.push_history();
    let entry = fw.pop_history().unwrap();

    let rebuilt = Framework::from_history(entry);
    assert_eq!(rebuilt.clean.cursor, CursorState::Hover(0, 1));
    assert_eq!(rebuilt.state.0.len(), 2);
    assert_eq!(rebuilt.clean.data.state.get(4), Some(&DataValue::Flag(false)));
    assert!(rebuilt.clean.data.global.get(4).is_none());
    assert_eq!(rebuilt.history.len(), 0);
}

#[test]
fn set_state_regenerates_selectables_only() {
    let mut fw = Framework::new(grid(1, 2));
    fw.clean.data.state.insert(2, DataValue::Number(12));
    fw.set_state(grid(3, 1));
    assert_eq!(fw.clean.selectables, vec![vec![(0, 0)], vec![(0, 1)], vec![(0, 2)]]);
    // neither store tier is cleared by a grid replacement
    assert_eq!(fw.clean.data.state.get(2), Some(&DataValue::Number(12)));
    assert_eq!(fw.clean.cursor, CursorState::Idle);
}
