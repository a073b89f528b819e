use tui_additions::framework::{FrameworkItem, Row, RowItem, State};
use tui_additions::layout::{Constraint, Rect};
use tui_additions::widgets::GridError;

fn label(width: Constraint) -> RowItem {
    RowItem {
        item: FrameworkItem::Label {
            text: String::from("cell"),
            selectable: false,
        },
        width,
    }
}

#[test]
fn get_chunks_stacks_rows_and_items() {
    let state = State(vec![
        Row {
            items: vec![label(Constraint::Length(4)), label(Constraint::Percentage(50))],
            centered: false,
            height: Constraint::Length(3),
        },
        Row {
            items: vec![label(Constraint::Length(6))],
            centered: false,
            height: Constraint::Length(2),
        },
    ]);
    let chunks = state.get_chunks(Rect::new(2, 1, 20, 10)).unwrap();
    assert_eq!(
        chunks,
        vec![
            vec![Rect::new(2, 1, 4, 3), Rect::new(6, 1, 10, 3)],
            vec![Rect::new(2, 4, 6, 2)],
        ]
    );
}

#[test]
fn centered_row_padding_differs_by_at_most_one() {
    let state = State(vec![Row {
        items: vec![label(Constraint::Length(5)), label(Constraint::Length(6))],
        centered: true,
        height: Constraint::Length(3),
    }]);
    let area = Rect::new(0, 0, 20, 5);
    let chunks = state.get_chunks(area).unwrap();
    let first = chunks[0][0];
    let last = chunks[0][1];
    let lead = first.x - area.x;
    let trail = (area.x + area.width) - (last.x + last.width);
    assert_eq!(lead, 4);
    assert_eq!(trail, 5);
    assert!(trail >= lead && trail - lead <= 1);

    // with an even leftover the two paddings agree exactly
    let area = Rect::new(0, 0, 21, 5);
    let chunks = state.get_chunks(area).unwrap();
    let lead = chunks[0][0].x;
    let trail = 21 - (chunks[0][1].x + chunks[0][1].width);
    assert_eq!(lead, 5);
    assert_eq!(trail, 5);
}

#[test]
fn get_chunks_fails_when_rules_do_not_fit() {
    let state = State(vec![Row {
        items: vec![label(Constraint::Length(15)), label(Constraint::Length(15))],
        centered: false,
        height: Constraint::Length(3),
    }]);
    let err = state.get_chunks(Rect::new(0, 0, 20, 5)).unwrap_err();
    assert_eq!(err, GridError::NotEnoughLength);

    let state = State(vec![
        Row {
            items: vec![label(Constraint::Length(1))],
            centered: false,
            height: Constraint::Length(4),
        },
        Row {
            items: vec![label(Constraint::Length(1))],
            centered: false,
            height: Constraint::Length(4),
        },
    ]);
    let err = state.get_chunks(Rect::new(0, 0, 20, 5)).unwrap_err();
    assert_eq!(err, GridError::NotEnoughLength);
}

#[test]
fn constraint_apply_resolves_rules() {
    assert_eq!(Constraint::Length(5).apply(10), 5);
    assert_eq!(Constraint::Length(15).apply(10), 10);
    assert_eq!(Constraint::Percentage(60).apply(101), 60);
    assert_eq!(Constraint::Percentage(0).apply(101), 0);
    assert_eq!(Constraint::Min(12).apply(10), 12);
}

#[test]
fn selectables_compacts_and_skips_rows() {
    let selectable = |s: bool| RowItem {
        item: FrameworkItem::Label {
            text: String::new(),
            selectable: s,
        },
        width: Constraint::Length(1),
    };
    let state = State(vec![
        Row {
            items: vec![selectable(false), selectable(true), selectable(true)],
            centered: false,
            height: Constraint::Length(1),
        },
        Row {
            items: vec![selectable(false)],
            centered: false,
            height: Constraint::Length(1),
        },
        Row {
            items: vec![selectable(true)],
            centered: false,
            height: Constraint::Length(1),
        },
    ]);
    // unselectable items take no slot, and the all-unselectable row is left out
    assert_eq!(state.selectables(), vec![vec![(1, 0), (2, 0)], vec![(0, 2)]]);
}

#[test]
fn rect_intersection_and_containment() {
    let a = Rect::new(2, 2, 4, 4);
    assert!(a.contains(2, 2));
    assert!(a.contains(5, 5));
    assert!(!a.contains(6, 2));
    assert!(!a.contains(2, 6));
    assert!(a.intersects(&Rect::new(5, 5, 3, 3)));
    assert!(!a.intersects(&Rect::new(6, 2, 3, 3)));
    assert!(!a.intersects(&Rect::new(2, 2, 0, 4)));
}
