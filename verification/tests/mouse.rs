use tui_additions::framework::{
    CursorState, Framework, FrameworkItem, ItemError, KeyInput, Row, RowItem, State,
};
use tui_additions::layout::{Constraint, Rect};
use tui_additions::widgets::{GridError, TextField, TextFieldError};

/// One row: a text field and a label, ten cells each.
fn small_grid() -> State {
    let mut field = TextField::default();
    field.set_width(10);
    State(vec![Row {
        items: vec![
            RowItem {
                item: FrameworkItem::TextField(field),
                width: Constraint::Length(10),
            },
            RowItem {
                item: FrameworkItem::Label {
                    text: String::from("side"),
                    selectable: true,
                },
                width: Constraint::Length(10),
            },
        ],
        centered: false,
        height: Constraint::Length(5),
    }])
}

#[test]
fn mouse_before_any_render_is_unhandled() {
    let mut fw = Framework::new(small_grid());
    assert!(!fw.mouse_event(1, 1));
    assert_eq!(fw.clean.cursor, CursorState::Idle);
}

#[test]
fn mouse_scenario() {
    let mut fw = Framework::new(small_grid());
    fw.render(Rect::new(0, 0, 40, 10)).unwrap();

    // a click on a selectable item moves the hover there
    assert!(fw.mouse_event(1, 1));
    assert_eq!(fw.clean.cursor, CursorState::Hover(0, 0));

    // a click on the hovered item promotes it to selected
    assert!(fw.mouse_event(2, 3));
    assert_eq!(fw.clean.cursor, CursorState::Selected(0, 0));

    // a click on another selectable item moves the hover, dropping the selection
    assert!(fw.mouse_event(11, 1));
    assert_eq!(fw.clean.cursor, CursorState::Hover(1, 0));

    // a click outside every selectable rectangle resets the cursor
    assert!(fw.mouse_event(30, 8));
    assert_eq!(fw.clean.cursor, CursorState::Idle);
}

#[test]
fn mouse_click_on_selected_item_goes_to_its_hook() {
    let mut fw = Framework::new(small_grid());
    fw.render(Rect::new(0, 0, 40, 10)).unwrap();
    fw.mouse_event(1, 1);
    fw.mouse_event(1, 1);
    assert_eq!(fw.clean.cursor, CursorState::Selected(0, 0));
    // no item of this crate consumes clicks itself
    assert!(!fw.mouse_event(1, 1));
    assert_eq!(fw.clean.cursor, CursorState::Selected(0, 0));
}

#[test]
fn render_plans_two_full_passes() {
    let mut fw = Framework::new(small_grid());
    let plan = fw.render(Rect::new(0, 0, 40, 10)).unwrap();
    assert_eq!(plan.len(), 4);

    assert_eq!(plan[0].chunk, Rect::new(0, 0, 10, 5));
    assert!(!plan[0].popup_render);
    assert_eq!(plan[0].info.x, 0);
    assert_eq!(plan[0].info.y, 0);
    assert!(!plan[0].info.selected && !plan[0].info.hover);

    assert_eq!(plan[1].chunk, Rect::new(10, 0, 10, 5));
    assert!(!plan[1].popup_render);

    // the popup pass repeats every item after all base content
    assert!(plan[2].popup_render && plan[3].popup_render);
    assert_eq!(plan[2].chunk, plan[0].chunk);
    assert_eq!(plan[3].chunk, plan[1].chunk);

    assert_eq!(fw.clean.frame_area, Some(Rect::new(0, 0, 40, 10)));
}

#[test]
fn render_marks_the_hovered_item() {
    let mut fw = Framework::new(small_grid());
    fw.move_cursor(tui_additions::framework::FrameworkDirection::Left)
        .unwrap();
    let plan = fw.render(Rect::new(0, 0, 40, 10)).unwrap();
    assert!(plan[0].info.hover && !plan[0].info.selected);
    assert!(!plan[1].info.hover);
}

#[test]
fn render_only_plans_one_item() {
    let mut fw = Framework::new(small_grid());
    let plan = fw.render_only(Rect::new(0, 0, 40, 10), 1, 0).unwrap();
    assert_eq!(plan.len(), 2);
    assert_eq!(plan[0].chunk, Rect::new(10, 0, 10, 5));
    assert!(!plan[0].popup_render);
    assert!(plan[1].popup_render);

    let plan = fw
        .render_only_multiple(Rect::new(0, 0, 40, 10), &vec![(1, 0), (0, 0)])
        .unwrap();
    assert_eq!(plan.len(), 4);
    assert_eq!(plan[0].chunk, Rect::new(10, 0, 10, 5));
    assert_eq!(plan[1].chunk, Rect::new(0, 0, 10, 5));
    assert!(plan[2].popup_render && plan[3].popup_render);
}

#[test]
fn key_input_reaches_only_the_selected_item() {
    let mut fw = Framework::new(small_grid());

    // with nothing selected, keys are dropped
    fw.key_input(KeyInput::Char('x')).unwrap();
    match &fw.state.0[0].items[0].item {
        FrameworkItem::TextField(tf) => assert_eq!(tf.content, ""),
        _ => unreachable!(),
    }

    fw.move_cursor(tui_additions::framework::FrameworkDirection::Left)
        .unwrap();
    fw.select().unwrap();
    fw.key_input(KeyInput::Char('h')).unwrap();
    fw.key_input(KeyInput::Char('i')).unwrap();
    match &fw.state.0[0].items[0].item {
        FrameworkItem::TextField(tf) => {
            assert_eq!(tf.content, "hi");
            assert_eq!(tf.cursor, 2);
        }
        _ => unreachable!(),
    }
    fw.key_input(KeyInput::Backspace).unwrap();
    match &fw.state.0[0].items[0].item {
        FrameworkItem::TextField(tf) => assert_eq!(tf.content, "h"),
        _ => unreachable!(),
    }
}

#[test]
fn load_hooks_run_without_errors() {
    let mut fw = Framework::new(small_grid());
    fw.load().unwrap();
    fw.load_only(1, 0).unwrap();
    fw.load_only_multiple(&vec![(0, 0), (1, 0)]);
}

#[test]
fn split_clean_keeps_grid_and_context_apart() {
    let mut fw = Framework::new(small_grid());
    let (clean, state) = fw.split_clean();
    clean.cursor = CursorState::Hover(0, 0);
    assert_eq!(state.0[0].items.len(), 2);
    assert_eq!(fw.clean.cursor, CursorState::Hover(0, 0));
}

#[test]
fn key_input_surfaces_item_errors() {
    // a text field that was never told its width
    let mut fw = Framework::new(State(vec![Row {
        items: vec![RowItem {
            item: FrameworkItem::TextField(TextField::default()),
            width: Constraint::Length(10),
        }],
        centered: false,
        height: Constraint::Length(3),
    }]));
    fw.move_cursor(tui_additions::framework::FrameworkDirection::Left)
        .unwrap();
    fw.select().unwrap();
    let err = fw.key_input(KeyInput::Char('x')).unwrap_err();
    assert_eq!(err, ItemError::TextField(TextFieldError::UnknownWidth));
}

#[test]
fn render_failure_is_fatal_for_that_frame_only() {
    let mut fw = Framework::new(small_grid());
    fw.render(Rect::new(0, 0, 40, 10)).unwrap();

    // an area too small for the width rules plans nothing
    let err = fw.render(Rect::new(0, 0, 5, 10)).unwrap_err();
    assert_eq!(err, GridError::NotEnoughLength);

    // the area was still recorded, so clicks cannot be resolved either
    assert_eq!(fw.clean.frame_area, Some(Rect::new(0, 0, 5, 10)));
    assert!(!fw.mouse_event(1, 1));
    assert_eq!(fw.clean.cursor, CursorState::Idle);
}
