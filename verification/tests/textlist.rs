use tui_additions::style::{BorderType, Color, Style};
use tui_additions::widgets::{TextList, TextListError, TrimType};

fn list(n: usize, height: u16) -> TextList {
    let items: Vec<String> = (0..n).map(|i| format!("item {}", i)).collect();
    let mut tl = TextList::default();
    tl.set_height(height);
    tl.set_items(&items).unwrap();
    tl
}

#[test]
fn up_and_down_step_within_the_items() {
    let mut tl = list(3, 5);
    tl.up().unwrap();
    assert_eq!(tl.selected, 0);
    tl.down().unwrap();
    tl.down().unwrap();
    tl.down().unwrap();
    assert_eq!(tl.selected, 2);
    tl.up().unwrap();
    assert_eq!(tl.selected, 1);
}

#[test]
fn first_and_last_jump_to_the_ends() {
    let mut tl = list(6, 5);
    tl.last().unwrap();
    assert_eq!(tl.selected, 5);
    assert_eq!(tl.scroll, 3);
    tl.first().unwrap();
    assert_eq!(tl.selected, 0);
    assert_eq!(tl.scroll, 0);

    let mut empty = list(0, 5);
    empty.last().unwrap();
    assert_eq!(empty.selected, 0);
}

#[test]
fn paging_moves_by_one_window() {
    let mut tl = list(10, 5);
    tl.pagedown().unwrap();
    assert_eq!((tl.selected, tl.scroll), (3, 3));
    tl.pagedown().unwrap();
    assert_eq!((tl.selected, tl.scroll), (6, 6));
    tl.pagedown().unwrap();
    assert_eq!((tl.selected, tl.scroll), (9, 7));
    tl.pagedown().unwrap();
    assert_eq!((tl.selected, tl.scroll), (9, 7));
    tl.pageup().unwrap();
    assert_eq!((tl.selected, tl.scroll), (6, 4));
    tl.pageup().unwrap();
    tl.pageup().unwrap();
    tl.pageup().unwrap();
    assert_eq!((tl.selected, tl.scroll), (0, 0));
}

#[test]
fn height_errors_are_reported() {
    let mut tl = TextList::default();
    assert_eq!(tl.update().unwrap_err(), TextListError::UnknownHeight);
    assert_eq!(tl.pageup().unwrap_err(), TextListError::UnknownHeight);
    tl.set_height(2);
    tl.selected = 1;
    assert_eq!(tl.update().unwrap_err(), TextListError::NotEnoughHeight);
}

#[test]
fn render_lines_shows_the_scroll_window() {
    let mut tl = list(10, 5);
    tl.set_selected(6).unwrap();
    // the window holds three items starting at the scroll position
    let lines = tl.render_lines(20).unwrap();
    assert_eq!(lines, vec!["item 4", "item 5", "item 6"]);
}

#[test]
fn render_lines_trims_long_items() {
    let mut tl = TextList::default();
    tl.set_height(5);
    tl.set_items(&vec![
        String::from("short"),
        String::from("a very long item indeed"),
    ])
    .unwrap();
    let lines = tl.render_lines(8).unwrap();
    assert_eq!(lines, vec!["short", "a v..."]);

    tl.set_trim_type(TrimType::ShortTripleDot);
    let lines = tl.render_lines(8).unwrap();
    assert_eq!(lines, vec!["short", "a ver\u{2026}"]);

    // without a suffix the item is still cut to the width
    tl.set_trim_type(TrimType::NoTrim);
    let lines = tl.render_lines(8).unwrap();
    assert_eq!(lines, vec!["short", "a very"]);
}

#[test]
fn render_lines_replaces_non_ascii() {
    let mut tl = TextList::default();
    tl.set_height(5);
    tl.set_ascii_only(true);
    tl.set_items(&vec![String::from("caf\u{e9}?")]).unwrap();
    let lines = tl.render_lines(20).unwrap();
    assert_eq!(lines, vec!["caf??"]);

    tl.set_non_ascii_replace('#');
    let lines = tl.render_lines(20).unwrap();
    assert_eq!(lines, vec!["caf#?"]);
}

#[test]
fn render_lines_needs_a_height() {
    let tl = TextList::default();
    assert_eq!(tl.render_lines(20).unwrap_err(), TextListError::UnknownHeight);
    let mut low = TextList::default();
    low.set_height(2);
    assert_eq!(low.render_lines(20).unwrap(), Vec::<String>::new());
}

#[test]
fn builders_chain() {
    let tl = TextList::default()
        .ascii_only(true)
        .border_type(BorderType::Double)
        .cursor_style(Style::new().fg(Color::Red))
        .height(7)
        .non_ascii_replace('_')
        .selected_style(Style::new().bg(Color::Blue))
        .style(Style::new())
        .trim_type(TrimType::ShortTripleDot);
    assert!(tl.ascii_only);
    assert_eq!(tl.border_type, BorderType::Double);
    assert_eq!(tl.height, Some(7));
    assert_eq!(tl.non_ascii_replace, '_');
    assert_eq!(tl.trim_type, TrimType::ShortTripleDot);

    let tl = tl.items(&vec![String::from("a"), String::from("b")]).unwrap();
    let tl = tl.selected(1).unwrap();
    assert_eq!(tl.items, vec!["a", "b"]);
    assert_eq!(tl.selected, 1);
}

#[test]
fn set_selected_scrolls_to_the_selection() {
    let mut tl = list(8, 5);
    tl.set_selected(7).unwrap();
    assert_eq!(tl.scroll, 5);
    tl.set_selected(1).unwrap();
    assert_eq!(tl.scroll, 1);
}
