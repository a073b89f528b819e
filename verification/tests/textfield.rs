use tui_additions::graphemes::grapheme_count;
use tui_additions::widgets::{TextField, TextFieldError};

fn field(width: u16) -> TextField {
    let mut tf = TextField::default();
    tf.set_width(width);
    tf
}

#[test]
fn push_and_pop_edit_at_the_cursor() {
    let mut tf = field(10);
    tf.push('a').unwrap();
    tf.push('b').unwrap();
    tf.push('c').unwrap();
    assert_eq!(tf.content, "abc");
    assert_eq!(tf.cursor, 3);
    tf.left().unwrap();
    tf.push('x').unwrap();
    assert_eq!(tf.content, "abxc");
    tf.pop().unwrap();
    assert_eq!(tf.content, "abc");
    assert_eq!(tf.cursor, 2);
}

#[test]
fn editing_without_a_width_fails_but_keeps_the_text() {
    let mut tf = TextField::default();
    let err = tf.push('a').unwrap_err();
    assert_eq!(err, TextFieldError::UnknownWidth);
    assert_eq!(tf.content, "a");
    assert_eq!(tf.update().unwrap_err(), TextFieldError::UnknownWidth);
}

#[test]
fn cursor_moves_saturate_at_the_ends() {
    let mut tf = field(10);
    tf.push('a').unwrap();
    tf.push('b').unwrap();
    tf.left().unwrap();
    tf.left().unwrap();
    tf.left().unwrap();
    assert_eq!(tf.cursor, 0);
    tf.right().unwrap();
    tf.right().unwrap();
    tf.right().unwrap();
    assert_eq!(tf.cursor, 2);
    tf.first().unwrap();
    assert_eq!(tf.cursor, 0);
    tf.last().unwrap();
    assert_eq!(tf.cursor, 2);
}

#[test]
fn scrolling_follows_the_cursor() {
    let mut tf = field(4);
    for c in "abcdefgh".chars() {
        tf.push(c).unwrap();
    }
    // the cursor sits one past 'h'; the window of four cells ends there
    assert_eq!(tf.cursor, 8);
    assert_eq!(tf.scroll, 5);
    tf.first().unwrap();
    assert_eq!(tf.scroll, 0);
}

#[test]
fn grapheme_clusters_edit_as_single_units() {
    let mut tf = field(10);
    // 'e' followed by a combining acute accent is one cluster of two chars
    tf.push('a').unwrap();
    tf.push('e').unwrap();
    tf.push('\u{301}').unwrap();
    tf.update().unwrap();
    // the combining mark joined the previous cluster
    assert_eq!(tf.cursor, 2);
    tf.push('b').unwrap();
    assert_eq!(tf.content, "ae\u{301}b");
    // removing the middle cluster takes both of its characters out
    tf.remove(2).unwrap();
    assert_eq!(tf.content, "ab");
    assert_eq!(tf.cursor, 2);
}

#[test]
fn insert_beyond_the_end_appends() {
    let mut tf = field(10);
    tf.push('a').unwrap();
    tf.insert(99, 'z').unwrap();
    assert_eq!(tf.content, "az");
}

#[test]
fn remove_out_of_range_changes_nothing() {
    let mut tf = field(10);
    tf.push('a').unwrap();
    tf.push('b').unwrap();
    tf.remove(99).unwrap();
    assert_eq!(tf.content, "ab");
    assert_eq!(tf.cursor, 2);
    // a cursor at the start makes removal a no-op
    tf.first().unwrap();
    tf.remove(1).unwrap();
    assert_eq!(tf.content, "ab");
}

#[test]
fn render_parts_split_around_the_cursor() {
    let mut tf = field(10);
    for c in "hello".chars() {
        tf.push(c).unwrap();
    }
    tf.cursor = 2;
    let (before, at, after) = tf.render_parts().unwrap();
    assert_eq!(before, "he");
    assert_eq!(at, "l");
    assert_eq!(after, "lo");

    // at the end of the text the cursor cell shows a space
    tf.cursor = 5;
    let (before, at, after) = tf.render_parts().unwrap();
    assert_eq!(before, "hello");
    assert_eq!(at, " ");
    assert_eq!(after, "");

    let bare = TextField::default();
    assert_eq!(bare.render_parts().unwrap_err(), TextFieldError::UnknownWidth);
}

#[test]
fn grapheme_count_counts_clusters_not_chars() {
    assert_eq!(grapheme_count(""), 0);
    assert_eq!(grapheme_count("abc"), 3);
    // two clusters of two chars each
    assert_eq!(grapheme_count("e\u{301}e\u{301}"), 2);
}
