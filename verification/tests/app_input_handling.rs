use ttyms::app::App;

#[test]
fn insert_char_basic() {
    let mut app = App::new();
    app.insert_char('h');
    app.insert_char('i');
    assert_eq!(app.input, "hi");
    assert_eq!(app.input_cursor, 2);
}

#[test]
fn insert_char_unicode() {
    let mut app = App::new();
    app.insert_char('🎉');
    assert_eq!(app.input, "🎉");
    assert_eq!(app.input_cursor, 4); // UTF-8 length of emoji
}

#[test]
fn delete_char_removes_last() {
    let mut app = App::new();
    app.insert_char('a');
    app.insert_char('b');
    app.insert_char('c');
    app.delete_char();
    assert_eq!(app.input, "ab");
    assert_eq!(app.input_cursor, 2);
}

#[test]
fn delete_char_noop_when_empty() {
    let mut app = App::new();
    app.delete_char();
    assert_eq!(app.input, "");
    assert_eq!(app.input_cursor, 0);
}

#[test]
fn delete_char_unicode() {
    let mut app = App::new();
    app.insert_char('a');
    app.insert_char('é');
    app.delete_char();
    assert_eq!(app.input, "a");
}

#[test]
fn take_input_clears_state() {
    let mut app = App::new();
    app.insert_char('t');
    app.insert_char('e');
    app.insert_char('s');
    app.insert_char('t');
    let taken = app.take_input();
    assert_eq!(taken, "test");
    assert_eq!(app.input, "");
    assert_eq!(app.input_cursor, 0);
}

#[test]
fn cursor_movement_left() {
    let mut app = App::new();
    app.insert_char('a');
    app.insert_char('b');
    app.insert_char('c');
    assert_eq!(app.input_cursor, 3);
    app.move_cursor_left();
    assert_eq!(app.input_cursor, 2);
    app.move_cursor_left();
    assert_eq!(app.input_cursor, 1);
}

#[test]
fn cursor_movement_left_stops_at_zero() {
    let mut app = App::new();
    app.insert_char('a');
    app.move_cursor_left();
    app.move_cursor_left();
    assert_eq!(app.input_cursor, 0);
}

#[test]
fn cursor_movement_right() {
    let mut app = App::new();
    app.insert_char('a');
    app.insert_char('b');
    app.move_cursor_left();
    app.move_cursor_left();
    assert_eq!(app.input_cursor, 0);
    app.move_cursor_right();
    assert_eq!(app.input_cursor, 1);
}

#[test]
fn cursor_movement_right_stops_at_end() {
    let mut app = App::new();
    app.insert_char('a');
    app.move_cursor_right();
    assert_eq!(app.input_cursor, 1); // already at end
}

#[test]
fn insert_at_cursor_middle() {
    let mut app = App::new();
    app.insert_char('a');
    app.insert_char('c');
    app.move_cursor_left();
    app.insert_char('b');
    assert_eq!(app.input, "abc");
}

#[test]
fn delete_at_cursor_middle() {
    let mut app = App::new();
    app.insert_char('a');
    app.insert_char('b');
    app.insert_char('c');
    app.move_cursor_left(); // cursor after 'b'
    app.delete_char();
    assert_eq!(app.input, "ac");
}
