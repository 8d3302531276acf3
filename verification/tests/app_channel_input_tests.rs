use ttyms::app::App;

#[test]
fn channel_insert_and_delete() {
    let mut app = App::new();
    app.channel_insert_char('h');
    app.channel_insert_char('i');
    assert_eq!(app.channel_input, "hi");
    app.channel_delete_char();
    assert_eq!(app.channel_input, "h");
}

#[test]
fn take_channel_input_clears() {
    let mut app = App::new();
    app.channel_insert_char('x');
    let taken = app.take_channel_input();
    assert_eq!(taken, "x");
    assert_eq!(app.channel_input, "");
    assert_eq!(app.channel_input_cursor, 0);
}

#[test]
fn channel_cursor_movement() {
    let mut app = App::new();
    app.channel_insert_char('a');
    app.channel_insert_char('b');
    app.channel_move_cursor_left();
    assert_eq!(app.channel_input_cursor, 1);
    app.channel_move_cursor_right();
    assert_eq!(app.channel_input_cursor, 2);
}

#[test]
fn channel_scroll() {
    let mut app = App::new();
    app.channel_scroll_up();
    assert_eq!(app.channel_scroll_offset, 3);
    app.channel_scroll_down();
    assert_eq!(app.channel_scroll_offset, 0);
}
