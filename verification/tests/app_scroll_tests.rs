use ttyms::app::App;

#[test]
fn scroll_up_increases_offset() {
    let mut app = App::new();
    assert_eq!(app.scroll_offset, 0);
    app.scroll_messages_up();
    assert_eq!(app.scroll_offset, 3);
    app.scroll_messages_up();
    assert_eq!(app.scroll_offset, 6);
}

#[test]
fn scroll_down_decreases_offset() {
    let mut app = App::new();
    app.scroll_offset = 6;
    app.scroll_messages_down();
    assert_eq!(app.scroll_offset, 3);
    app.scroll_messages_down();
    assert_eq!(app.scroll_offset, 0);
}

#[test]
fn scroll_down_stops_at_zero() {
    let mut app = App::new();
    app.scroll_messages_down();
    assert_eq!(app.scroll_offset, 0);
}
