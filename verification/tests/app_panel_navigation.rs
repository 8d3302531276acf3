use ttyms::app::App;
use ttyms::app::Panel;

#[test]
fn new_app_starts_on_chat_list() {
    let app = App::new();
    assert_eq!(app.active_panel, Panel::ChatList);
}

#[test]
fn next_panel_cycles_forward() {
    let mut app = App::new();
    assert_eq!(app.active_panel, Panel::ChatList);
    app.next_panel();
    assert_eq!(app.active_panel, Panel::Messages);
    app.next_panel();
    assert_eq!(app.active_panel, Panel::Input);
    app.next_panel();
    assert_eq!(app.active_panel, Panel::ChatList);
}

#[test]
fn prev_panel_cycles_backward() {
    let mut app = App::new();
    assert_eq!(app.active_panel, Panel::ChatList);
    app.prev_panel();
    assert_eq!(app.active_panel, Panel::Input);
    app.prev_panel();
    assert_eq!(app.active_panel, Panel::Messages);
    app.prev_panel();
    assert_eq!(app.active_panel, Panel::ChatList);
}
