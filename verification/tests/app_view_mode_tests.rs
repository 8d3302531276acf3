use ttyms::app::App;
use ttyms::app::ViewMode;

#[test]
fn default_view_mode_is_chats() {
    let app = App::new();
    assert_eq!(app.view_mode, ViewMode::Chats);
}

#[test]
fn switch_to_teams() {
    let mut app = App::new();
    app.switch_to_teams();
    assert_eq!(app.view_mode, ViewMode::Teams);
}

#[test]
fn switch_to_chats() {
    let mut app = App::new();
    app.switch_to_teams();
    app.switch_to_chats();
    assert_eq!(app.view_mode, ViewMode::Chats);
}
