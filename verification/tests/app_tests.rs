//! Tests of the explorer's application state.

use subspace_explorer::app::App;
use subspace_explorer::ui::block_view::BlockView;
use subspace_explorer::ui::status_bar::StatusBar;
use subspace_explorer::ui::TestComponent;

#[test]
fn test_app_initialization() {
    let app = App::new();
    assert_eq!(app.title(), "Subspace Explorer");
    assert!(!app.should_quit);
    assert_eq!(app.tick_rate(), 250);
}

#[test]
fn test_app_quit() {
    let mut app = App::new();
    assert!(!app.should_quit);
    app.quit();
    assert!(app.should_quit);
}

#[test]
fn test_main_app_initialization() {
    let app = App::new();
    assert!(!app.should_quit);
}

#[test]
fn test_app_block_tracking() {
    let mut app = App::new();
    assert_eq!(app.latest_block_number(), 0);
    app.update_latest_block(42);
    assert_eq!(app.latest_block_number(), 42);
    assert_eq!(app.latest_block, Some(42));
}

#[test]
fn test_app_connection_state() {
    let mut app = App::new();
    assert!(!app.connected);
    app.set_connected(true);
    assert!(app.connected);
    assert_eq!(app.chain_name(), "Subspace");
    app.set_chain_name("Gemini".to_string());
    assert_eq!(app.chain_name(), "Gemini");
    app.on_tick();
    assert!(app.connected);
}

#[test]
fn test_block_view_new() {
    let v = BlockView::new(7);
    assert_eq!(v.block_number, 7);
    assert_eq!(v.hash, "Loading...");
    assert_eq!(v.timestamp, "Loading...");
    assert_eq!(v.parent_hash, "Loading...");
    assert_eq!(v.state_root, "Loading...");
    assert_eq!(v.extrinsics_count, 0);
}

#[test]
fn test_status_bar() {
    let bar = StatusBar::new("hello".to_string(), false);
    assert_eq!(bar.text, "hello");
    assert!(!bar.connected);
    let bar = bar.with_text("world".to_string()).with_connected(true);
    assert_eq!(bar.text, "world");
    assert!(bar.connected);
}

#[test]
fn test_status_bar_from_state() {
    let mut app = App::new();
    let bar = StatusBar::from_state(&app);
    assert_eq!(bar.text, "Disconnected");
    assert!(!bar.connected);
    app.set_connected(true);
    let bar = StatusBar::from_state(&app);
    assert_eq!(bar.text, "Connected to Subspace");
    assert!(bar.connected);
}

#[test]
fn test_component_default() {
    let c = TestComponent::default();
    assert_eq!(c.title, "Test Component");
    assert_eq!(c.content.as_deref(), Some("This is a test component"));
}

#[test]
fn test_component() {
    let c = TestComponent::new("Test Component".to_string());
    assert_eq!(c.title, "Test Component");
    assert_eq!(c.content, None);
    let c = c.with_content("This is a test component".to_string());
    assert_eq!(c.content.as_deref(), Some("This is a test component"));
}
