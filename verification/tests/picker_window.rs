use hops::browsers::RunningProcessSnapshot;
use hops::config::default_config;
use hops::models::PickerLaunchSource;
use hops::picker::build_picker_session_with_running_processes;
use hops::picker::{
    clean_cli_value, extract_url_from_args, incoming_url_action, picker_window_height,
    picker_window_position, IncomingUrlAction, MonitorArea,
    PickerShortcutLatch, PickerShortcutObserver, PickerState, VK_LCONTROL, VK_RSHIFT, WM_KEYDOWN,
    WM_KEYUP,
};
use hops::routing::{open_decision, picker_decision};
use hops::models::{BrowserConfig, BrowserSource, RouteAction};

#[test]
fn cli_values_lose_whitespace_and_quotes() {
    assert_eq!(clean_cli_value("  \"https://a.io\"  "), "https://a.io");
    assert_eq!(clean_cli_value("\"\"x\"\""), "x");
}

#[test]
fn url_is_taken_from_flag_or_bare_argument() {
    let args = vec!["hops.exe".to_string(), "--url".to_string(), "\"https://a.io/x\"".to_string()];
    assert_eq!(extract_url_from_args(&args).as_deref(), Some("https://a.io/x"));

    let bare = vec!["hops.exe".to_string(), " http://b.io ".to_string()];
    assert_eq!(extract_url_from_args(&bare).as_deref(), Some("http://b.io"));

    let none = vec!["hops.exe".to_string(), "--url".to_string(), "ftp://c.io".to_string()];
    assert_eq!(extract_url_from_args(&none), None);

    let trailing = vec!["--url".to_string()];
    assert_eq!(extract_url_from_args(&trailing), None);
}

#[test]
fn picker_height_is_clamped() {
    assert_eq!(picker_window_height(0), 128);
    assert_eq!(picker_window_height(1), 138);
    assert_eq!(picker_window_height(5), 322);
    assert_eq!(picker_window_height(6), 340);
    assert_eq!(picker_window_height(40), 340);
}

#[test]
fn picker_position_stays_on_monitor() {
    let monitor = MonitorArea { x: 0, y: 0, width: 1920, height: 1080 };
    assert_eq!(picker_window_position(100, 200, 280, 200, Some(monitor)), (106, 210));
    assert_eq!(picker_window_position(1900, 1000, 280, 200, Some(monitor)), (1640, 880));
    assert_eq!(picker_window_position(-50, -50, 280, 200, Some(monitor)), (0, 0));
    assert_eq!(picker_window_position(-50, 5, 280, 200, None), (0, 15));
    let tiny = MonitorArea { x: 10, y: 20, width: 100, height: 100 };
    assert_eq!(picker_window_position(500, 500, 280, 200, Some(tiny)), (10, 20));
}

#[test]
fn shortcut_age_limit_is_inclusive() {
    let mut latch = PickerShortcutLatch::new();
    latch.remember_at(5);
    assert!(latch.consume_if_recent_at(2_000_000_005, 2_000_000_000));
    latch.remember_at(5);
    assert!(!latch.consume_if_recent_at(2_000_000_006, 2_000_000_000));
    latch.remember_at(5);
    assert!(latch.consume_if_recent_at(1, 0));
    assert!(latch.last_ctrl_shift_seen.is_none());
}

#[test]
fn empty_latch_never_forces_picker() {
    let mut latch = PickerShortcutLatch::new();
    assert!(!latch.consume_if_recent_at(0, u128::MAX));
}

#[test]
fn keyboard_hook_remembers_ctrl_shift_press() {
    let mut observer = PickerShortcutObserver::new();
    assert!(!observer.handle_keyboard_message(VK_LCONTROL, WM_KEYDOWN));
    assert!(observer.handle_keyboard_message(VK_RSHIFT, WM_KEYDOWN));
    assert!(!observer.handle_keyboard_message(0x41, WM_KEYDOWN));
    assert!(!observer.handle_keyboard_message(VK_LCONTROL, WM_KEYUP));
    assert!(!observer.ctrl_down);
    assert!(observer.shift_down);
    assert!(!observer.handle_keyboard_message(VK_LCONTROL, 0x0200));
    assert!(!observer.ctrl_down);
}

#[test]
fn idle_destroy_tokens_supersede_each_other() {
    let mut state = PickerState::default();
    let first = state.next_picker_idle_destroy_token();
    let second = state.next_picker_idle_destroy_token();
    assert_eq!((first, second), (1, 2));
    assert!(!state.is_current_idle_destroy_token(first));
    assert!(state.is_current_idle_destroy_token(second));
}

#[test]
fn incoming_url_actions_follow_the_decision() {
    assert_eq!(incoming_url_action(&picker_decision("ctrl_shift_click")), IncomingUrlAction::ShowForcedPicker);
    assert_eq!(incoming_url_action(&picker_decision("no_match")), IncomingUrlAction::ShowPicker);
    let browser = BrowserConfig {
        id: "b".to_string(),
        name: "B".to_string(),
        path: "C:\\b.exe".to_string(),
        private_flag: None,
        icon_key: None,
        manual_trust: None,
        source: BrowserSource::Manual,
        is_hidden: false,
    };
    let open = open_decision(&browser, false, None, "default_browser");
    assert_eq!(open.action, RouteAction::OpenBrowser);
    assert_eq!(incoming_url_action(&open), IncomingUrlAction::OpenBrowser);
}

#[test]
fn picker_names_compare_lowercased() {
    let mut config = default_config();
    for (id, name) in [("b", "Beta"), ("a", "alpha")] {
        config.browsers.push(BrowserConfig {
            id: id.to_string(),
            name: name.to_string(),
            path: format!("C:\\{id}.exe"),
            private_flag: None,
            icon_key: None,
            manual_trust: None,
            source: BrowserSource::Manual,
            is_hidden: false,
        });
    }
    let mut running = RunningProcessSnapshot::new(|| Vec::new());
    let session = build_picker_session_with_running_processes(
        &config,
        " https://Example.com/x ",
        PickerLaunchSource::Manual,
        "manual_open",
        None,
        true,
        true,
        &mut running,
    )
    .expect("session");
    let ids: Vec<&str> = session.browsers.iter().map(|b| b.id.as_str()).collect();
    assert_eq!(ids, vec!["a", "b"]);
    assert_eq!(session.url, "https://example.com/x");
    assert!(session.alt_pressed);
    assert!(session.preferred_private_mode);

    let error = build_picker_session_with_running_processes(
        &config,
        "ftp://example.com",
        PickerLaunchSource::Manual,
        "manual_open",
        None,
        false,
        false,
        &mut running,
    );
    assert!(error.is_err());
}

#[test]
fn latch_forces_picker_once() {
    let mut latch = PickerShortcutLatch::new();
    latch.remember_at(10);
    assert_eq!(latch.last_ctrl_shift_seen, Some(10));
    assert!(latch.consume_if_recent_at(20, 2_000_000_000));
    assert!(!latch.consume_if_recent_at(20, 2_000_000_000));
}

#[test]
fn hidden_browsers_never_reach_the_picker() {
    let mut config = default_config();
    for (id, hidden) in [("shown", false), ("hidden", true)] {
        config.browsers.push(BrowserConfig {
            id: id.to_string(),
            name: id.to_string(),
            path: format!("C:\\{id}.exe"),
            private_flag: None,
            icon_key: None,
            manual_trust: None,
            source: BrowserSource::Manual,
            is_hidden: hidden,
        });
    }
    let mut running = RunningProcessSnapshot::new(|| Vec::new());
    let session = build_picker_session_with_running_processes(
        &config,
        "https://example.com",
        PickerLaunchSource::Manual,
        "manual_open",
        Some("hidden"),
        false,
        false,
        &mut running,
    )
    .expect("session");
    assert_eq!(session.browsers.len(), 1);
    assert_eq!(session.browsers[0].id, "shown");
}
