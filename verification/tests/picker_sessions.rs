use hops::picker::{trigger_load_step, TriggerLoadAction, TriggerLoadEvent, TriggerLoadPhase};
use hops::browsers::RunningProcessSnapshot;
use hops::models::{
    AppConfig, BrowserConfig, BrowserSource, PickerLaunchSource, PickerSession, RouteAction,
    RouteDecision, RuleConfig, RulePatternType, ThemePreference,
};
use hops::picker::{
    build_picker_session_with_running_processes, is_ctrl_shift_picker_trigger_active_with_latch,
    load_config_with_picker_trigger_snapshot,
    resolve_incoming_url_decision_with_running_processes, PickerState,
};
use hops::routing::resolve_route_with_running_processes;
use std::cell::Cell;
use std::rc::Rc;
use std::time::Duration;

fn test_app_config(browsers: Vec<BrowserConfig>) -> AppConfig {
    AppConfig {
        version: 1,
        always_show_picker: false,
        use_defaults_when_not_running: false,
        disable_transparency: false,
        theme_preference: ThemePreference::Light,
        onboarding_completed: true,
        default_browser_id: None,
        browsers,
        rules: Vec::new(),
    }
}

fn manual_browser(id: &str, name: &str) -> BrowserConfig {
    BrowserConfig {
        id: id.to_string(),
        name: name.to_string(),
        path: format!("C:\\Tools\\{name}\\browser.exe"),
        private_flag: Some("--incognito".to_string()),
        icon_key: Some(id.to_string()),
        manual_trust: None,
        source: BrowserSource::Manual,
        is_hidden: false,
    }
}

fn test_rule(pattern_type: RulePatternType, pattern: &str, browser_id: &str) -> RuleConfig {
    RuleConfig {
        id: "test".to_string(),
        pattern: pattern.to_string(),
        pattern_type,
        browser_id: browser_id.to_string(),
        private_mode: false,
        enabled: true,
    }
}

fn counted_empty_snapshot() -> (RunningProcessSnapshot<impl Fn() -> Vec<String>>, Rc<Cell<usize>>) {
    let scan_count = Rc::new(Cell::new(0));
    let scan_count_for_load = Rc::clone(&scan_count);

    let snapshot = RunningProcessSnapshot::new(move || {
        scan_count_for_load.set(scan_count_for_load.get() + 1);
        Vec::new()
    });

    (snapshot, scan_count)
}

fn running_snapshot(running_paths: Vec<String>) -> RunningProcessSnapshot<impl Fn() -> Vec<String>> {
    RunningProcessSnapshot::new(move || {
        running_paths
            .iter()
            .map(|path| path.trim().replace('/', "\\").to_lowercase())
            .collect()
    })
}

fn build_route_picker_session<F>(
    config: &AppConfig,
    url: &str,
    decision: &RouteDecision,
    running: &mut RunningProcessSnapshot<F>,
) -> PickerSession
where
    F: Fn() -> Vec<String>,
{
    build_picker_session_with_running_processes(
        config,
        url,
        PickerLaunchSource::Route,
        &decision.reason,
        decision.browser_id.as_deref(),
        decision.private_mode,
        false,
        running,
    )
    .expect("picker session should build")
}

fn session_ids(session: &PickerSession) -> Vec<&str> {
    session.browsers.iter().map(|browser| browser.id.as_str()).collect()
}

#[test]
fn picker_trigger_is_checked_before_config_load() {
    let events = Rc::new(std::cell::RefCell::new(Vec::new()));
    let trigger_events = Rc::clone(&events);
    let load_events = Rc::clone(&events);

    let (config, force_picker) = load_config_with_picker_trigger_snapshot(
        || {
            trigger_events.borrow_mut().push("trigger");
            false
        },
        || {
            load_events.borrow_mut().push("config");
            Ok(test_app_config(vec![manual_browser("chrome", "Chrome")]))
        },
    )
    .expect("config should load");

    assert_eq!(config.browsers.len(), 1);
    assert!(!force_picker);
    assert_eq!(events.borrow().as_slice(), ["trigger", "config", "trigger"]);
}

#[test]
fn captured_picker_trigger_forces_picker_before_default_fallback() {
    let default = manual_browser("chrome", "Chrome");
    let mut config = test_app_config(vec![default.clone()]);
    config.default_browser_id = Some(default.id);
    config.use_defaults_when_not_running = true;
    let (mut running, scan_count) = counted_empty_snapshot();

    let decision = resolve_incoming_url_decision_with_running_processes(
        &config,
        "https://example.com",
        true,
        &mut running,
    )
    .expect("route should resolve");

    assert_eq!(decision.action, RouteAction::ShowPicker);
    assert_eq!(decision.reason, "ctrl_shift_click");
    assert_eq!(scan_count.get(), 0);
}

#[test]
fn recent_picker_shortcut_latch_forces_picker_after_current_keys_are_released() {
    let mut state = PickerState::default();
    let now: u128 = std::time::Duration::from_secs(30).as_nanos();
    state.remember_picker_shortcut_at(now);

    assert!(is_ctrl_shift_picker_trigger_active_with_latch(
        &mut state,
        || false,
        now + Duration::from_millis(500).as_nanos()
    ));
}

#[test]
fn expired_picker_shortcut_latch_does_not_force_picker() {
    let mut state = PickerState::default();
    let now: u128 = std::time::Duration::from_secs(30).as_nanos();
    state.remember_picker_shortcut_at(now);

    assert!(!is_ctrl_shift_picker_trigger_active_with_latch(
        &mut state,
        || false,
        now + Duration::from_millis(2_001).as_nanos()
    ));
}

#[test]
fn consumed_picker_shortcut_latch_does_not_force_second_url() {
    let mut state = PickerState::default();
    let now: u128 = std::time::Duration::from_secs(30).as_nanos();
    state.remember_picker_shortcut_at(now);

    assert!(is_ctrl_shift_picker_trigger_active_with_latch(
        &mut state,
        || false,
        now + Duration::from_millis(500).as_nanos()
    ));
    assert!(!is_ctrl_shift_picker_trigger_active_with_latch(
        &mut state,
        || false,
        now + Duration::from_millis(600).as_nanos()
    ));
}

#[test]
fn non_shortcut_keeps_default_fallback_behavior() {
    let default = manual_browser("chrome", "Chrome");
    let mut config = test_app_config(vec![default.clone()]);
    config.default_browser_id = Some(default.id);
    config.use_defaults_when_not_running = true;
    let (mut running, scan_count) = counted_empty_snapshot();

    let decision = resolve_incoming_url_decision_with_running_processes(
        &config,
        "https://example.com",
        false,
        &mut running,
    )
    .expect("route should resolve");

    assert_eq!(decision.action, RouteAction::OpenBrowser);
    assert_eq!(decision.reason, "default_browser");
    assert_eq!(scan_count.get(), 0);
}

#[test]
fn matched_non_running_rule_reuses_route_snapshot_for_picker_badges() {
    let browser = manual_browser("brave", "Brave");
    let mut config = test_app_config(vec![browser.clone()]);
    config
        .rules
        .push(test_rule(RulePatternType::Hostname, "github.com", &browser.id));
    let (mut running, scan_count) = counted_empty_snapshot();

    let decision =
        resolve_route_with_running_processes(&config, "https://github.com/openai/codex", &mut running)
            .expect("route should resolve");
    assert_eq!(decision.action, RouteAction::ShowPicker);
    assert_eq!(decision.reason, "rule_browser_not_running");
    assert_eq!(scan_count.get(), 1);

    let session = build_route_picker_session(
        &config,
        "https://github.com/openai/codex",
        &decision,
        &mut running,
    );

    assert_eq!(session.browsers.len(), 1);
    assert!(!session.browsers[0].is_running);
    assert_eq!(session.browsers[0].icon_key.as_deref(), Some("brave"));
    assert_eq!(scan_count.get(), 1);
}

#[test]
fn always_show_picker_scans_only_when_picker_badges_are_built() {
    let browser = manual_browser("chrome", "Chrome");
    let mut config = test_app_config(vec![browser]);
    config.always_show_picker = true;
    let (mut running, scan_count) = counted_empty_snapshot();

    let decision = resolve_route_with_running_processes(&config, "https://example.com", &mut running)
        .expect("route should resolve");

    assert_eq!(decision.reason, "always_show_picker");
    assert_eq!(scan_count.get(), 0);

    let session = build_route_picker_session(&config, "https://example.com", &decision, &mut running);

    assert_eq!(session.browsers.len(), 1);
    assert_eq!(scan_count.get(), 1);
}

#[test]
fn no_match_scans_only_when_picker_badges_are_built() {
    let browser = manual_browser("chrome", "Chrome");
    let mut config = test_app_config(vec![browser.clone()]);
    config
        .rules
        .push(test_rule(RulePatternType::Hostname, "github.com", &browser.id));
    let (mut running, scan_count) = counted_empty_snapshot();

    let decision = resolve_route_with_running_processes(&config, "https://example.com", &mut running)
        .expect("route should resolve");

    assert_eq!(decision.reason, "no_match");
    assert_eq!(scan_count.get(), 0);

    let session = build_route_picker_session(&config, "https://example.com", &decision, &mut running);

    assert_eq!(session.browsers.len(), 1);
    assert_eq!(scan_count.get(), 1);
}

#[test]
fn preferred_browser_sorts_before_default_and_running_browsers() {
    let preferred = manual_browser("brave", "Brave");
    let default = manual_browser("chrome", "Chrome");
    let running_browser = manual_browser("firefox", "Firefox");
    let mut config = test_app_config(vec![default.clone(), running_browser.clone(), preferred.clone()]);
    config.default_browser_id = Some(default.id.clone());
    let mut running = running_snapshot(vec![running_browser.path.clone()]);

    let session = build_picker_session_with_running_processes(
        &config,
        "https://example.com",
        PickerLaunchSource::Route,
        "test",
        Some(preferred.id.as_str()),
        false,
        false,
        &mut running,
    )
    .expect("picker session should build");

    assert_eq!(session_ids(&session), vec!["brave", "chrome", "firefox"]);
}

#[test]
fn default_browser_sorts_before_running_when_no_preferred_browser_exists() {
    let running_browser = manual_browser("brave", "Brave");
    let default = manual_browser("chrome", "Chrome");
    let other = manual_browser("firefox", "Firefox");
    let mut config = test_app_config(vec![other.clone(), running_browser.clone(), default.clone()]);
    config.default_browser_id = Some(default.id.clone());
    let mut running = running_snapshot(vec![running_browser.path.clone()]);

    let session = build_picker_session_with_running_processes(
        &config,
        "https://example.com",
        PickerLaunchSource::Manual,
        "test",
        None,
        false,
        false,
        &mut running,
    )
    .expect("picker session should build");

    assert_eq!(session_ids(&session), vec!["chrome", "brave", "firefox"]);
}

#[test]
fn running_browsers_sort_before_other_non_default_browsers() {
    let other_a = manual_browser("arc", "Arc");
    let running_browser = manual_browser("vivaldi", "Vivaldi");
    let other_b = manual_browser("zen", "Zen");
    let config = test_app_config(vec![other_b.clone(), other_a.clone(), running_browser.clone()]);
    let mut running = running_snapshot(vec![running_browser.path.clone()]);

    let session = build_picker_session_with_running_processes(
        &config,
        "https://example.com",
        PickerLaunchSource::Manual,
        "test",
        None,
        false,
        false,
        &mut running,
    )
    .expect("picker session should build");

    assert_eq!(session_ids(&session), vec!["vivaldi", "arc", "zen"]);
}

#[test]
fn picker_browser_order_falls_back_to_browser_name() {
    let config = test_app_config(vec![
        manual_browser("zen", "Zen"),
        manual_browser("brave", "Brave"),
        manual_browser("arc", "Arc"),
    ]);
    let mut running = running_snapshot(Vec::new());

    let session = build_picker_session_with_running_processes(
        &config,
        "https://example.com",
        PickerLaunchSource::Manual,
        "test",
        None,
        false,
        false,
        &mut running,
    )
    .expect("picker session should build");

    assert_eq!(session_ids(&session), vec!["arc", "brave", "zen"]);
}

#[test]
fn trigger_load_steps_follow_the_documented_order() {
    let (phase, action) = trigger_load_step(TriggerLoadPhase::Start, TriggerLoadEvent::Begin);
    assert!(matches!(action, TriggerLoadAction::AskTrigger));
    let (phase, action) = trigger_load_step(phase, TriggerLoadEvent::TriggerAnswered(false));
    assert!(matches!(action, TriggerLoadAction::LoadConfig));
    let config = test_app_config(Vec::new());
    let (phase, action) = trigger_load_step(phase, TriggerLoadEvent::Loaded(config.clone()));
    assert!(matches!(action, TriggerLoadAction::AskTrigger));
    let (phase, action) = trigger_load_step(phase, TriggerLoadEvent::TriggerAnswered(true));
    assert!(matches!(phase, TriggerLoadPhase::Finished));
    assert!(matches!(action, TriggerLoadAction::Finish(_, true)));

    let (phase, _) = trigger_load_step(TriggerLoadPhase::AwaitingFirstAnswer, TriggerLoadEvent::TriggerAnswered(true));
    let (_, action) = trigger_load_step(phase, TriggerLoadEvent::Loaded(config.clone()));
    assert!(matches!(action, TriggerLoadAction::Finish(_, true)));

    let (_, action) = trigger_load_step(TriggerLoadPhase::Loading(false), TriggerLoadEvent::LoadFailed("bad".to_string()));
    assert!(matches!(action, TriggerLoadAction::Fail(ref e) if e == "bad"));

    let (phase, action) = trigger_load_step(TriggerLoadPhase::Start, TriggerLoadEvent::Loaded(config));
    assert!(matches!(phase, TriggerLoadPhase::Start));
    assert!(matches!(action, TriggerLoadAction::Ignore));
}

#[test]
fn load_error_is_handed_on_after_one_trigger_check() {
    let checks = Rc::new(Cell::new(0));
    let counted = Rc::clone(&checks);
    let result = load_config_with_picker_trigger_snapshot(
        || {
            counted.set(counted.get() + 1);
            true
        },
        || Err("cannot read".to_string()),
    );
    assert_eq!(result.err().as_deref(), Some("cannot read"));
    assert_eq!(checks.get(), 1);
}
