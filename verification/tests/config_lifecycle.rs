use hops::config::{configs_equal, copy_config, prepare_config_for_save, route_with_config, settle_loaded_config};
use hops::browsers::build_detected_browser;
use hops::config::{check_config, default_config, normalize_config, reset_config_with_detected_browsers};
use hops::models::{
    AppConfig, BrowserConfig, BrowserSource, ManualBrowserTrust, RuleConfig, RulePatternType,
    ThemePreference,
};

fn manual_browser(id: &str, name: &str, file: &str) -> BrowserConfig {
    BrowserConfig {
        id: id.to_string(),
        name: name.to_string(),
        path: format!("C:\\Tools\\{name}\\{file}"),
        private_flag: None,
        icon_key: None,
        manual_trust: Some(ManualBrowserTrust::UserConfirmed),
        source: BrowserSource::Manual,
        is_hidden: false,
    }
}

fn rule(id: &str, pattern_type: RulePatternType, pattern: &str, browser_id: &str) -> RuleConfig {
    RuleConfig {
        id: id.to_string(),
        pattern: pattern.to_string(),
        pattern_type,
        browser_id: browser_id.to_string(),
        private_mode: false,
        enabled: true,
    }
}

#[test]
fn reset_config_restores_defaults_and_keeps_only_detected_browsers() {
    let config = reset_config_with_detected_browsers(
        vec![
            build_detected_browser(
                "C:\\Program Files\\Google\\Chrome\\Application\\chrome.exe",
                Some("Google Chrome"),
                None,
            ),
            build_detected_browser(
                "C:\\Program Files\\Mozilla Firefox\\firefox.exe",
                Some("Mozilla Firefox"),
                None,
            ),
        ],
        true,
    );

    assert_eq!(config.version, 1);
    assert!(!config.always_show_picker);
    assert!(!config.use_defaults_when_not_running);
    assert!(!config.disable_transparency);
    assert_eq!(config.theme_preference, ThemePreference::Light);
    assert!(config.onboarding_completed);
    assert_eq!(config.default_browser_id, None);
    assert!(config.rules.is_empty());
    assert_eq!(config.browsers.len(), 2);
    assert!(config.browsers.iter().all(|browser| browser.source == BrowserSource::Detected));
}

#[test]
fn reset_config_sorts_detected_browsers_by_name() {
    let config = reset_config_with_detected_browsers(
        vec![
            build_detected_browser("C:\\Program Files\\Mozilla Firefox\\firefox.exe", Some("Mozilla Firefox"), None),
            build_detected_browser("C:\\Program Files\\Google\\Chrome\\Application\\chrome.exe", Some("Google Chrome"), None),
        ],
        false,
    );
    let names: Vec<&str> = config.browsers.iter().map(|b| b.name.as_str()).collect();
    assert_eq!(names, vec!["Google Chrome", "Mozilla Firefox"]);
    assert!(!config.onboarding_completed);
}

#[test]
fn default_config_is_empty() {
    let config = default_config();
    assert_eq!(config.version, 1);
    assert!(config.browsers.is_empty());
    assert!(config.rules.is_empty());
    assert_eq!(config.default_browser_id, None);
    assert!(!config.onboarding_completed);
}

#[test]
fn normalize_config_drops_dangling_references() {
    let mut config: AppConfig = default_config();
    config.version = 0;
    config.browsers.push(manual_browser("custom", "Custom", "custom.exe"));
    config.default_browser_id = Some("missing".to_string());
    config.rules.push(rule("keep", RulePatternType::Hostname, "a.com", "custom"));
    config.rules.push(rule("drop", RulePatternType::Hostname, "b.com", "missing"));

    normalize_config(&mut config);

    assert_eq!(config.version, 1);
    assert_eq!(config.default_browser_id, None);
    assert_eq!(config.rules.len(), 1);
    assert_eq!(config.rules[0].id, "keep");
}

#[test]
fn normalize_config_keeps_existing_default_and_version() {
    let mut config = default_config();
    config.version = 3;
    config.browsers.push(manual_browser("custom", "Custom", "custom.exe"));
    config.default_browser_id = Some("custom".to_string());
    normalize_config(&mut config);
    assert_eq!(config.version, 3);
    assert_eq!(config.default_browser_id.as_deref(), Some("custom"));
}

#[test]
fn check_config_reports_each_problem() {
    let mut config = default_config();
    config.browsers.push(manual_browser("custom", "Custom", "custom.exe"));
    assert_eq!(check_config(&config, &vec![true]), Ok(()));

    assert_eq!(
        check_config(&config, &vec![false]),
        Err("Browser executable does not exist: C:\\Tools\\Custom\\custom.exe".to_string())
    );

    config.default_browser_id = Some("missing".to_string());
    assert_eq!(
        check_config(&config, &vec![true]),
        Err("Default browser must reference an existing browser entry.".to_string())
    );

    config.default_browser_id = None;
    config.rules.push(rule("r1", RulePatternType::Hostname, "a.com", "nope"));
    assert_eq!(
        check_config(&config, &vec![true]),
        Err("Rule 'r1' references browser 'nope' which does not exist.".to_string())
    );

    config.rules.clear();
    config.rules.push(rule("r2", RulePatternType::Regex, "(", "custom"));
    let error = check_config(&config, &vec![true]).expect_err("bad regex");
    assert!(error.starts_with("Rule 'r2' has an invalid regex pattern '(': "));
}

#[test]
fn settled_config_is_filled_and_marked_changed() {
    let loaded = default_config();
    let (config, changed) = settle_loaded_config(loaded, true, || {
        vec![build_detected_browser("C:\\B\\brave.exe", Some("Brave"), None)]
    });
    assert!(changed);
    assert_eq!(config.browsers.len(), 1);

    let (same, unchanged) = settle_loaded_config(config.clone(), true, || Vec::new());
    assert!(!unchanged);
    assert_eq!(same, config);

    let (empty, not_filled) = settle_loaded_config(default_config(), false, || {
        vec![build_detected_browser("C:\\B\\brave.exe", Some("Brave"), None)]
    });
    assert!(!not_filled);
    assert!(empty.browsers.is_empty());
}

#[test]
fn saving_normalizes_and_validates_on_request() {
    let mut config = default_config();
    config.version = 0;
    config.browsers.push(manual_browser("custom", "Custom", "custom.exe"));
    let saved = prepare_config_for_save(config.clone(), false).expect("plain save");
    assert_eq!(saved.version, 1);

    let error = prepare_config_for_save(config.clone(), true).expect_err("missing executable");
    assert!(error.starts_with("Browser executable does not exist: "));

    let routed = route_with_config(config, "https://example.com", &Vec::new());
    assert!(routed.is_err());
}

#[test]
fn configs_compare_field_by_field() {
    let mut a = default_config();
    a.browsers.push(manual_browser("custom", "Custom", "custom.exe"));
    let b = copy_config(&a);
    assert!(configs_equal(&a, &b));
    let mut c = copy_config(&a);
    c.browsers[0].is_hidden = true;
    assert!(!configs_equal(&a, &c));
}

#[test]
fn normalization_keeps_browsers_and_fails_only_on_regex() {
    let mut config = default_config();
    let mut detected = build_detected_browser("C:\\Program Files\\LibreWolf\\librewolf.exe", Some("LibreWolf"), None);
    detected.private_flag = None;
    detected.is_hidden = true;
    config.browsers.push(detected.clone());
    config.browsers.push(manual_browser("custom", "Custom", "custom.exe"));
    config.default_browser_id = Some("custom".to_string());
    config.rules.push(rule("bad", RulePatternType::Regex, "[", "custom"));
    config.rules.push(rule("dangling", RulePatternType::Hostname, "a.com", "gone"));

    normalize_config(&mut config);
    assert_eq!(config.browsers.len(), 2);
    assert_eq!(config.browsers[0].id, detected.id);
    assert!(config.browsers[0].is_hidden);
    assert_eq!(config.browsers[0].private_flag.as_deref(), Some("--private-window"));
    assert_eq!(config.rules.len(), 1);

    let error = check_config(&config, &vec![true, true]).expect_err("bad regex");
    assert!(error.starts_with("Rule 'bad' has an invalid regex pattern '[': "));
}

#[test]
fn normalizing_twice_changes_nothing() {
    let mut config = default_config();
    config.version = 0;
    let mut detected = build_detected_browser("C:\\Program Files\\Zen Browser\\zen.exe", Some("Zen"), None);
    detected.private_flag = None;
    config.browsers.push(detected);
    config.browsers.push(BrowserConfig {
        id: "manual-chrome".to_string(),
        name: "Portable Chrome".to_string(),
        path: "C:\\Portable\\chrome.exe".to_string(),
        private_flag: None,
        icon_key: None,
        manual_trust: None,
        source: BrowserSource::Manual,
        is_hidden: false,
    });
    config.rules.push(rule("r", RulePatternType::Hostname, "a.com", "manual-chrome"));
    config.rules.push(rule("gone", RulePatternType::Hostname, "b.com", "missing"));
    normalize_config(&mut config);
    let once = config.clone();
    normalize_config(&mut config);
    assert_eq!(config, once);
    assert_eq!(once.rules.len(), 1);
    assert_eq!(once.browsers[1].manual_trust, Some(ManualBrowserTrust::Verified));
}

#[test]
fn blank_named_known_browser_settles_after_one_normalization() {
    let mut config = default_config();
    config.browsers.push(BrowserConfig {
        id: "manual-blank".to_string(),
        name: "  ".to_string(),
        path: "C:\\Portable\\firefox.exe".to_string(),
        private_flag: None,
        icon_key: None,
        manual_trust: None,
        source: BrowserSource::Manual,
        is_hidden: false,
    });
    normalize_config(&mut config);
    let once = config.clone();
    normalize_config(&mut config);
    assert_eq!(config, once);
    assert_eq!(once.browsers[0].private_flag.as_deref(), Some("--private-window"));
}
