use hops::models::{AppConfig, BrowserConfig, BrowserSource, RouteAction, RuleConfig, RulePatternType, ThemePreference};
use hops::routing::{
    check_url_launch, extract_hostname, normalize_http_url, resolve_route, rule_matches,
};

fn test_rule(pattern_type: RulePatternType, pattern: &str) -> RuleConfig {
    RuleConfig {
        id: "test".to_string(),
        pattern: pattern.to_string(),
        pattern_type,
        browser_id: "chrome".to_string(),
        private_mode: false,
        enabled: true,
    }
}

fn test_app_config(browsers: Vec<BrowserConfig>) -> AppConfig {
    AppConfig {
        version: 1,
        always_show_picker: false,
        use_defaults_when_not_running: false,
        disable_transparency: false,
        theme_preference: ThemePreference::Light,
        onboarding_completed: true,
        default_browser_id: None,
        browsers,
        rules: Vec::new(),
    }
}

fn manual_browser(id: &str, name: &str) -> BrowserConfig {
    BrowserConfig {
        id: id.to_string(),
        name: name.to_string(),
        path: format!("C:\\Tools\\{name}\\browser.exe"),
        private_flag: Some("--incognito".to_string()),
        icon_key: None,
        manual_trust: None,
        source: BrowserSource::Manual,
        is_hidden: false,
    }
}

#[test]
fn hostname_match_is_exact() {
    let rule = test_rule(RulePatternType::Hostname, "github.com");
    assert!(rule_matches(&rule, "https://github.com/openai"));
    assert!(!rule_matches(&rule, "https://api.github.com"));
}

#[test]
fn hostname_subdomain_match_works() {
    let rule = test_rule(RulePatternType::HostnameSubdomains, "*.notion.so");
    assert!(rule_matches(&rule, "https://workspace.notion.so/page"));
    assert!(!rule_matches(&rule, "https://notion.so/page"));
}

#[test]
fn glob_match_works() {
    let rule = test_rule(RulePatternType::Glob, "https://jira.*/browse/ENG-*");
    assert!(rule_matches(&rule, "https://jira.mycompany.com/browse/ENG-11"));
    assert!(!rule_matches(&rule, "https://jira.mycompany.com/browse/OPS-11"));
}

#[test]
fn regex_match_works() {
    let rule = test_rule(RulePatternType::Regex, r"^https?://(www\.)?youtube\.com/watch");
    assert!(rule_matches(&rule, "https://youtube.com/watch?v=abc"));
    assert!(!rule_matches(&rule, "https://youtube.com/shorts/abc"));
}

#[test]
fn private_rule_picker_decision_preserves_rule_browser_and_private_mode() {
    let browser = manual_browser("brave", "Brave");
    let mut rule = test_rule(RulePatternType::Hostname, "github.com");
    rule.browser_id = browser.id.clone();
    rule.private_mode = true;

    let mut config = test_app_config(vec![browser.clone()]);
    config.rules.push(rule);

    let decision = resolve_route(&config, "https://github.com/openai/codex", &Vec::new())
        .expect("route should resolve");

    assert_eq!(decision.action, RouteAction::ShowPicker);
    assert_eq!(decision.browser_id.as_deref(), Some(browser.id.as_str()));
    assert!(decision.private_mode);
    assert_eq!(decision.reason, "rule_browser_not_running");
}

#[test]
fn private_rule_default_fallback_preserves_private_mode() {
    let rule_browser = manual_browser("brave", "Brave");
    let default_browser = manual_browser("chrome", "Chrome");
    let mut rule = test_rule(RulePatternType::Hostname, "github.com");
    rule.browser_id = rule_browser.id.clone();
    rule.private_mode = true;

    let mut config = test_app_config(vec![rule_browser, default_browser.clone()]);
    config.use_defaults_when_not_running = true;
    config.default_browser_id = Some(default_browser.id.clone());
    config.rules.push(rule);

    let decision = resolve_route(&config, "https://github.com/openai/codex", &Vec::new())
        .expect("route should resolve");

    assert_eq!(decision.action, RouteAction::OpenBrowser);
    assert_eq!(decision.browser_id.as_deref(), Some(default_browser.id.as_str()));
    assert!(decision.private_mode);
    assert_eq!(decision.reason, "rule_browser_not_running_use_default");
}

#[test]
fn running_rule_browser_opens_directly() {
    let browser = manual_browser("brave", "Brave");
    let mut rule = test_rule(RulePatternType::Hostname, "github.com");
    rule.browser_id = browser.id.clone();
    let mut config = test_app_config(vec![browser.clone()]);
    config.rules.push(rule);
    let running = vec!["c:\\tools\\brave\\browser.exe".to_string()];

    let decision = resolve_route(&config, "https://github.com/x", &running).expect("route");
    assert_eq!(decision.action, RouteAction::OpenBrowser);
    assert_eq!(decision.reason, "rule_match_running");
    assert_eq!(decision.matched_rule_id.as_deref(), Some("test"));
    assert_eq!(decision.browser_name.as_deref(), Some("Brave"));
}

#[test]
fn always_show_picker_wins_over_rules() {
    let browser = manual_browser("chrome", "Chrome");
    let mut config = test_app_config(vec![browser]);
    config.rules.push(test_rule(RulePatternType::Hostname, "github.com"));
    config.always_show_picker = true;
    let running = vec!["c:\\tools\\chrome\\browser.exe".to_string()];

    let decision = resolve_route(&config, "https://github.com/", &running).expect("route");
    assert_eq!(decision.action, RouteAction::ShowPicker);
    assert_eq!(decision.reason, "always_show_picker");
    assert_eq!(decision.browser_id, None);
}

#[test]
fn disabled_rule_is_skipped() {
    let browser = manual_browser("chrome", "Chrome");
    let mut config = test_app_config(vec![browser]);
    let mut rule = test_rule(RulePatternType::Hostname, "github.com");
    rule.enabled = false;
    config.rules.push(rule);

    let decision = resolve_route(&config, "https://github.com/", &Vec::new()).expect("route");
    assert_eq!(decision.reason, "no_match");
}

#[test]
fn rule_pointing_at_hidden_browser_falls_through_to_default() {
    let mut hidden = manual_browser("brave", "Brave");
    hidden.is_hidden = true;
    let default_browser = manual_browser("chrome", "Chrome");
    let mut config = test_app_config(vec![hidden, default_browser]);
    let mut rule = test_rule(RulePatternType::Hostname, "github.com");
    rule.browser_id = "brave".to_string();
    config.rules.push(rule);
    config.default_browser_id = Some("chrome".to_string());

    let not_running = resolve_route(&config, "https://github.com/", &Vec::new()).expect("route");
    assert_eq!(not_running.action, RouteAction::ShowPicker);
    assert_eq!(not_running.reason, "default_browser_not_running");

    let running = vec!["c:\\tools\\chrome\\browser.exe".to_string()];
    let decision = resolve_route(&config, "https://github.com/", &running).expect("route");
    assert_eq!(decision.action, RouteAction::OpenBrowser);
    assert_eq!(decision.reason, "default_browser");
    assert!(!decision.private_mode);
}

#[test]
fn missing_default_browser_shows_picker() {
    let mut config = test_app_config(vec![manual_browser("chrome", "Chrome")]);
    config.default_browser_id = Some("gone".to_string());
    let decision = resolve_route(&config, "https://example.com", &Vec::new()).expect("route");
    assert_eq!(decision.reason, "default_browser_missing");
}

#[test]
fn rule_without_default_shows_picker_with_rule_browser() {
    let browser = manual_browser("brave", "Brave");
    let mut config = test_app_config(vec![browser]);
    let mut rule = test_rule(RulePatternType::Contains, "GITHUB");
    rule.browser_id = "brave".to_string();
    config.rules.push(rule);
    config.use_defaults_when_not_running = true;

    let decision = resolve_route(&config, "https://github.com/", &Vec::new()).expect("route");
    assert_eq!(decision.action, RouteAction::ShowPicker);
    assert_eq!(decision.reason, "rule_browser_not_running_no_default");
    assert_eq!(decision.browser_id.as_deref(), Some("brave"));
}

#[test]
fn pattern_types_match_as_documented() {
    assert!(rule_matches(&test_rule(RulePatternType::Prefix, "https://git"), "https://github.com"));
    assert!(!rule_matches(&test_rule(RulePatternType::Prefix, "HTTPS://git"), "https://github.com"));
    assert!(rule_matches(&test_rule(RulePatternType::Contains, "HUB.C"), "https://github.com"));
    assert!(rule_matches(&test_rule(RulePatternType::FullUrl, "https://a.io/x"), "https://a.io/x"));
    assert!(!rule_matches(&test_rule(RulePatternType::FullUrl, "https://a.io/x"), "https://a.io/x/"));
    assert!(rule_matches(&test_rule(RulePatternType::Hostname, "GitHub.com"), "https://GITHUB.com/a"));
    assert!(rule_matches(&test_rule(RulePatternType::Hostname, "github.com"), "github.com/openai"));
    assert!(!rule_matches(&test_rule(RulePatternType::Hostname, "   "), "https://github.com"));
    assert!(!rule_matches(&test_rule(RulePatternType::Regex, "("), "https://github.com"));
    assert!(rule_matches(&test_rule(RulePatternType::Glob, "*GITHUB*"), "https://github.com"));
}

#[test]
fn hostname_is_lowercased_and_scheme_may_be_missing() {
    assert_eq!(extract_hostname("https://Docs.Example.COM/a").as_deref(), Some("docs.example.com"));
    assert_eq!(extract_hostname("example.org/path").as_deref(), Some("example.org"));
    assert_eq!(extract_hostname("mailto:someone@example.com"), None);
}

#[test]
fn url_normalization_errors() {
    assert_eq!(normalize_http_url("   ").err().as_deref(), Some("URL cannot be empty."));
    assert_eq!(
        normalize_http_url("ftp://example.com").err().as_deref(),
        Some("Unsupported URL scheme 'ftp'. Only http and https are allowed.")
    );
    assert!(normalize_http_url("not a url").err().unwrap().starts_with("Invalid URL: "));
    let parsed = normalize_http_url("  https://Example.com  ").expect("valid url");
    assert_eq!(parsed.serialization, "https://example.com/");
}

#[test]
fn url_launch_adds_private_flag_and_normalized_url() {
    let config = test_app_config(vec![manual_browser("brave", "Brave")]);
    let command = check_url_launch(&config, "brave", "https://Example.com", true, true)
        .expect("launch command");
    assert_eq!(command.program, "C:\\Tools\\Brave\\browser.exe");
    assert_eq!(command.args, vec!["--incognito".to_string(), "https://example.com/".to_string()]);

    let plain = check_url_launch(&config, "brave", "https://example.com", false, true)
        .expect("launch command");
    assert_eq!(plain.args, vec!["https://example.com/".to_string()]);

    assert_eq!(
        check_url_launch(&config, "chrome", "https://example.com", false, true).err().as_deref(),
        Some("Browser 'chrome' was not found in config.")
    );
    assert_eq!(
        check_url_launch(&config, "brave", "https://example.com", false, false).err().as_deref(),
        Some("Browser executable does not exist: C:\\Tools\\Brave\\browser.exe")
    );
}

#[test]
fn first_matching_rule_wins() {
    let mut config = test_app_config(vec![manual_browser("brave", "Brave"), manual_browser("chrome", "Chrome")]);
    let mut first = test_rule(RulePatternType::Prefix, "https://mail.google.com/mail/u/0");
    first.id = "work".to_string();
    first.browser_id = "chrome".to_string();
    let mut second = test_rule(RulePatternType::Contains, "google.com");
    second.id = "personal".to_string();
    second.browser_id = "brave".to_string();
    config.rules.push(first);
    config.rules.push(second);
    let running = vec!["c:\\tools\\chrome\\browser.exe".to_string(), "c:\\tools\\brave\\browser.exe".to_string()];

    let decision = resolve_route(&config, "https://mail.google.com/mail/u/0/#inbox", &running).expect("route");
    assert_eq!(decision.matched_rule_id.as_deref(), Some("work"));
    assert_eq!(decision.browser_id.as_deref(), Some("chrome"));

    let other = resolve_route(&config, "https://www.google.com/search", &running).expect("route");
    assert_eq!(other.matched_rule_id.as_deref(), Some("personal"));
}
