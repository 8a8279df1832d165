use hops::browsers::{
    build_detected_browser, check_browser_for_launch, check_manual_browser_request,
    hydrate_detected_browser_defaults, merge_detected_browsers, normalize_manual_browser_entries,
    resolve_browser_metadata, BrowserFamily,
};
use hops::models::{
    AppConfig, BrowserConfig, BrowserRecognition, BrowserSource, ManualBrowserTrust,
    ManualBrowserValidationRequest, ThemePreference,
};

fn test_app_config(browsers: Vec<BrowserConfig>) -> AppConfig {
    AppConfig {
        version: 1,
        always_show_picker: false,
        use_defaults_when_not_running: false,
        disable_transparency: false,
        theme_preference: ThemePreference::Light,
        onboarding_completed: true,
        default_browser_id: None,
        browsers,
        rules: Vec::new(),
    }
}

fn executable_path(name: &str) -> String {
    format!("C:\\Users\\Hugo\\Downloads\\hops-browser-test\\{name}")
}

#[test]
fn chromium_family_metadata_gets_incognito_flag() {
    for browser in [
        (
            "C:\\Program Files\\Google\\Chrome\\Application\\chrome.exe",
            "Google Chrome",
        ),
        (
            "C:\\Users\\Hugo\\AppData\\Local\\Vivaldi\\Application\\vivaldi.exe",
            "Vivaldi",
        ),
        (
            "C:\\Users\\Hugo\\AppData\\Local\\BraveSoftware\\Brave-Browser\\Application\\brave.exe",
            "Brave",
        ),
        ("C:\\Tools\\Chromium\\chromium.exe", "Google Chrome"),
        (
            "C:\\Program Files\\imput\\Helium\\Application\\chrome.exe",
            "Helium",
        ),
    ] {
        let metadata = resolve_browser_metadata(browser.0, Some(browser.1), None);
        assert_eq!(metadata.family, BrowserFamily::Chromium);
        assert_eq!(metadata.private_flag.as_deref(), Some("--incognito"));
    }
}

#[test]
fn firefox_family_metadata_gets_private_window_flag() {
    for browser in [
        (
            "C:\\Program Files\\Mozilla Firefox\\firefox.exe",
            "Mozilla Firefox",
        ),
        ("C:\\Program Files\\LibreWolf\\librewolf.exe", "LibreWolf"),
        ("C:\\Program Files\\Waterfox\\waterfox.exe", "Waterfox"),
        ("C:\\Program Files\\Floorp\\floorp.exe", "Floorp"),
        ("C:\\Program Files\\Zen Browser\\zen.exe", "Zen"),
    ] {
        let metadata = resolve_browser_metadata(browser.0, Some(browser.1), None);
        assert_eq!(metadata.family, BrowserFamily::Firefox);
        assert_eq!(metadata.private_flag.as_deref(), Some("--private-window"));
    }
}

#[test]
fn edge_and_opera_metadata_get_expected_private_flags() {
    let edge = resolve_browser_metadata(
        "C:\\Program Files\\Microsoft\\Edge\\Application\\msedge.exe",
        Some("Microsoft Edge"),
        None,
    );
    assert_eq!(edge.family, BrowserFamily::Edge);
    assert_eq!(edge.private_flag.as_deref(), Some("--inprivate"));

    let opera = resolve_browser_metadata(
        "C:\\Users\\Hugo\\AppData\\Local\\Programs\\Opera\\opera.exe",
        Some("Opera"),
        None,
    );
    assert_eq!(opera.family, BrowserFamily::Opera);
    assert_eq!(opera.private_flag.as_deref(), Some("--private"));
}

#[test]
fn unknown_browser_uses_registry_name_and_has_no_private_flag() {
    let metadata = resolve_browser_metadata("C:\\Tools\\Arc\\arc.exe", None, Some("Arc_Browser"));
    assert_eq!(metadata.family, BrowserFamily::Chromium);
    assert_eq!(metadata.name, "Arc");
    assert_eq!(metadata.private_flag.as_deref(), Some("--incognito"));
}

#[test]
fn manual_browser_suppresses_detected_browser_with_same_path() {
    let path = "C:\\Program Files\\LibreWolf\\librewolf.exe";
    let mut config = test_app_config(vec![BrowserConfig {
        id: "manual-librewolf".to_string(),
        name: "LibreWolf Custom".to_string(),
        path: path.to_string(),
        private_flag: Some("--my-private".to_string()),
        icon_key: None,
        manual_trust: Some(ManualBrowserTrust::Verified),
        source: BrowserSource::Manual,
        is_hidden: false,
    }]);

    merge_detected_browsers(
        &mut config,
        vec![build_detected_browser(path, Some("LibreWolf"), None)],
    );

    assert_eq!(config.browsers.len(), 1);
    assert_eq!(config.browsers[0].id, "manual-librewolf");
    assert_eq!(config.browsers[0].private_flag.as_deref(), Some("--my-private"));
}

#[test]
fn hidden_detected_browser_stays_hidden_after_refresh() {
    let path = "C:\\Program Files\\LibreWolf\\librewolf.exe";
    let first_detected = build_detected_browser(path, Some("LibreWolf"), None);
    let mut hidden_detected = first_detected.clone();
    hidden_detected.is_hidden = true;
    let mut config = test_app_config(vec![hidden_detected]);

    merge_detected_browsers(
        &mut config,
        vec![build_detected_browser(path, Some("LibreWolf"), None)],
    );

    assert_eq!(config.browsers.len(), 1);
    assert_eq!(config.browsers[0].id, first_detected.id);
    assert!(config.browsers[0].is_hidden);
}

#[test]
fn librewolf_and_vivaldi_detected_browsers_keep_expected_flags() {
    let librewolf = build_detected_browser(
        "C:\\Program Files\\LibreWolf\\librewolf.exe",
        Some("LibreWolf"),
        None,
    );
    assert_eq!(librewolf.private_flag.as_deref(), Some("--private-window"));

    let vivaldi = build_detected_browser(
        "C:\\Users\\Hugo\\AppData\\Local\\Vivaldi\\Application\\vivaldi.exe",
        Some("Vivaldi"),
        None,
    );
    assert_eq!(vivaldi.private_flag.as_deref(), Some("--incognito"));
}

#[test]
fn stale_detected_firefox_family_entries_get_private_flag_backfilled() {
    let mut config = test_app_config(vec![
        BrowserConfig {
            id: "detected-zen".to_string(),
            name: "Firefox-F0DC299D809B9700".to_string(),
            path: "C:\\Program Files\\Zen Browser\\zen.exe".to_string(),
            private_flag: None,
            icon_key: None,
            manual_trust: None,
            source: BrowserSource::Detected,
            is_hidden: false,
        },
        BrowserConfig {
            id: "detected-librewolf".to_string(),
            name: "LibreWolf".to_string(),
            path: "C:\\Program Files\\LibreWolf\\librewolf.exe".to_string(),
            private_flag: None,
            icon_key: None,
            manual_trust: None,
            source: BrowserSource::Detected,
            is_hidden: false,
        },
    ]);

    hydrate_detected_browser_defaults(&mut config);

    assert_eq!(config.browsers[0].private_flag.as_deref(), Some("--private-window"));
    assert_eq!(config.browsers[1].private_flag.as_deref(), Some("--private-window"));
}

#[test]
fn manual_browser_validation_accepts_known_browser_path_and_expected_flag() {
    let browser = BrowserConfig {
        id: "manual-chrome".to_string(),
        name: "Portable Chrome".to_string(),
        path: executable_path("chrome.exe"),
        private_flag: Some("--incognito".to_string()),
        icon_key: None,
        manual_trust: Some(ManualBrowserTrust::Verified),
        source: BrowserSource::Manual,
        is_hidden: false,
    };

    let validated =
        check_browser_for_launch(&browser, true).expect("manual chrome should validate");
    assert_eq!(validated.private_flag.as_deref(), Some("--incognito"));
}

#[test]
fn manual_browser_validation_requires_confirmation_for_unknown_executable() {
    let browser = BrowserConfig {
        id: "manual-notepad".to_string(),
        name: "Definitely Not A Browser".to_string(),
        path: executable_path("notepad.exe"),
        private_flag: None,
        icon_key: None,
        manual_trust: None,
        source: BrowserSource::Manual,
        is_hidden: false,
    };

    let error = check_browser_for_launch(&browser, true).expect_err("unknown exe should need trust");
    assert!(error.contains("needs explicit confirmation"));
}

#[test]
fn manual_browser_validation_rejects_unexpected_private_flag() {
    let browser = BrowserConfig {
        id: "manual-firefox".to_string(),
        name: "Firefox".to_string(),
        path: executable_path("firefox.exe"),
        private_flag: Some("--profile".to_string()),
        icon_key: None,
        manual_trust: Some(ManualBrowserTrust::Verified),
        source: BrowserSource::Manual,
        is_hidden: false,
    };

    let error =
        check_browser_for_launch(&browser, true).expect_err("unexpected flag should reject");
    assert!(error.contains("only allows the private flag"));
}

#[test]
fn tor_browser_metadata_has_no_private_flag() {
    let metadata = resolve_browser_metadata(
        "C:\\Users\\Hugo\\Desktop\\Tor Browser\\Browser\\firefox.exe",
        Some("Tor Browser"),
        None,
    );
    assert_eq!(metadata.family, BrowserFamily::Firefox);
    assert_eq!(metadata.name, "Tor Browser");
    assert_eq!(metadata.private_flag, None);
}

#[test]
fn recognized_firefox_family_manual_browser_gets_safe_default_flag() {
    let request = ManualBrowserValidationRequest {
        name: "Portable Floorp".to_string(),
        path: executable_path("floorp.exe"),
        private_flag: None,
        allow_user_confirmed: false,
    };

    let validated = check_manual_browser_request(&request, true)
        .expect("recognized family should validate");
    assert_eq!(validated.recognition, BrowserRecognition::Known);
    assert_eq!(validated.manual_trust, Some(ManualBrowserTrust::Verified));
    assert_eq!(validated.private_flag.as_deref(), Some("--private-window"));
}

#[test]
fn unknown_manual_browser_can_be_user_confirmed() {
    let path = executable_path("custom-browser.exe");
    let request = ManualBrowserValidationRequest {
        name: "Custom Browser".to_string(),
        path: path.clone(),
        private_flag: None,
        allow_user_confirmed: true,
    };

    let validated =
        check_manual_browser_request(&request, true).expect("user-confirmed manual browser");
    assert_eq!(validated.manual_trust, Some(ManualBrowserTrust::UserConfirmed));
    assert!(!validated.requires_confirmation);

    let browser = BrowserConfig {
        id: "manual-custom".to_string(),
        name: "Custom Browser".to_string(),
        path,
        private_flag: None,
        icon_key: None,
        manual_trust: Some(ManualBrowserTrust::UserConfirmed),
        source: BrowserSource::Manual,
        is_hidden: false,
    };
    assert!(check_browser_for_launch(&browser, true).is_ok());
}

#[test]
fn normalize_manual_browser_entries_clears_verified_trust_for_unknown_paths() {
    let mut config = test_app_config(vec![BrowserConfig {
        id: "manual-custom".to_string(),
        name: "Custom Browser".to_string(),
        path: executable_path("custom-browser.exe"),
        private_flag: Some("--incognito".to_string()),
        icon_key: None,
        manual_trust: Some(ManualBrowserTrust::Verified),
        source: BrowserSource::Manual,
        is_hidden: false,
    }]);

    normalize_manual_browser_entries(&mut config);
    let browser = &config.browsers[0];
    assert_eq!(browser.manual_trust, None);
    assert_eq!(browser.private_flag, None);
}
