use hops::browsers::{
    build_detected_browser, combine_detected_browsers, extract_executable_path, join_path,
    known_browser_definitions, known_install_paths, parse_first_csv_column, running_browser_ids,
    select_known_path_browsers, select_registry_browsers, split_lines, tasklist_process_names,
    RegistryBrowserEntry,
};
use hops::config::default_config;
use hops::models::{BrowserConfig, BrowserSource};

#[test]
fn executable_path_comes_from_quoted_or_bare_command() {
    assert_eq!(
        extract_executable_path("  \"C:\\Program Files\\Browser\\b.exe\" --single-argument %1").as_deref(),
        Some("C:\\Program Files\\Browser\\b.exe")
    );
    assert_eq!(
        extract_executable_path("C:\\Tools\\Arc\\Arc.EXE -- %1").as_deref(),
        Some("C:\\Tools\\Arc\\Arc.EXE")
    );
    assert_eq!(extract_executable_path("\"C:\\unterminated.exe"), None);
    assert_eq!(extract_executable_path("C:\\Tools\\script.bat"), None);
}

#[test]
fn first_csv_column_handles_quotes_and_blanks() {
    assert_eq!(parse_first_csv_column("\"chrome.exe\",\"1234\",\"Console\"").as_deref(), Some("chrome.exe"));
    assert_eq!(parse_first_csv_column("firefox.exe,42").as_deref(), Some("firefox.exe"));
    assert_eq!(parse_first_csv_column("   "), None);
    assert_eq!(parse_first_csv_column("\"open"), None);
    assert_eq!(parse_first_csv_column("x\"y\",2").as_deref(), Some("x\"y"));
}

#[test]
fn lines_split_like_str_lines() {
    assert_eq!(split_lines("a\r\nb\n\nc"), vec!["a", "b", "", "c"]);
    assert_eq!(split_lines("a\n"), vec!["a"]);
    assert_eq!(split_lines(""), Vec::<String>::new());
    assert_eq!(split_lines("a\r"), vec!["a\r"]);
}

#[test]
fn tasklist_names_are_lowercased_first_columns() {
    let output = "\"Chrome.exe\",\"1\"\r\n\r\n\"FIREFOX.EXE\",\"2\"\r\n";
    assert_eq!(tasklist_process_names(output), vec!["chrome.exe", "firefox.exe"]);
}

#[test]
fn install_paths_join_roots_and_suffixes() {
    assert_eq!(join_path("C:\\Program Files", "Vivaldi\\vivaldi.exe"), "C:\\Program Files\\Vivaldi\\vivaldi.exe");
    assert_eq!(join_path("C:\\Apps\\", "x.exe"), "C:\\Apps\\x.exe");
    assert_eq!(join_path("", "x.exe"), "x.exe");
    assert_eq!(join_path("D:", "x.exe"), "D:x.exe");

    let definitions = known_browser_definitions();
    let roots = vec!["C:\\PF".to_string(), "D:\\Apps".to_string()];
    let paths = known_install_paths(&definitions[0], &roots);
    let suffixes = definitions[0].known_install_path_suffixes.len();
    assert_eq!(paths.len(), 2 * suffixes);
    if suffixes > 0 {
        assert_eq!(paths[0], format!("C:\\PF\\{}", definitions[0].known_install_path_suffixes[0]));
        assert_eq!(paths[suffixes], format!("D:\\Apps\\{}", definitions[0].known_install_path_suffixes[0]));
    }
}

#[test]
fn known_path_detection_takes_first_existing_unseen_place() {
    let definitions = known_browser_definitions();
    let roots = vec!["C:\\PF".to_string()];
    let candidates = known_install_paths(&definitions[0], &roots);
    assert!(!candidates.is_empty());
    let existing = vec![candidates[candidates.len() - 1].clone()];

    let found = select_known_path_browsers(&Vec::new(), &roots, &existing);
    assert_eq!(found.len(), 1);
    assert_eq!(found[0].path, candidates[candidates.len() - 1]);
    assert_eq!(found[0].source, BrowserSource::Detected);

    let seen = vec![candidates[candidates.len() - 1].to_lowercase()];
    assert!(select_known_path_browsers(&seen, &roots, &existing).is_empty());
}

#[test]
fn registry_detection_skips_missing_and_duplicate_paths() {
    let entries = vec![
        RegistryBrowserEntry {
            key_name: "Google Chrome".to_string(),
            command: "\"C:\\Program Files\\Google\\Chrome\\Application\\chrome.exe\" -- \"%1\"".to_string(),
        },
        RegistryBrowserEntry {
            key_name: "Chrome again".to_string(),
            command: "c:/program files/google/chrome/application/CHROME.exe".to_string(),
        },
        RegistryBrowserEntry {
            key_name: "Gone".to_string(),
            command: "\"C:\\Gone\\gone.exe\"".to_string(),
        },
    ];
    let found = select_registry_browsers(&entries, &vec![true, true, false], &Vec::new());
    assert_eq!(found.len(), 1);
    assert_eq!(found[0].path, "C:\\Program Files\\Google\\Chrome\\Application\\chrome.exe");

    let already_found = vec!["c:\\program files\\google\\chrome\\application\\chrome.exe".to_string()];
    assert!(select_registry_browsers(&entries, &vec![true, true, false], &already_found).is_empty());
}

#[test]
fn combined_detection_dedups_and_sorts_by_name() {
    let chrome = build_detected_browser("C:\\A\\chrome.exe", Some("Google Chrome"), None);
    let chrome_again = build_detected_browser("c:/a/CHROME.exe", Some("Google Chrome"), None);
    let brave = build_detected_browser("C:\\B\\brave.exe", Some("Brave"), None);
    let combined = combine_detected_browsers(vec![chrome.clone()], vec![chrome_again.clone(), brave]);
    let names: Vec<&str> = combined.iter().map(|b| b.name.as_str()).collect();
    assert_eq!(names, vec!["Brave", "Google Chrome"]);
    assert_eq!(combined[1].path, chrome.path);

    let known_first = combine_detected_browsers(vec![chrome_again.clone()], vec![chrome.clone()]);
    assert_eq!(known_first.len(), 1);
    assert_eq!(known_first[0].path, chrome_again.path);
    assert_eq!(chrome.id, build_detected_browser("c:/a/CHROME.exe", None, None).id);
}

#[test]
fn running_ids_skip_hidden_browsers() {
    let mut config = default_config();
    let make = |id: &str, hidden: bool| BrowserConfig {
        id: id.to_string(),
        name: id.to_string(),
        path: format!("C:\\{id}\\{id}.exe"),
        private_flag: None,
        icon_key: None,
        manual_trust: None,
        source: BrowserSource::Manual,
        is_hidden: hidden,
    };
    config.browsers.push(make("a", false));
    config.browsers.push(make("b", true));
    config.browsers.push(make("c", false));
    let running = vec!["c:\\a\\a.exe".to_string(), "c:\\b\\b.exe".to_string()];
    assert_eq!(running_browser_ids(&config, &running), vec!["a".to_string()]);
}

#[test]
fn file_stem_skips_trailing_dot_components() {
    use_stem("C:\\x\\chrome.exe\\.", Some("chrome"));
    use_stem("C:\\x\\chrome.exe\\.\\.\\", Some("chrome"));
    use_stem("C:\\.", None);
    use_stem(".\\.", None);
    use_stem("C:.", None);
    use_stem("C:\\x\\..", None);
    use_stem("C:\\Tools\\firefox.exe", Some("firefox"));
    use_stem("C:\\Tools\\.hidden", Some(".hidden"));
}

fn use_stem(path: &str, expected: Option<&str>) {
    assert_eq!(hops::browsers::executable_name_from_path(path).as_deref(), expected, "{path}");
}

#[test]
fn normalized_ascii_paths_settle() {
    let once = hops::browsers::normalize_path("C:/Program Files/Google/Chrome.EXE");
    assert_eq!(once, "c:\\program files\\google\\chrome.exe");
    assert_eq!(hops::browsers::normalize_path(&once), once);
}
