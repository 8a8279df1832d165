use hops::registration::{browser_registration_status, open_command, registration_plan, unregistration_keys};

#[test]
fn registration_status_reads_hops_prog_id_case_insensitively() {
    let status = browser_registration_status(
        Some("Software\\Hops\\Capabilities".to_string()),
        Some("hopsurl".to_string()),
        Some("ChromeHTML".to_string()),
    );
    assert!(status.registered);
    assert!(status.is_default_http);
    assert!(!status.is_default_https);
    assert!(!status.is_fully_default);
    assert_eq!(status.current_https_prog_id.as_deref(), Some("ChromeHTML"));

    let none = browser_registration_status(None, Some("HopsURL".to_string()), Some("HOPSURL".to_string()));
    assert!(!none.registered);
    assert!(none.is_fully_default);
}

#[test]
fn registration_plan_points_everything_at_the_executable() {
    assert_eq!(open_command("C:\\Hops\\hops.exe"), "\"C:\\Hops\\hops.exe\" --url \"%1\"");
    let plan = registration_plan("C:\\Hops\\hops.exe");
    assert_eq!(plan.len(), 11);
    assert_eq!(plan[1].values[0].data, "\"C:\\Hops\\hops.exe\",0");
    assert_eq!(plan[2].values[0].data, "\"C:\\Hops\\hops.exe\" --url \"%1\"");
    assert_eq!(plan[10].path, "Software\\RegisteredApplications");
    assert_eq!(plan[10].values[0].name, "Hops");
    let status = browser_registration_status(Some(plan[10].values[0].data.clone()), None, None);
    assert!(status.registered);
    assert_eq!(unregistration_keys().len(), 4);
}

#[test]
fn unregistration_removes_every_registered_key() {
    let keys = unregistration_keys();
    for key_write in registration_plan("C:\\Hops\\hops.exe") {
        let path = key_write.path;
        let covered = path == "Software\\RegisteredApplications"
            || keys.iter().any(|key| path == *key || path.starts_with(&format!("{key}\\")));
        assert!(covered, "{path} is not removed");
    }
}
