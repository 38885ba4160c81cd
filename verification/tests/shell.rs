use colink::service::{
    absolute_url, check_update_download_url, detect_device_name_from, detect_device_type,
};
use colink::shell::{desktop_entry_exec_value, linux_autostart_entry};

#[test]
fn appends_debug_suffix_in_debug_builds() {
    let name = detect_device_name_from(Some("CoLink"), true);
    assert_eq!(name, "CoLinkDebug");
}

#[test]
fn falls_back_to_default_name_and_applies_suffix() {
    let name = detect_device_name_from(None, true);
    assert_eq!(name, "CoLink DesktopDebug");
}

#[test]
fn creates_a_desktop_entry_for_an_executable_path_with_spaces() {
    let entry = linux_autostart_entry("/opt/CoLink Desktop/colink-desktop");

    assert!(entry.contains("Type=Application\n"));
    assert!(entry.contains("Exec=\"/opt/CoLink Desktop/colink-desktop\"\n"));
    assert!(entry.contains("X-GNOME-Autostart-enabled=true\n"));
}

#[test]
fn trims_host_names_and_ignores_blank_ones() {
    assert_eq!(detect_device_name_from(Some("  host \n"), false), "host");
    assert_eq!(detect_device_name_from(Some("   "), false), "CoLink Desktop");
}

#[test]
fn escapes_exec_values_only_when_needed() {
    assert_eq!(desktop_entry_exec_value("/usr/bin/colink"), "/usr/bin/colink");
    assert_eq!(desktop_entry_exec_value("/a\\b \"c\" 100%"), "\"/a\\\\b \\\"c\\\" 100%%\"");
}

#[test]
fn reports_known_device_types() {
    assert_eq!(detect_device_type("linux"), "linux");
    assert_eq!(detect_device_type("freebsd"), "windows");
}

#[test]
fn update_downloads_resolve_and_accept_only_web_schemes() {
    assert_eq!(
        absolute_url("https://colink.example/", "/files/app.exe").unwrap(),
        "https://colink.example/files/app.exe"
    );
    assert_eq!(
        absolute_url("https://colink.example/", "https://cdn.example/app.exe").unwrap(),
        "https://cdn.example/app.exe"
    );
    assert!(check_update_download_url("https://cdn.example/app.exe").is_ok());
    assert!(check_update_download_url("HTTP://cdn.example/app.exe").is_ok());
    assert_eq!(
        check_update_download_url("file:///etc/passwd").unwrap_err().message,
        "unsupported update download url"
    );
    assert!(check_update_download_url("not a url").is_err());
}
