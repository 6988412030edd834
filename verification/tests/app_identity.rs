use rudbman_app::app_identity::{must_defer, payload, AppIdentity, Platform, RELEASES_PAGE};

fn platforms() -> Vec<Platform> {
    vec![Platform::Windows, Platform::MacOs, Platform::Linux]
}

#[test]
fn the_uninstall_key_is_the_one_the_installer_writes() {
    // Inno Setup names its uninstall key by appending `_is1` to `AppId`.
    let script = "[Setup]\nAppId={{E09022E1-1203-4A82-A00E-6385C2594DEF}\nAppName=RuDBMan\n";
    // The doubled brace is Inno's escape for a literal one, so what follows it is
    // the GUID with its own closing brace still attached.
    let app_id = script
        .lines()
        .find_map(|line| line.trim().strip_prefix("AppId={{"))
        .expect("an AppId in the script");
    for platform in platforms() {
        let identity = AppIdentity::of(platform, "1.2.3");
        assert!(
            identity.windows_arp_key.ends_with(&format!("{{{app_id}_is1")),
            "{} is not the key Inno derives from AppId={{{app_id}",
            identity.windows_arp_key
        );
    }
}

#[test]
fn the_payload_names_the_executable_first() {
    for platform in platforms() {
        let identity = AppIdentity::of(platform, "1.2.3");
        let first = identity.payload.first().expect("a payload");
        assert!(
            first.starts_with("rudbman"),
            "the payload leads with {first}, not the executable"
        );
        assert_eq!(identity.payload, payload(platform));
    }
}

#[test]
fn an_identity_carries_its_version_and_its_pages() {
    let identity = AppIdentity::of(Platform::Linux, "0.9.1");
    assert_eq!(identity.version, "0.9.1");
    assert_eq!(identity.releases_page, RELEASES_PAGE);
    assert_eq!(RELEASES_PAGE, "https://github.com/xcomart/rudbman/releases");
}

#[test]
fn only_windows_waits_for_a_loaded_virtual_machine() {
    assert!(must_defer(Platform::Windows, true));
    assert!(!must_defer(Platform::Windows, false));
    assert!(!must_defer(Platform::Linux, true));
    assert!(!must_defer(Platform::MacOs, true));
}
