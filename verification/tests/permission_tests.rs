use peekaboo::errors::PeekabooError;
use peekaboo::permissions::{PermissionProbe, PermissionsChecker};

fn probe() -> PermissionProbe {
    PermissionProbe {
        x11_display: true,
        wayland_display: false,
        xdpyinfo: Some(true),
        xlsclients: None,
        xwininfo: None,
        wayland_socket: false,
        can_read_proc: true,
        flatpak: false,
        snap: false,
        appimage: false,
        dockerenv: false,
    }
}

#[test]
fn test_permission_checker_creation() {
    // Just test that we can ask the checker without panicking
    let (screen, accessibility) = PermissionsChecker::get_permission_status(&probe());

    // In a test environment, these might be false, which is expected
    println!("Screen recording permission: {}", screen);
    println!("Accessibility permission: {}", accessibility);
}

#[test]
fn test_sandboxed_detection() {
    let is_sandboxed = PermissionsChecker::is_sandboxed_environment(&probe());
    println!("Is sandboxed: {}", is_sandboxed);

    // A probe without any sandbox marker is not sandboxed
    assert!(!is_sandboxed);
}

#[test]
fn test_environment_info() {
    let info = PermissionsChecker::get_environment_info(
        &Some(":0".to_string()),
        &None,
        &Some("GNOME".to_string()),
        &Some("x11".to_string()),
        false,
    );
    println!("Environment info: {}", info);

    // Should return some information, even if minimal
    assert!(!info.is_empty());
}

#[test]
fn environment_info_joins_known_facts() {
    let info = PermissionsChecker::get_environment_info(
        &Some(":0".to_string()),
        &None,
        &Some("GNOME".to_string()),
        &None,
        true,
    );
    assert_eq!(info, "X11 Display: :0, Desktop: GNOME, Sandboxed: Yes");

    let info = PermissionsChecker::get_environment_info(&None, &None, &None, &None, false);
    assert_eq!(info, "Unknown environment");
}

#[test]
fn x11_tools_decide_in_order() {
    let mut p = probe();
    assert!(PermissionsChecker::check_screen_recording_permission(&p));

    p.xdpyinfo = Some(false);
    assert!(!PermissionsChecker::check_screen_recording_permission(&p));

    // Without xdpyinfo the fallbacks decide.
    p.xdpyinfo = None;
    p.xlsclients = Some(true);
    assert!(PermissionsChecker::check_screen_recording_permission(&p));

    p.xlsclients = None;
    p.xwininfo = Some(false);
    assert!(!PermissionsChecker::check_screen_recording_permission(&p));

    // With no X11 tool at all, access is assumed.
    p.xwininfo = None;
    assert!(PermissionsChecker::check_screen_recording_permission(&p));
}

#[test]
fn wayland_needs_its_socket() {
    let mut p = probe();
    p.x11_display = false;
    p.wayland_display = true;
    p.wayland_socket = false;
    assert!(!PermissionsChecker::check_screen_recording_permission(&p));

    p.wayland_socket = true;
    assert!(PermissionsChecker::check_screen_recording_permission(&p));
}

#[test]
fn headless_hosts_grant_nothing() {
    let mut p = probe();
    p.x11_display = false;
    p.wayland_display = false;
    assert!(!PermissionsChecker::check_screen_recording_permission(&p));
}

#[test]
fn sandboxes_block_window_management() {
    let mut p = probe();
    assert!(PermissionsChecker::check_accessibility_permission(&p));

    p.snap = true;
    assert!(!PermissionsChecker::check_accessibility_permission(&p));

    p.snap = false;
    p.can_read_proc = false;
    assert!(!PermissionsChecker::check_accessibility_permission(&p));
}

#[test]
fn requirements_map_to_their_errors() {
    let mut p = probe();
    assert!(PermissionsChecker::require_screen_recording_permission(&p).is_ok());
    assert!(PermissionsChecker::require_accessibility_permission(&p).is_ok());
    assert!(PermissionsChecker::require_basic_permissions(&p).is_ok());

    p.xdpyinfo = Some(false);
    assert!(matches!(
        PermissionsChecker::require_screen_recording_permission(&p),
        Err(PeekabooError::ScreenRecordingPermissionDenied)
    ));

    p.flatpak = true;
    assert!(matches!(
        PermissionsChecker::require_accessibility_permission(&p),
        Err(PeekabooError::AccessibilityPermissionDenied)
    ));

    p.can_read_proc = false;
    assert!(matches!(
        PermissionsChecker::require_basic_permissions(&p),
        Err(PeekabooError::ScreenRecordingPermissionDenied)
    ));
}
