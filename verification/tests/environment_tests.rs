use peekaboo::environment::{
    DesktopEnvironment, DisplayServer, Environment, EnvironmentInfo, ScreenshotMethod,
    WindowManagerMethod,
};

fn info(server: DisplayServer, desktop: DesktopEnvironment) -> EnvironmentInfo {
    EnvironmentInfo {
        display_server: server,
        desktop_environment: desktop,
        session_type: None,
        display_name: None,
        wayland_display: None,
        is_sandboxed: false,
        user_id: 1000,
        runtime_dir: None,
    }
}

#[test]
fn test_display_server_detection() {
    let display_server = Environment::detect_display_server(false, true, &None);

    // Should detect something, even if unknown
    assert!(matches!(
        display_server,
        DisplayServer::X11 | DisplayServer::Wayland | DisplayServer::Unknown
    ));
}

#[test]
fn test_desktop_environment_detection() {
    let desktop = Environment::detect_desktop_environment(&None, false, false, &None, false, false);

    // Should detect something, even if unknown
    assert!(matches!(desktop, DesktopEnvironment::Unknown));
}

#[test]
fn test_screenshot_method_selection() {
    let env_info = info(DisplayServer::X11, DesktopEnvironment::Unknown);
    let method = Environment::get_screenshot_method(&env_info);

    // Should return a valid method
    assert!(matches!(
        method,
        ScreenshotMethod::X11
            | ScreenshotMethod::GnomeScreenshot
            | ScreenshotMethod::Spectacle
            | ScreenshotMethod::Grim
            | ScreenshotMethod::WaylandGeneric
            | ScreenshotMethod::Generic
    ));
}

#[test]
fn test_window_manager_method_selection() {
    let env_info = info(DisplayServer::Wayland, DesktopEnvironment::Sway);
    let method = Environment::get_window_manager_method(&env_info);

    // Should return a valid method
    assert!(matches!(
        method,
        WindowManagerMethod::X11
            | WindowManagerMethod::SwayIPC
            | WindowManagerMethod::GnomeShell
            | WindowManagerMethod::WaylandGeneric
            | WindowManagerMethod::Generic
    ));
}

#[test]
fn display_server_falls_back_to_session_type() {
    assert_eq!(
        Environment::detect_display_server(true, false, &None),
        DisplayServer::Wayland
    );
    assert_eq!(
        Environment::detect_display_server(false, true, &None),
        DisplayServer::X11
    );
    assert_eq!(
        Environment::detect_display_server(false, false, &Some("WAYLAND".to_string())),
        DisplayServer::Wayland
    );
    assert_eq!(
        Environment::detect_display_server(false, false, &Some("X11".to_string())),
        DisplayServer::X11
    );
    assert_eq!(
        Environment::detect_display_server(false, false, &Some("tty".to_string())),
        DisplayServer::Unknown
    );
    assert_eq!(
        Environment::detect_display_server(false, false, &None),
        DisplayServer::Unknown
    );
}

#[test]
fn desktop_environment_reads_the_current_desktop() {
    let de = |name: &str| {
        Environment::detect_desktop_environment(
            &Some(name.to_string()),
            false,
            false,
            &None,
            false,
            false,
        )
    };
    assert_eq!(de("ubuntu:GNOME"), DesktopEnvironment::Gnome);
    assert_eq!(de("KDE"), DesktopEnvironment::Kde);
    assert_eq!(de("Plasma"), DesktopEnvironment::Kde);
    assert_eq!(de("XFCE"), DesktopEnvironment::Xfce);
    assert_eq!(de("i3"), DesktopEnvironment::I3);
    assert_eq!(de("sway"), DesktopEnvironment::Sway);
    assert_eq!(de("Unity"), DesktopEnvironment::Unity);
    assert_eq!(de("MATE"), DesktopEnvironment::Mate);
    assert_eq!(de("X-Cinnamon"), DesktopEnvironment::Cinnamon);
    assert_eq!(de("LXDE"), DesktopEnvironment::Lxde);
    assert_eq!(de("LXQt"), DesktopEnvironment::Lxqt);
    assert_eq!(de("weird"), DesktopEnvironment::Unknown);
}

#[test]
fn desktop_environment_fallbacks_fire_in_order() {
    assert_eq!(
        Environment::detect_desktop_environment(&None, true, true, &None, true, true),
        DesktopEnvironment::Gnome
    );
    assert_eq!(
        Environment::detect_desktop_environment(&None, false, true, &None, true, true),
        DesktopEnvironment::Kde
    );
    assert_eq!(
        Environment::detect_desktop_environment(
            &None,
            false,
            false,
            &Some("xfce-session".to_string()),
            true,
            true
        ),
        DesktopEnvironment::Xfce
    );
    assert_eq!(
        Environment::detect_desktop_environment(&None, false, false, &None, true, true),
        DesktopEnvironment::I3
    );
    assert_eq!(
        Environment::detect_desktop_environment(&None, false, false, &None, false, true),
        DesktopEnvironment::Sway
    );
}

#[test]
fn wayland_desktops_pick_their_capture_tools() {
    let shot = |d| Environment::get_screenshot_method(&info(DisplayServer::Wayland, d));
    assert_eq!(shot(DesktopEnvironment::Gnome), ScreenshotMethod::GnomeScreenshot);
    assert_eq!(shot(DesktopEnvironment::Kde), ScreenshotMethod::Spectacle);
    assert_eq!(shot(DesktopEnvironment::Sway), ScreenshotMethod::Grim);
    assert_eq!(shot(DesktopEnvironment::Xfce), ScreenshotMethod::WaylandGeneric);
    assert_eq!(
        Environment::get_screenshot_method(&info(
            DisplayServer::Unknown,
            DesktopEnvironment::Gnome
        )),
        ScreenshotMethod::Generic
    );

    let wm = |d| Environment::get_window_manager_method(&info(DisplayServer::Wayland, d));
    assert_eq!(wm(DesktopEnvironment::Sway), WindowManagerMethod::SwayIPC);
    assert_eq!(wm(DesktopEnvironment::Gnome), WindowManagerMethod::GnomeShell);
    assert_eq!(wm(DesktopEnvironment::Kde), WindowManagerMethod::WaylandGeneric);
}

#[test]
fn sandbox_markers_are_disjunctive() {
    assert!(!Environment::is_sandboxed(false, false, false, false, false));
    assert!(Environment::is_sandboxed(true, false, false, false, false));
    assert!(Environment::is_sandboxed(false, false, false, false, true));
}
