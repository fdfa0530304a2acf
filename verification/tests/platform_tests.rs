use peekaboo::platform::{
    parse_wmctrl_windows, parse_xrandr_screens, parse_xwininfo_bounds, LinuxApplicationFinder,
    LinuxPermissionChecker, LinuxScreenCapture, LinuxWindowManager, ScreenInfo,
};
use peekaboo::environment::DisplayServer;
use peekaboo::models::ApplicationInfo;

#[test]
fn wmctrl_lines_for_the_pid_become_windows() {
    let listing = "0x03a00003  0 1234   host Mozilla Firefox\n\
                   0x04c00007  0 5678   host Terminal\n\
                   0x03a00009  0 1234   host Downloads  and   more\n";
    let windows = parse_wmctrl_windows(listing, 1234);
    assert_eq!(windows.len(), 2);
    assert_eq!(windows[0].window_id, 0x03a00003);
    assert_eq!(windows[0].title, "Mozilla Firefox");
    assert_eq!(windows[0].window_index, 0);
    assert_eq!(windows[1].window_id, 0x03a00009);
    // Runs of white space inside a title collapse to single spaces.
    assert_eq!(windows[1].title, "Downloads and more");
    assert_eq!(windows[1].window_index, 2);
}

#[test]
fn wmctrl_bad_ids_count_zero_and_short_lines_are_skipped() {
    let listing = "0xZZ 0 7 host Broken\nshort line\n0x10 0 7 host\n";
    let windows = parse_wmctrl_windows(listing, 7);
    assert_eq!(windows.len(), 2);
    assert_eq!(windows[0].window_id, 0);
    assert_eq!(windows[0].title, "Broken");
    // A line with exactly four fields has an empty title.
    assert_eq!(windows[1].window_id, 0x10);
    assert_eq!(windows[1].title, "");
    assert_eq!(windows[1].window_index, 2);
}

#[test]
fn xwininfo_geometry_is_read_field_by_field() {
    let report = "xwininfo: Window id: 0x3a00003 \"Firefox\"\n\
                  \n\
                  \x20 Absolute upper-left X:  64\n\
                  \x20 Absolute upper-left Y:  27\n\
                  \x20 Relative upper-left X:  0\n\
                  \x20 Width: 1280\n\
                  \x20 Height: 720\n";
    let bounds = parse_xwininfo_bounds(report);
    assert_eq!(bounds.x_coordinate, 64);
    assert_eq!(bounds.y_coordinate, 27);
    assert_eq!(bounds.width, 1280);
    assert_eq!(bounds.height, 720);
}

#[test]
fn xwininfo_defaults_survive_an_empty_report() {
    let bounds = parse_xwininfo_bounds("");
    assert_eq!(bounds.x_coordinate, 0);
    assert_eq!(bounds.y_coordinate, 0);
    assert_eq!(bounds.width, 800);
    assert_eq!(bounds.height, 600);
}

#[test]
fn xrandr_connected_outputs_become_screens() {
    let report = "Screen 0: minimum 320 x 200, current 3840 x 1080, maximum 16384 x 16384\n\
                  HDMI-1 connected 1920x1080+1920+0 (normal) 509mm x 286mm\n\
                  VGA-1 connected 1024x768+0+0 (normal) 310mm x 230mm\n\
                  DP-1 disconnected (normal)\n";
    let screens = parse_xrandr_screens(report);
    assert_eq!(screens.len(), 2);
    assert_eq!(
        screens[0],
        ScreenInfo { index: 0, width: 1920, height: 1080, is_primary: false }
    );
    assert_eq!(
        screens[1],
        ScreenInfo { index: 1, width: 1024, height: 768, is_primary: false }
    );
}

#[test]
fn xrandr_falls_back_to_one_default_screen() {
    let screens = parse_xrandr_screens("");
    assert_eq!(
        screens,
        vec![ScreenInfo { index: 0, width: 1920, height: 1080, is_primary: true }]
    );

    // The size field of a primary output is shifted one token to the right,
    // so such a line yields nothing and the default takes over.
    let screens =
        parse_xrandr_screens("eDP-1 connected primary 1920x1080+0+0 (normal) 344mm x 194mm\n");
    assert_eq!(
        screens,
        vec![ScreenInfo { index: 0, width: 1920, height: 1080, is_primary: true }]
    );
}

#[test]
fn test_generate_screen_filename() {
    let capture = peekaboo::screen_capture::ScreenCapture::new();
    let format = peekaboo::cli::ImageFormat::Png;

    // Test directory path
    let result = capture.generate_screen_filename("/tmp", Some(0), &format, "20240101_120000");
    assert!(result.starts_with("/tmp/screen_1_"));
    assert!(result.ends_with(".png"));

    // Test file path
    let result = capture.generate_screen_filename("/tmp/test.png", Some(1), &format, "ts");
    assert_eq!(result, "/tmp/test_2.png");
}

#[test]
fn screen_filenames_cover_the_corner_shapes() {
    let capture = peekaboo::screen_capture::ScreenCapture::new();
    let png = peekaboo::cli::ImageFormat::Png;
    let jpg = peekaboo::cli::ImageFormat::Jpg;

    // A file base without an index stays as it is.
    assert_eq!(
        capture.generate_screen_filename("/tmp/test.png", None, &png, "ts"),
        "/tmp/test.png"
    );
    // A directory base without an index gets only the timestamp.
    assert_eq!(
        capture.generate_screen_filename("/shots/", None, &jpg, "ts"),
        "/shots/screen_ts.jpg"
    );
    // A bare filename has an empty parent.
    assert_eq!(
        capture.generate_screen_filename("test.png", Some(0), &png, "ts"),
        "/test_1.png"
    );
    // A leading dot alone does not count as an extension.
    assert_eq!(
        capture.generate_screen_filename("/tmp/.hidden", Some(0), &png, "ts"),
        "/tmp/.hidden_1.png"
    );
}

#[test]
fn app_names_come_from_the_command_line() {
    let finder = LinuxApplicationFinder::new();
    assert_eq!(finder.extract_app_name("/usr/bin/firefox\u{0}--new-tab", "ff"), "firefox");
    assert_eq!(finder.extract_app_name("bash\u{0}-c\u{0}ls", "sh"), "bash");
    assert_eq!(finder.extract_app_name("", "fallback"), "fallback");
    assert_eq!(finder.extract_app_name("/usr/lib/\u{0}x", "fallback"), "fallback");
}

#[test]
fn listed_applications_answer_by_name_or_bundle() {
    let info = |name: &str, bundle: &str, pid: i32| ApplicationInfo {
        app_name: name.to_string(),
        bundle_id: bundle.to_string(),
        pid,
        is_active: false,
        window_count: 1,
    };
    let infos = vec![
        info("Editor", "linux.editor", 10),
        info("Firefox", "linux.firefox", 20),
    ];
    let finder = LinuxApplicationFinder::new();

    let found = finder.find_application("FIRE", &infos).expect("name holds the identifier");
    assert_eq!(found.pid, 20);

    let found = finder
        .find_application("linux.editor", &infos)
        .expect("bundle holds the identifier");
    assert_eq!(found.pid, 10);

    assert!(finder.find_application("nothing", &infos).is_err());
}

#[test]
fn platform_shells_construct() {
    let manager = LinuxWindowManager::new(DisplayServer::X11);
    assert_eq!(manager.display_server, DisplayServer::X11);
    let _finder = LinuxApplicationFinder::new();
    let _capture = LinuxScreenCapture::new();
    let _checker = LinuxPermissionChecker::new();
}
