use peekaboo::cli::{
    AppsCommand, CaptureMode, Commands, ImageCommand, ListCommand, ListCommands, ListSubcommand,
    PeekabooCommand, WindowsCommand,
};
use peekaboo::errors::PeekabooError;
use peekaboo::json_output::{ErrorInfo, JsonOutputMode, Logger};
use peekaboo::models::{ImageFormat, SavedFile, WindowDetailOption};

#[test]
fn determine_mode_prefers_the_explicit_mode() {
    let mut cmd = ImageCommand::default();
    assert_eq!(cmd.determine_mode(), CaptureMode::Screen);

    cmd.app = Some("firefox".to_string());
    assert_eq!(cmd.determine_mode(), CaptureMode::Window);

    cmd.mode = Some(CaptureMode::Multi);
    assert_eq!(cmd.determine_mode(), CaptureMode::Multi);
}

#[test]
fn json_output_follows_the_selected_branch() {
    let cmd = PeekabooCommand { command: None };
    assert!(!cmd.is_json_output());

    let cmd = PeekabooCommand {
        command: Some(Commands::List(ListCommands::Apps(AppsCommand { json_output: true }))),
    };
    assert!(cmd.is_json_output());

    let mut image = ImageCommand::default();
    image.json_output = true;
    let cmd = PeekabooCommand { command: Some(Commands::Image(image)) };
    assert!(cmd.is_json_output());

    let list = ListCommand {
        subcommand: ListSubcommand::Windows(WindowsCommand {
            app: "firefox".to_string(),
            include_details: None,
            json_output: false,
        }),
    };
    assert!(!list.is_json_output());
}

#[test]
fn windows_command_parses_details_keeping_repetitions() {
    let cmd = WindowsCommand {
        app: "firefox".to_string(),
        include_details: Some("bounds, ids ,bounds,nonsense".to_string()),
        json_output: false,
    };
    assert_eq!(
        cmd.parse_include_details(),
        vec![
            WindowDetailOption::Bounds,
            WindowDetailOption::Ids,
            WindowDetailOption::Bounds
        ]
    );

    let cmd = WindowsCommand {
        app: "firefox".to_string(),
        include_details: None,
        json_output: false,
    };
    assert!(cmd.parse_include_details().is_empty());
}

#[test]
fn image_formats_carry_their_mime_types() {
    assert_eq!(ImageFormat::Png.mime_type(), "image/png");
    assert_eq!(ImageFormat::Jpg.mime_type(), "image/jpeg");

    let file = SavedFile::new(
        "/tmp/shot.jpg".to_string(),
        Some("Display 1".to_string()),
        None,
        None,
        None,
        &ImageFormat::Jpg,
    );
    assert_eq!(file.path, "/tmp/shot.jpg");
    assert_eq!(file.mime_type, "image/jpeg");
    assert_eq!(file.item_label.as_deref(), Some("Display 1"));
}

#[test]
fn capture_paths_are_deterministic() {
    let mut cmd = ImageCommand::default();
    assert_eq!(
        cmd.generate_screen_output_path(0, "20240101_120000"),
        "screenshot_display_0_20240101_120000.png"
    );

    cmd.path = Some("/tmp".to_string());
    cmd.format = ImageFormat::Jpg;
    assert_eq!(
        cmd.generate_screen_output_path(2, "ts"),
        "/tmp/screenshot_display_2_ts.jpg"
    );
    assert_eq!(
        cmd.generate_window_output_path("My App?", "Main*Win", "ts"),
        "/tmp/My App__Main_Win_window_ts.jpg"
    );
    assert_eq!(
        cmd.generate_window_output_path_with_index("App", 3, "T", "ts", "abcd1234"),
        "/tmp/App_window_3_T_ts_abcd1234.jpg"
    );
}

#[test]
fn json_output_mode_toggles() {
    let mut mode = JsonOutputMode::new();
    assert!(!mode.is_enabled());
    mode.set_global(true);
    assert!(mode.is_enabled());
    mode.set_global(false);
    assert!(!mode.is_enabled());
}

#[test]
fn error_info_carries_message_and_code() {
    let error = PeekabooError::AppNotFound { identifier: "TestApp".to_string() };
    let info = ErrorInfo::from_error(&error);
    assert_eq!(info.code, "APP_NOT_FOUND");
    assert!(info.message.contains("TestApp"));
    assert!(info.details.is_none());
}

#[test]
fn report_logger_collects_only_debug_lines() {
    let mut logger = Logger::new();
    logger.init(true);
    logger.debug("first");
    logger.info("ignored");
    logger.warn("ignored");
    logger.error("ignored");
    logger.debug("second");
    assert_eq!(logger.get_debug_logs(), vec!["first".to_string(), "second".to_string()]);

    logger.clear_debug_logs();
    assert!(logger.get_debug_logs().is_empty());
}
