//! The error taxonomy of the tool, with its user-facing message, stable
//! error code and process exit code for every variant.

use vstd::prelude::*;

verus! {

use vstd::string::StringExecFns;
use crate::strings::int_str;

/// The usual result type of the crate.
pub type PeekabooResult<T> = Result<T, PeekabooError>;

/// Everything that can go wrong, from capture to resolution.  Variants that
/// wrap a failure of the surrounding system carry its rendered text.
#[derive(Debug)]
pub enum PeekabooError {
    NoDisplaysAvailable,
    ScreenRecordingPermissionDenied,
    AccessibilityPermissionDenied,
    InvalidDisplayID,
    CaptureCreationFailed,
    WindowNotFound,
    WindowCaptureFailed,
    FileWriteError { path: String, details: String },
    AppNotFound { identifier: String },
    InvalidWindowIndex { index: i32 },
    InvalidArgument { message: String },
    UnknownError { message: String },
    NoWindowsFound { app_name: String },
    X11Error { message: String },
    WaylandError { message: String },
    EnvironmentError { message: String },
    IoError(String),
    ImageError(String),
    JsonError(String),
    SystemInfoError { message: String },
    SystemError { message: String },
    UnsupportedPlatform { platform: String },
}

impl PeekabooError {
    /// The process exit code each failure maps to.
    pub open spec fn exit_code_spec(&self) -> i32 {
        match self {
            Self::NoDisplaysAvailable => 10,
            Self::ScreenRecordingPermissionDenied => 11,
            Self::AccessibilityPermissionDenied => 12,
            Self::InvalidDisplayID => 13,
            Self::CaptureCreationFailed => 14,
            Self::WindowNotFound => 15,
            Self::WindowCaptureFailed => 16,
            Self::FileWriteError { .. } => 17,
            Self::AppNotFound { .. } => 18,
            Self::InvalidWindowIndex { .. } => 19,
            Self::InvalidArgument { .. } => 20,
            Self::NoWindowsFound { .. } => 7,
            Self::X11Error { .. } => 21,
            Self::WaylandError { .. } => 22,
            Self::EnvironmentError { .. } => 23,
            Self::IoError(_) => 24,
            Self::ImageError(_) => 25,
            Self::JsonError(_) => 26,
            Self::SystemInfoError { .. } => 27,
            Self::SystemError { .. } => 28,
            Self::UnsupportedPlatform { .. } => 29,
            Self::UnknownError { .. } => 1,
        }
    }

    /// The stable machine-readable code of each failure.
    pub open spec fn error_code_spec(&self) -> Seq<char> {
        match self {
            Self::NoDisplaysAvailable => "NO_DISPLAYS_AVAILABLE"@,
            Self::ScreenRecordingPermissionDenied => "PERMISSION_ERROR_SCREEN_RECORDING"@,
            Self::AccessibilityPermissionDenied => "PERMISSION_ERROR_ACCESSIBILITY"@,
            Self::InvalidDisplayID => "INVALID_DISPLAY_ID"@,
            Self::CaptureCreationFailed => "CAPTURE_CREATION_FAILED"@,
            Self::WindowNotFound => "WINDOW_NOT_FOUND"@,
            Self::WindowCaptureFailed => "WINDOW_CAPTURE_FAILED"@,
            Self::FileWriteError { .. } => "FILE_IO_ERROR"@,
            Self::AppNotFound { .. } => "APP_NOT_FOUND"@,
            Self::InvalidWindowIndex { .. } => "INVALID_WINDOW_INDEX"@,
            Self::InvalidArgument { .. } => "INVALID_ARGUMENT"@,
            Self::NoWindowsFound { .. } => "NO_WINDOWS_FOUND"@,
            Self::X11Error { .. } => "X11_ERROR"@,
            Self::WaylandError { .. } => "WAYLAND_ERROR"@,
            Self::EnvironmentError { .. } => "ENVIRONMENT_ERROR"@,
            Self::IoError(_) => "IO_ERROR"@,
            Self::ImageError(_) => "IMAGE_ERROR"@,
            Self::JsonError(_) => "JSON_ERROR"@,
            Self::SystemInfoError { .. } => "SYSTEM_INFO_ERROR"@,
            Self::SystemError { .. } => "SYSTEM_ERROR"@,
            Self::UnsupportedPlatform { .. } => "UNSUPPORTED_PLATFORM"@,
            Self::UnknownError { .. } => "UNKNOWN_ERROR"@,
        }
    }

    /// The user-facing message of each failure, with the carried values
    /// spliced in.
    pub open spec fn message_spec(&self) -> Seq<char> {
        match self {
            Self::NoDisplaysAvailable => "No displays available for capture"@,
            Self::ScreenRecordingPermissionDenied => "Screen recording permission is required. Please ensure your user has access to the display server and necessary permissions."@,
            Self::AccessibilityPermissionDenied => "Accessibility permission is required for some operations. Please ensure your user has necessary window management permissions."@,
            Self::InvalidDisplayID => "Invalid display ID provided"@,
            Self::CaptureCreationFailed => "Failed to create the screen capture"@,
            Self::WindowNotFound => "The specified window could not be found"@,
            Self::WindowCaptureFailed => "Failed to capture the specified window"@,
            Self::FileWriteError { path, details } => "Failed to write capture file to path: "@
                + path@ + ". "@ + details@,
            Self::AppNotFound { identifier } => "Application with identifier '"@ + identifier@
                + "' not found or is not running"@,
            Self::InvalidWindowIndex { index } => "Invalid window index: "@ + int_str(
                *index as int,
            ),
            Self::InvalidArgument { message } => "Invalid argument: "@ + message@,
            Self::UnknownError { message } => "An unexpected error occurred: "@ + message@,
            Self::NoWindowsFound { app_name } => "The '"@ + app_name@
                + "' process is running, but no capturable windows were found"@,
            Self::X11Error { message } => "X11 error: "@ + message@,
            Self::WaylandError { message } => "Wayland error: "@ + message@,
            Self::EnvironmentError { message } => "Environment error: "@ + message@,
            Self::IoError(text) => "IO error: "@ + text@,
            Self::ImageError(text) => "Image processing error: "@ + text@,
            Self::JsonError(text) => "JSON serialization error: "@ + text@,
            Self::SystemInfoError { message } => "System information error: "@ + message@,
            Self::SystemError { message } => "System error: "@ + message@,
            Self::UnsupportedPlatform { platform } => "Platform '"@ + platform@
                + "' is not supported"@,
        }
    }

    /// The process exit code of this failure.
    pub fn exit_code(&self) -> (r: i32)
        ensures
            r == self.exit_code_spec(),
    {
        match self {
            Self::NoDisplaysAvailable => 10,
            Self::ScreenRecordingPermissionDenied => 11,
            Self::AccessibilityPermissionDenied => 12,
            Self::InvalidDisplayID => 13,
            Self::CaptureCreationFailed => 14,
            Self::WindowNotFound => 15,
            Self::WindowCaptureFailed => 16,
            Self::FileWriteError { .. } => 17,
            Self::AppNotFound { .. } => 18,
            Self::InvalidWindowIndex { .. } => 19,
            Self::InvalidArgument { .. } => 20,
            Self::NoWindowsFound { .. } => 7,
            Self::X11Error { .. } => 21,
            Self::WaylandError { .. } => 22,
            Self::EnvironmentError { .. } => 23,
            Self::IoError(_) => 24,
            Self::ImageError(_) => 25,
            Self::JsonError(_) => 26,
            Self::SystemInfoError { .. } => 27,
            Self::SystemError { .. } => 28,
            Self::UnsupportedPlatform { .. } => 29,
            Self::UnknownError { .. } => 1,
        }
    }

    /// The stable machine-readable code of this failure.
    pub fn error_code(&self) -> (r: &'static str)
        ensures
            r@ == self.error_code_spec(),
    {
        match self {
            Self::NoDisplaysAvailable => "NO_DISPLAYS_AVAILABLE",
            Self::ScreenRecordingPermissionDenied => "PERMISSION_ERROR_SCREEN_RECORDING",
            Self::AccessibilityPermissionDenied => "PERMISSION_ERROR_ACCESSIBILITY",
            Self::InvalidDisplayID => "INVALID_DISPLAY_ID",
            Self::CaptureCreationFailed => "CAPTURE_CREATION_FAILED",
            Self::WindowNotFound => "WINDOW_NOT_FOUND",
            Self::WindowCaptureFailed => "WINDOW_CAPTURE_FAILED",
            Self::FileWriteError { .. } => "FILE_IO_ERROR",
            Self::AppNotFound { .. } => "APP_NOT_FOUND",
            Self::InvalidWindowIndex { .. } => "INVALID_WINDOW_INDEX",
            Self::InvalidArgument { .. } => "INVALID_ARGUMENT",
            Self::NoWindowsFound { .. } => "NO_WINDOWS_FOUND",
            Self::X11Error { .. } => "X11_ERROR",
            Self::WaylandError { .. } => "WAYLAND_ERROR",
            Self::EnvironmentError { .. } => "ENVIRONMENT_ERROR",
            Self::IoError(_) => "IO_ERROR",
            Self::ImageError(_) => "IMAGE_ERROR",
            Self::JsonError(_) => "JSON_ERROR",
            Self::SystemInfoError { .. } => "SYSTEM_INFO_ERROR",
            Self::SystemError { .. } => "SYSTEM_ERROR",
            Self::UnsupportedPlatform { .. } => "UNSUPPORTED_PLATFORM",
            Self::UnknownError { .. } => "UNKNOWN_ERROR",
        }
    }

    /// The user-facing message of this failure.
    pub fn message(&self) -> (r: String)
        ensures
            r@ == self.message_spec(),
    {
        match self {
            Self::NoDisplaysAvailable => String::from_str("No displays available for capture"),
            Self::ScreenRecordingPermissionDenied => String::from_str(
                "Screen recording permission is required. Please ensure your user has access to the display server and necessary permissions.",
            ),
            Self::AccessibilityPermissionDenied => String::from_str(
                "Accessibility permission is required for some operations. Please ensure your user has necessary window management permissions.",
            ),
            Self::InvalidDisplayID => String::from_str("Invalid display ID provided"),
            Self::CaptureCreationFailed => String::from_str("Failed to create the screen capture"),
            Self::WindowNotFound => String::from_str("The specified window could not be found"),
            Self::WindowCaptureFailed => String::from_str("Failed to capture the specified window"),
            Self::FileWriteError { path, details } => {
                let mut s = String::from_str("Failed to write capture file to path: ");
                s.append(path.as_str());
                s.append(". ");
                s.append(details.as_str());
                proof {
                    assert(s@ =~= self.message_spec());
                }
                s
            },
            Self::AppNotFound { identifier } => {
                let mut s = String::from_str("Application with identifier '");
                s.append(identifier.as_str());
                s.append("' not found or is not running");
                proof {
                    assert(s@ =~= self.message_spec());
                }
                s
            },
            Self::InvalidWindowIndex { index } => {
                let mut s = String::from_str("Invalid window index: ");
                let rendered = crate::strings::i32_to_string(*index);
                s.append(rendered.as_str());
                proof {
                    assert(s@ =~= self.message_spec());
                }
                s
            },
            Self::InvalidArgument { message } => {
                let mut s = String::from_str("Invalid argument: ");
                s.append(message.as_str());
                proof {
                    assert(s@ =~= self.message_spec());
                }
                s
            },
            Self::UnknownError { message } => {
                let mut s = String::from_str("An unexpected error occurred: ");
                s.append(message.as_str());
                proof {
                    assert(s@ =~= self.message_spec());
                }
                s
            },
            Self::NoWindowsFound { app_name } => {
                let mut s = String::from_str("The '");
                s.append(app_name.as_str());
                s.append("' process is running, but no capturable windows were found");
                proof {
                    assert(s@ =~= self.message_spec());
                }
                s
            },
            Self::X11Error { message } => {
                let mut s = String::from_str("X11 error: ");
                s.append(message.as_str());
                proof {
                    assert(s@ =~= self.message_spec());
                }
                s
            },
            Self::WaylandError { message } => {
                let mut s = String::from_str("Wayland error: ");
                s.append(message.as_str());
                proof {
                    assert(s@ =~= self.message_spec());
                }
                s
            },
            Self::EnvironmentError { message } => {
                let mut s = String::from_str("Environment error: ");
                s.append(message.as_str());
                proof {
                    assert(s@ =~= self.message_spec());
                }
                s
            },
            Self::IoError(text) => {
                let mut s = String::from_str("IO error: ");
                s.append(text.as_str());
                proof {
                    assert(s@ =~= self.message_spec());
                }
                s
            },
            Self::ImageError(text) => {
                let mut s = String::from_str("Image processing error: ");
                s.append(text.as_str());
                proof {
                    assert(s@ =~= self.message_spec());
                }
                s
            },
            Self::JsonError(text) => {
                let mut s = String::from_str("JSON serialization error: ");
                s.append(text.as_str());
                proof {
                    assert(s@ =~= self.message_spec());
                }
                s
            },
            Self::SystemInfoError { message } => {
                let mut s = String::from_str("System information error: ");
                s.append(message.as_str());
                proof {
                    assert(s@ =~= self.message_spec());
                }
                s
            },
            Self::SystemError { message } => {
                let mut s = String::from_str("System error: ");
                s.append(message.as_str());
                proof {
                    assert(s@ =~= self.message_spec());
                }
                s
            },
            Self::UnsupportedPlatform { platform } => {
                let mut s = String::from_str("Platform '");
                s.append(platform.as_str());
                s.append("' is not supported");
                proof {
                    assert(s@ =~= self.message_spec());
                }
                s
            },
        }
    }

    /// What a write failure's detail line says, judged from the rendered
    /// text of the underlying failure: well-known causes get a helpful
    /// sentence, anything else is quoted, and with no underlying text a
    /// generic hint stands.
    pub open spec fn file_write_details_spec(underlying: Option<Seq<char>>) -> Seq<char> {
        match underlying {
            Some(text) => {
                let low = crate::strings::lower_of(text);
                if crate::strings::seq_contains(low, "permission"@) {
                    "Permission denied - check that the directory is writable and the application has necessary permissions."@
                } else if crate::strings::seq_contains(low, "no such file"@) {
                    "Directory does not exist - ensure the parent directory exists."@
                } else if crate::strings::seq_contains(low, "no space"@) {
                    "Insufficient disk space available."@
                } else {
                    text
                }
            },
            None => "This may be due to insufficient permissions, missing directory, or disk space issues."@,
        }
    }

    /// A write failure for this path, with its detail line judged from the
    /// underlying failure's rendered text.
    pub fn file_write_error(path: String, underlying_error: Option<&String>) -> (r: Self)
        ensures
            (r matches PeekabooError::FileWriteError { path: p, details } && p == path
                && details@ == PeekabooError::file_write_details_spec(
                match underlying_error {
                    Some(e) => Some(e@),
                    None => None,
                },
            )),
    {
        let details: String = match underlying_error {
            Some(text) => {
                let low_string = crate::strings::lowercase(text.as_str());
                let low = crate::strings::str_chars(low_string.as_str());
                let permission = crate::strings::str_chars("permission");
                let no_such_file = crate::strings::str_chars("no such file");
                let no_space = crate::strings::str_chars("no space");
                if crate::strings::chars_contains(&low, &permission) {
                    String::from_str(
                        "Permission denied - check that the directory is writable and the application has necessary permissions.",
                    )
                } else if crate::strings::chars_contains(&low, &no_such_file) {
                    String::from_str(
                        "Directory does not exist - ensure the parent directory exists.",
                    )
                } else if crate::strings::chars_contains(&low, &no_space) {
                    String::from_str("Insufficient disk space available.")
                } else {
                    text.clone()
                }
            },
            None => String::from_str(
                "This may be due to insufficient permissions, missing directory, or disk space issues.",
            ),
        };
        Self::FileWriteError { path, details }
    }

    /// An application-not-found failure for this identifier.
    pub fn app_not_found(identifier: String) -> (r: Self)
        ensures
            r == (PeekabooError::AppNotFound { identifier }),
    {
        Self::AppNotFound { identifier }
    }

    /// An out-of-range window index failure.
    pub fn invalid_window_index(index: i32) -> (r: Self)
        ensures
            r == (PeekabooError::InvalidWindowIndex { index }),
    {
        Self::InvalidWindowIndex { index }
    }

    /// A bad-argument failure with this message.
    pub fn invalid_argument(message: String) -> (r: Self)
        ensures
            r == (PeekabooError::InvalidArgument { message }),
    {
        Self::InvalidArgument { message }
    }

    /// An unclassified failure with this message.
    pub fn unknown_error(message: String) -> (r: Self)
        ensures
            r == (PeekabooError::UnknownError { message }),
    {
        Self::UnknownError { message }
    }

    /// A failure saying the application runs but shows no windows.
    pub fn no_windows_found(app_name: String) -> (r: Self)
        ensures
            r == (PeekabooError::NoWindowsFound { app_name }),
    {
        Self::NoWindowsFound { app_name }
    }

    /// An X11 failure with this message.
    pub fn x11_error(message: String) -> (r: Self)
        ensures
            r == (PeekabooError::X11Error { message }),
    {
        Self::X11Error { message }
    }

    /// A Wayland failure with this message.
    pub fn wayland_error(message: String) -> (r: Self)
        ensures
            r == (PeekabooError::WaylandError { message }),
    {
        Self::WaylandError { message }
    }

    /// An environment-detection failure with this message.
    pub fn environment_error(message: String) -> (r: Self)
        ensures
            r == (PeekabooError::EnvironmentError { message }),
    {
        Self::EnvironmentError { message }
    }

    /// A system-information failure with this message.
    pub fn system_info_error(message: String) -> (r: Self)
        ensures
            r == (PeekabooError::SystemInfoError { message }),
    {
        Self::SystemInfoError { message }
    }

    /// A general system failure with this message.
    pub fn system_error(message: String) -> (r: Self)
        ensures
            r == (PeekabooError::SystemError { message }),
    {
        Self::SystemError { message }
    }

    /// A failure naming an unsupported platform.
    pub fn unsupported_platform(platform: String) -> (r: Self)
        ensures
            r == (PeekabooError::UnsupportedPlatform { platform }),
    {
        Self::UnsupportedPlatform { platform }
    }
}

} // verus!
