//! The command-line surface as plain data: the command tree, capture options
//! and the small decisions made on them.  Argument parsing itself is done by
//! the program around the library; these types carry the parsed values.

use vstd::prelude::*;

verus! {

use vstd::string::StringExecFns;
use crate::file_utils::{join_path, join_path_spec, sanitize_filename, sanitize_filename_spec};
use crate::models::WindowDetailOption;
use crate::strings::{dec_str, u64_to_string};

/// The whole invocation: one optional subcommand.
#[derive(Debug)]
pub struct PeekabooCommand {
    pub command: Option<Commands>,
}

/// The top-level subcommands.
#[derive(Debug)]
pub enum Commands {
    Image(ImageCommand),
    List(ListCommands),
}

/// The listing subcommands.
#[derive(Debug)]
pub enum ListCommands {
    Apps(AppsCommand),
    Windows(WindowsCommand),
    ServerStatus(ServerStatusCommand),
}

/// Options of the capture command.
#[derive(Debug, Default)]
pub struct ImageCommand {
    pub app: Option<String>,
    pub path: Option<String>,
    pub mode: Option<CaptureMode>,
    pub window_title: Option<String>,
    pub window_index: Option<i32>,
    pub screen_index: Option<i32>,
    pub format: ImageFormat,
    pub capture_focus: CaptureFocus,
    pub window_details: Vec<WindowDetailOption>,
    pub json_output: bool,
}

/// Options of the application listing.
#[derive(Debug)]
pub struct AppsCommand {
    pub json_output: bool,
}

/// Options of the window listing.
#[derive(Debug)]
pub struct WindowsCommand {
    pub app: String,
    pub include_details: Option<String>,
    pub json_output: bool,
}

/// Options of the permission-status report.
#[derive(Debug)]
pub struct ServerStatusCommand {
    pub json_output: bool,
}

/// The listing command as its own tree, used where listing is the whole
/// invocation.
#[derive(Debug)]
pub struct ListCommand {
    pub subcommand: ListSubcommand,
}

/// The branches of [`ListCommand`].
#[derive(Debug)]
pub enum ListSubcommand {
    Apps(AppsCommand),
    Windows(WindowsCommand),
    ServerStatus(ServerStatusCommand),
}

/// What a capture targets.
#[derive(Clone, Copy, Debug, Default, PartialEq, Eq, Structural)]
pub enum CaptureMode {
    #[default]
    Screen,
    Window,
    Multi,
}

/// The encoding of a written image.
#[derive(Clone, Copy, Debug, Default, PartialEq, Eq, Structural)]
pub enum ImageFormat {
    #[default]
    Png,
    Jpg,
}

/// Whether the target is brought to the front before capture.
#[derive(Clone, Copy, Debug, Default, PartialEq, Eq, Structural)]
pub enum CaptureFocus {
    Background,
    #[default]
    Auto,
    Foreground,
}

impl ImageFormat {
    /// The filename extension belonging to this format.
    pub open spec fn extension_spec(&self) -> Seq<char> {
        match self {
            ImageFormat::Png => "png"@,
            ImageFormat::Jpg => "jpg"@,
        }
    }

    /// The MIME type belonging to this format.
    pub open spec fn mime_type_spec(&self) -> Seq<char> {
        match self {
            ImageFormat::Png => "image/png"@,
            ImageFormat::Jpg => "image/jpeg"@,
        }
    }

    /// The filename extension belonging to this format.
    pub fn extension(&self) -> (r: &'static str)
        ensures
            r@ == self.extension_spec(),
    {
        match self {
            ImageFormat::Png => "png",
            ImageFormat::Jpg => "jpg",
        }
    }

    /// The MIME type belonging to this format.
    pub fn mime_type(&self) -> (r: String)
        ensures
            r@ == self.mime_type_spec(),
    {
        match self {
            ImageFormat::Png => String::from_str("image/png"),
            ImageFormat::Jpg => String::from_str("image/jpeg"),
        }
    }
}

impl ImageCommand {
    /// Which capture mode the options ask for: an explicit mode wins; else a
    /// named application means a window capture, and otherwise the whole
    /// screen is captured.
    pub fn determine_mode(&self) -> (r: CaptureMode)
        ensures
            r == match self.mode {
                Some(m) => m,
                None => {
                    if self.app is Some {
                        CaptureMode::Window
                    } else {
                        CaptureMode::Screen
                    }
                },
            },
    {
        match &self.mode {
            Some(m) => *m,
            None => {
                if self.app.is_some() {
                    CaptureMode::Window
                } else {
                    CaptureMode::Screen
                }
            },
        }
    }
}

/// A filename placed under the base path when one is given.
pub open spec fn placed_spec(base: Option<Seq<char>>, filename: Seq<char>) -> Seq<char> {
    match base {
        Some(b) => join_path_spec(b, filename),
        None => filename,
    }
}

/// The filename written for a whole-screen capture: the display index and
/// the timestamp, under the chosen base path.
pub open spec fn screen_output_path_spec(
    base: Option<Seq<char>>,
    display_index: int,
    timestamp: Seq<char>,
    format: ImageFormat,
) -> Seq<char> {
    placed_spec(
        base,
        "screenshot_display_"@ + dec_str(display_index) + "_"@ + timestamp + "."@
            + format.extension_spec(),
    )
}

/// The filename written for a window capture: sanitized application and
/// window names and the timestamp, under the chosen base path.
pub open spec fn window_output_path_spec(
    base: Option<Seq<char>>,
    app_name: Seq<char>,
    window_title: Seq<char>,
    timestamp: Seq<char>,
    format: ImageFormat,
) -> Seq<char> {
    placed_spec(
        base,
        sanitize_filename_spec(app_name) + "_"@ + sanitize_filename_spec(window_title)
            + "_window_"@ + timestamp + "."@ + format.extension_spec(),
    )
}

/// The filename written for one window among many: the window's position
/// and a uniqueness fragment join the sanitized names and the timestamp.
pub open spec fn indexed_window_output_path_spec(
    base: Option<Seq<char>>,
    app_name: Seq<char>,
    index: int,
    window_title: Seq<char>,
    timestamp: Seq<char>,
    unique: Seq<char>,
    format: ImageFormat,
) -> Seq<char> {
    placed_spec(
        base,
        sanitize_filename_spec(app_name) + "_window_"@ + dec_str(index) + "_"@
            + sanitize_filename_spec(window_title) + "_"@ + timestamp + "_"@ + unique + "."@
            + format.extension_spec(),
    )
}

impl ImageCommand {
    /// Where a whole-screen capture of the given display is written, the
    /// timestamp supplied by the caller.
    pub fn generate_screen_output_path(&self, display_index: u32, timestamp: &str) -> (r: String)
        ensures
            r@ == screen_output_path_spec(
                match self.path {
                    Some(ref b) => Some(b@),
                    None => None,
                },
                display_index as int,
                timestamp@,
                self.format,
            ),
    {
        let mut filename = String::from_str("screenshot_display_");
        let index_text = u64_to_string(display_index as u64);
        filename.append(index_text.as_str());
        filename.append("_");
        filename.append(timestamp);
        filename.append(".");
        filename.append(self.format.extension());
        self.place(filename)
    }

    /// Where a window capture is written, the timestamp supplied by the
    /// caller.
    pub fn generate_window_output_path(
        &self,
        app_name: &str,
        window_title: &str,
        timestamp: &str,
    ) -> (r: String)
        ensures
            r@ == window_output_path_spec(
                match self.path {
                    Some(ref b) => Some(b@),
                    None => None,
                },
                app_name@,
                window_title@,
                timestamp@,
                self.format,
            ),
    {
        let mut filename = sanitize_filename(app_name);
        filename.append("_");
        let safe_title = sanitize_filename(window_title);
        filename.append(safe_title.as_str());
        filename.append("_window_");
        filename.append(timestamp);
        filename.append(".");
        filename.append(self.format.extension());
        self.place(filename)
    }

    /// Where one of several window captures is written; the caller supplies
    /// the timestamp and a uniqueness fragment.
    pub fn generate_window_output_path_with_index(
        &self,
        app_name: &str,
        index: u32,
        window_title: &str,
        timestamp: &str,
        unique: &str,
    ) -> (r: String)
        ensures
            r@ == indexed_window_output_path_spec(
                match self.path {
                    Some(ref b) => Some(b@),
                    None => None,
                },
                app_name@,
                index as int,
                window_title@,
                timestamp@,
                unique@,
                self.format,
            ),
    {
        let mut filename = sanitize_filename(app_name);
        filename.append("_window_");
        let index_text = u64_to_string(index as u64);
        filename.append(index_text.as_str());
        filename.append("_");
        let safe_title = sanitize_filename(window_title);
        filename.append(safe_title.as_str());
        filename.append("_");
        filename.append(timestamp);
        filename.append("_");
        filename.append(unique);
        filename.append(".");
        filename.append(self.format.extension());
        self.place(filename)
    }

    /// The filename under the base path, when one was given.
    fn place(&self, filename: String) -> (r: String)
        ensures
            r@ == placed_spec(
                match self.path {
                    Some(ref b) => Some(b@),
                    None => None,
                },
                filename@,
            ),
    {
        match &self.path {
            Some(base) => join_path(base.as_str(), filename.as_str()),
            None => filename,
        }
    }
}

impl WindowsCommand {
    /// The detail options asked for: the option string split at commas,
    /// each piece trimmed, unknown keywords ignored, repetitions kept.
    pub fn parse_include_details(&self) -> (r: Vec<WindowDetailOption>)
        ensures
            r@ == match self.include_details {
                Some(ref d) => crate::models::parse_details_spec(
                    crate::strings::split_commas(d@),
                    crate::strings::split_commas(d@).len() as int,
                ),
                None => Seq::<WindowDetailOption>::empty(),
            },
    {
        match &self.include_details {
            Some(d) => crate::models::parse_detail_list(d.as_str()),
            None => Vec::new(),
        }
    }
}

impl ListCommand {
    /// Whether the selected branch asked for JSON output.
    pub fn is_json_output(&self) -> (r: bool)
        ensures
            r == match self.subcommand {
                ListSubcommand::Apps(ref c) => c.json_output,
                ListSubcommand::Windows(ref c) => c.json_output,
                ListSubcommand::ServerStatus(ref c) => c.json_output,
            },
    {
        match &self.subcommand {
            ListSubcommand::Apps(c) => c.json_output,
            ListSubcommand::Windows(c) => c.json_output,
            ListSubcommand::ServerStatus(c) => c.json_output,
        }
    }
}

impl PeekabooCommand {
    /// Whether the invocation asked for JSON output; with no subcommand the
    /// answer is no.
    pub fn is_json_output(&self) -> (r: bool)
        ensures
            r == match self.command {
                Some(Commands::Image(ref c)) => c.json_output,
                Some(Commands::List(ListCommands::Apps(ref c))) => c.json_output,
                Some(Commands::List(ListCommands::Windows(ref c))) => c.json_output,
                Some(Commands::List(ListCommands::ServerStatus(ref c))) => c.json_output,
                None => false,
            },
    {
        match &self.command {
            Some(Commands::Image(c)) => c.json_output,
            Some(Commands::List(ListCommands::Apps(c))) => c.json_output,
            Some(Commands::List(ListCommands::Windows(c))) => c.json_output,
            Some(Commands::List(ListCommands::ServerStatus(c))) => c.json_output,
            None => false,
        }
    }
}

} // verus!
