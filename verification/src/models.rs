//! Data carried between the resolver, the command layer and the callers:
//! process records, window descriptions, capture results and status reports.

use vstd::prelude::*;

pub use crate::cli::{CaptureFocus, CaptureMode, ImageFormat};

verus! {

/// A file written by a capture, with enough context to describe it.
#[derive(Debug)]
pub struct SavedFile {
    pub path: String,
    pub item_label: Option<String>,
    pub window_title: Option<String>,
    pub window_id: Option<u32>,
    pub window_index: Option<i32>,
    pub mime_type: String,
}

/// The files written by one capture invocation.
#[derive(Debug)]
pub struct ImageCaptureData {
    pub saved_files: Vec<SavedFile>,
}

/// A running application as reported to callers.
#[derive(Debug)]
pub struct ApplicationInfo {
    pub app_name: String,
    pub bundle_id: String,
    pub pid: i32,
    pub is_active: bool,
    pub window_count: i32,
}

/// The applications reported by a listing.
#[derive(Debug)]
pub struct ApplicationListData {
    pub applications: Vec<ApplicationInfo>,
}

/// A window as reported to callers; optional fields are filled according to
/// the requested level of detail.
#[derive(Debug)]
pub struct WindowInfo {
    pub window_title: String,
    pub window_id: Option<u32>,
    pub window_index: Option<i32>,
    pub bounds: Option<WindowBounds>,
    pub is_on_screen: Option<bool>,
}

/// A window's position and size.
#[derive(Clone, Copy, Debug, PartialEq, Eq, Structural)]
pub struct WindowBounds {
    pub x_coordinate: i32,
    pub y_coordinate: i32,
    pub width: i32,
    pub height: i32,
}

/// The application a window listing was produced for.
#[derive(Debug)]
pub struct TargetApplicationInfo {
    pub app_name: String,
    pub bundle_id: Option<String>,
    pub pid: i32,
}

/// The windows reported by a listing, with their owning application.
#[derive(Debug)]
pub struct WindowListData {
    pub windows: Vec<WindowInfo>,
    pub target_application_info: TargetApplicationInfo,
}

/// Which capabilities the host grants this process.
#[derive(Clone, Copy, Debug, PartialEq, Eq, Structural)]
pub struct ServerPermissions {
    pub screen_recording: bool,
    pub accessibility: bool,
}

/// Permission state together with platform identification.
#[derive(Debug)]
pub struct ServerStatus {
    pub permissions: ServerPermissions,
    pub platform: String,
    pub version: String,
}

/// The payload of a server-status report.
#[derive(Clone, Copy, Debug, PartialEq, Eq, Structural)]
pub struct ServerStatusData {
    pub permissions: ServerPermissions,
}

/// A window as the window manager sees it internally.
#[derive(Debug)]
pub struct WindowData {
    pub window_id: u32,
    pub title: String,
    pub bounds: WindowBounds,
    pub is_on_screen: bool,
    pub window_index: i32,
}

/// One process in a snapshot of the running system: the input of the
/// application resolver.  A snapshot never holds two records with one `pid`.
#[derive(Debug)]
pub struct ApplicationData {
    pub name: String,
    pub bundle_id: Option<String>,
    pub path: Option<String>,
    pub pid: i32,
    pub is_active: bool,
}

/// Which window of an application is meant.
#[derive(Debug)]
pub enum WindowSpecifier {
    Title(String),
    Index(i32),
}

/// An extra piece of window detail a caller may ask for.
#[derive(Clone, Copy, Debug, PartialEq, Eq, Structural)]
pub enum WindowDetailOption {
    OffScreen,
    Bounds,
    Ids,
}

/// What `WindowDetailOption::from_str` accepts, and what it maps each
/// accepted string to.
pub open spec fn window_detail_option_spec(s: Seq<char>) -> Option<WindowDetailOption> {
    if s == "off_screen"@ {
        Some(WindowDetailOption::OffScreen)
    } else if s == "bounds"@ {
        Some(WindowDetailOption::Bounds)
    } else if s == "ids"@ {
        Some(WindowDetailOption::Ids)
    } else {
        None
    }
}

impl WindowDetailOption {
    /// Parse one detail keyword; anything unrecognised is `None`.
    pub fn from_str(s: &str) -> (r: Option<WindowDetailOption>)
        ensures
            r == window_detail_option_spec(s@),
    {
        let off: &str = "off_screen";
        let bounds: &str = "bounds";
        let ids: &str = "ids";
        if crate::strings::str_eq(s, off) {
            Some(WindowDetailOption::OffScreen)
        } else if crate::strings::str_eq(s, bounds) {
            Some(WindowDetailOption::Bounds)
        } else if crate::strings::str_eq(s, ids) {
            Some(WindowDetailOption::Ids)
        } else {
            None
        }
    }
}

/// What one comma-separated segment contributes after trimming: a detail
/// option, or nothing.
pub open spec fn parse_details_spec(segs: Seq<Seq<char>>, i: int) -> Seq<WindowDetailOption>
    decreases i,
{
    if i <= 0 {
        Seq::empty()
    } else {
        let p = parse_details_spec(segs, i - 1);
        if 0 <= i - 1 < segs.len() {
            match window_detail_option_spec(crate::strings::trim_spec(segs[i - 1])) {
                Some(o) => p.push(o),
                None => p,
            }
        } else {
            p
        }
    }
}

/// The first `i` options with later repetitions removed.
pub open spec fn dedup_options(s: Seq<WindowDetailOption>, i: int) -> Seq<WindowDetailOption>
    decreases i,
{
    if i <= 0 {
        Seq::empty()
    } else {
        let p = dedup_options(s, i - 1);
        if 0 <= i - 1 < s.len() && !p.contains(s[i - 1]) {
            p.push(s[i - 1])
        } else {
            p
        }
    }
}

/// The detail keyword held by these characters, if any.
fn detail_of_chars(v: &Vec<char>) -> (r: Option<WindowDetailOption>)
    ensures
        r == window_detail_option_spec(v@),
{
    let off = crate::strings::str_chars("off_screen");
    if crate::strings::chars_eq(v, &off) {
        return Some(WindowDetailOption::OffScreen);
    }
    let bounds = crate::strings::str_chars("bounds");
    if crate::strings::chars_eq(v, &bounds) {
        return Some(WindowDetailOption::Bounds);
    }
    let ids = crate::strings::str_chars("ids");
    if crate::strings::chars_eq(v, &ids) {
        return Some(WindowDetailOption::Ids);
    }
    None
}

/// Split at commas, trim each segment, and keep the recognised detail
/// keywords, repetitions included, in order.
pub fn parse_detail_list(details: &str) -> (r: Vec<WindowDetailOption>)
    ensures
        r@ == parse_details_spec(
            crate::strings::split_commas(details@),
            crate::strings::split_commas(details@).len() as int,
        ),
{
    let chars = crate::strings::str_chars(details);
    let segs = crate::strings::split_commas_chars(&chars);
    let ghost spec_segs = crate::strings::split_commas(details@);
    let mut r: Vec<WindowDetailOption> = Vec::new();
    let n = segs.len();
    let mut k: usize = 0;
    while k < n
        invariant
            n == segs@.len(),
            k <= n,
            n == spec_segs.len(),
            forall|j: int| 0 <= j < n ==> segs@[j]@ == spec_segs[j],
            r@ == parse_details_spec(spec_segs, k as int),
        decreases n - k,
    {
        let trimmed = crate::strings::trim_chars(&segs[k]);
        match detail_of_chars(&trimmed) {
            Some(o) => {
                r.push(o);
            },
            None => {},
        }
        k += 1;
    }
    r
}

/// A clone of an optional string, equal to the original.
pub fn clone_opt_string(o: &Option<String>) -> (r: Option<String>)
    ensures
        r == *o,
{
    match o {
        Some(s) => Some(s.clone()),
        None => None,
    }
}

impl Clone for ApplicationData {
    /// An exact copy: every field of the clone equals the original's.
    fn clone(&self) -> (r: Self)
        ensures
            r == *self,
    {
        let r = ApplicationData {
            name: self.name.clone(),
            bundle_id: clone_opt_string(&self.bundle_id),
            path: clone_opt_string(&self.path),
            pid: self.pid,
            is_active: self.is_active,
        };
        r
    }
}

impl Clone for ApplicationInfo {
    /// An exact copy: every field of the clone equals the original's.
    fn clone(&self) -> (r: Self)
        ensures
            r == *self,
    {
        ApplicationInfo {
            app_name: self.app_name.clone(),
            bundle_id: self.bundle_id.clone(),
            pid: self.pid,
            is_active: self.is_active,
            window_count: self.window_count,
        }
    }
}

impl Clone for WindowData {
    /// An exact copy: every field of the clone equals the original's.
    fn clone(&self) -> (r: Self)
        ensures
            r == *self,
    {
        WindowData {
            window_id: self.window_id,
            title: self.title.clone(),
            bounds: self.bounds,
            is_on_screen: self.is_on_screen,
            window_index: self.window_index,
        }
    }
}

impl SavedFile {
    /// Bundle the facts about one written file; the MIME type follows the
    /// image format.
    pub fn new(
        path: String,
        item_label: Option<String>,
        window_title: Option<String>,
        window_id: Option<u32>,
        window_index: Option<i32>,
        format: &ImageFormat,
    ) -> (r: SavedFile)
        ensures
            r.path == path,
            r.item_label == item_label,
            r.window_title == window_title,
            r.window_id == window_id,
            r.window_index == window_index,
            r.mime_type@ == format.mime_type_spec(),
    {
        let mime_type = format.mime_type();
        SavedFile { path, item_label, window_title, window_id, window_index, mime_type }
    }
}

impl WindowBounds {
    /// A rectangle from its coordinates and size.
    pub fn new(x: i32, y: i32, width: i32, height: i32) -> (r: WindowBounds)
        ensures
            r.x_coordinate == x,
            r.y_coordinate == y,
            r.width == width,
            r.height == height,
    {
        WindowBounds { x_coordinate: x, y_coordinate: y, width, height }
    }
}

impl WindowData {
    /// The caller-facing description of this window; identifiers and bounds
    /// are included only when asked for.
    pub fn to_window_info(&self, include_bounds: bool, include_ids: bool) -> (r: WindowInfo)
        ensures
            r.window_title@ == self.title@,
            r.window_id == if include_ids {
                Some(self.window_id)
            } else {
                None::<u32>
            },
            r.window_index == Some(self.window_index),
            r.bounds == if include_bounds {
                Some(self.bounds)
            } else {
                None::<WindowBounds>
            },
            r.is_on_screen == Some(self.is_on_screen),
    {
        WindowInfo {
            window_title: self.title.clone(),
            window_id: if include_ids {
                Some(self.window_id)
            } else {
                None
            },
            window_index: Some(self.window_index),
            bounds: if include_bounds {
                Some(self.bounds)
            } else {
                None
            },
            is_on_screen: Some(self.is_on_screen),
        }
    }
}

impl ApplicationData {
    /// The caller-facing description of this process; a missing bundle id
    /// becomes the empty string, and the window count is filled in later.
    pub fn to_application_info(self) -> (r: ApplicationInfo)
        ensures
            r.app_name == self.name,
            self.bundle_id is Some ==> r.bundle_id == self.bundle_id.unwrap(),
            self.bundle_id is None ==> r.bundle_id@ == Seq::<char>::empty(),
            r.pid == self.pid,
            r.is_active == self.is_active,
            r.window_count == 0,
    {
        let bundle_id = match self.bundle_id {
            Some(b) => b,
            None => String::new(),
        };
        ApplicationInfo {
            app_name: self.name,
            bundle_id,
            pid: self.pid,
            is_active: self.is_active,
            window_count: 0,
        }
    }
}

} // verus!
