//! Classifying the desktop session from already-read environment facts, and
//! picking the capture and window-management strategies for it.  Reading the
//! environment happens outside the library; the values come in as plain
//! data.

use vstd::prelude::*;

verus! {

use crate::strings::{chars_contains, lower_of, lowercase, seq_contains, str_chars, str_eq};

/// The display protocol of the session.
#[derive(Clone, Copy, Debug, PartialEq, Eq, Structural)]
pub enum DisplayServer {
    X11,
    Wayland,
    Unknown,
}

/// The desktop environment of the session.
#[derive(Clone, Copy, Debug, PartialEq, Eq, Structural)]
pub enum DesktopEnvironment {
    Gnome,
    Kde,
    Xfce,
    I3,
    Sway,
    Unity,
    Mate,
    Cinnamon,
    Lxde,
    Lxqt,
    Unknown,
}

/// Everything the classification found, as plain values.
#[derive(Debug)]
pub struct EnvironmentInfo {
    pub display_server: DisplayServer,
    pub desktop_environment: DesktopEnvironment,
    pub session_type: Option<String>,
    pub display_name: Option<String>,
    pub wayland_display: Option<String>,
    pub is_sandboxed: bool,
    pub user_id: u32,
    pub runtime_dir: Option<String>,
}

/// How a screenshot should be taken.
#[derive(Clone, Copy, Debug, PartialEq, Eq, Structural)]
pub enum ScreenshotMethod {
    X11,
    GnomeScreenshot,
    Spectacle,
    Grim,
    WaylandGeneric,
    Generic,
}

/// How windows should be managed.
#[derive(Clone, Copy, Debug, PartialEq, Eq, Structural)]
pub enum WindowManagerMethod {
    X11,
    SwayIPC,
    GnomeShell,
    WaylandGeneric,
    Generic,
}

/// What the display-server classification yields from the three
/// environment facts: a named Wayland display wins, then a named X11
/// display, then the session type's word.
pub open spec fn display_server_spec(
    wayland_set: bool,
    x11_set: bool,
    session_type: Option<Seq<char>>,
) -> DisplayServer {
    if wayland_set {
        DisplayServer::Wayland
    } else if x11_set {
        DisplayServer::X11
    } else {
        match session_type {
            Some(st) => {
                if lower_of(st) == "wayland"@ {
                    DisplayServer::Wayland
                } else if lower_of(st) == "x11"@ {
                    DisplayServer::X11
                } else {
                    DisplayServer::Unknown
                }
            },
            None => DisplayServer::Unknown,
        }
    }
}

/// What the desktop classification yields: the current-desktop variable's
/// lowered text decides by well-known substrings, then the session markers,
/// then the session name, then running window managers.
pub open spec fn desktop_environment_spec(
    current_desktop: Option<Seq<char>>,
    gnome_session_env: bool,
    kde_session_env: bool,
    desktop_session: Option<Seq<char>>,
    i3_running: bool,
    sway_running: bool,
) -> DesktopEnvironment {
    let by_name = match current_desktop {
        Some(d) => {
            let dl = lower_of(d);
            if seq_contains(dl, "gnome"@) {
                Some(DesktopEnvironment::Gnome)
            } else if seq_contains(dl, "kde"@) || seq_contains(dl, "plasma"@) {
                Some(DesktopEnvironment::Kde)
            } else if seq_contains(dl, "xfce"@) {
                Some(DesktopEnvironment::Xfce)
            } else if seq_contains(dl, "i3"@) {
                Some(DesktopEnvironment::I3)
            } else if seq_contains(dl, "sway"@) {
                Some(DesktopEnvironment::Sway)
            } else if seq_contains(dl, "unity"@) {
                Some(DesktopEnvironment::Unity)
            } else if seq_contains(dl, "mate"@) {
                Some(DesktopEnvironment::Mate)
            } else if seq_contains(dl, "cinnamon"@) {
                Some(DesktopEnvironment::Cinnamon)
            } else if seq_contains(dl, "lxde"@) {
                Some(DesktopEnvironment::Lxde)
            } else if seq_contains(dl, "lxqt"@) {
                Some(DesktopEnvironment::Lxqt)
            } else {
                None
            }
        },
        None => None,
    };
    match by_name {
        Some(de) => de,
        None => {
            if gnome_session_env {
                DesktopEnvironment::Gnome
            } else if kde_session_env {
                DesktopEnvironment::Kde
            } else if (match desktop_session {
                Some(ds) => seq_contains(ds, "xfce"@),
                None => false,
            }) {
                DesktopEnvironment::Xfce
            } else if i3_running {
                DesktopEnvironment::I3
            } else if sway_running {
                DesktopEnvironment::Sway
            } else {
                DesktopEnvironment::Unknown
            }
        },
    }
}

/// The capture strategy for a session.
pub open spec fn screenshot_method_spec(
    server: DisplayServer,
    desktop: DesktopEnvironment,
) -> ScreenshotMethod {
    match server {
        DisplayServer::X11 => ScreenshotMethod::X11,
        DisplayServer::Wayland => match desktop {
            DesktopEnvironment::Gnome => ScreenshotMethod::GnomeScreenshot,
            DesktopEnvironment::Kde => ScreenshotMethod::Spectacle,
            DesktopEnvironment::Sway => ScreenshotMethod::Grim,
            _ => ScreenshotMethod::WaylandGeneric,
        },
        DisplayServer::Unknown => ScreenshotMethod::Generic,
    }
}

/// The window-management strategy for a session.
pub open spec fn window_manager_method_spec(
    server: DisplayServer,
    desktop: DesktopEnvironment,
) -> WindowManagerMethod {
    match server {
        DisplayServer::X11 => WindowManagerMethod::X11,
        DisplayServer::Wayland => match desktop {
            DesktopEnvironment::Sway => WindowManagerMethod::SwayIPC,
            DesktopEnvironment::Gnome => WindowManagerMethod::GnomeShell,
            _ => WindowManagerMethod::WaylandGeneric,
        },
        DisplayServer::Unknown => WindowManagerMethod::Generic,
    }
}

/// Classifies sessions and picks strategies for them.
pub struct Environment {}

impl Environment {
    /// Classify the display server from the environment facts.
    pub fn detect_display_server(
        wayland_set: bool,
        x11_set: bool,
        session_type: &Option<String>,
    ) -> (r: DisplayServer)
        ensures
            r == display_server_spec(
                wayland_set,
                x11_set,
                match session_type {
                    Some(st) => Some(st@),
                    None => None,
                },
            ),
    {
        if wayland_set {
            return DisplayServer::Wayland;
        }
        if x11_set {
            return DisplayServer::X11;
        }
        match session_type {
            Some(st) => {
                let st_low = lowercase(st.as_str());
                if str_eq(st_low.as_str(), "wayland") {
                    DisplayServer::Wayland
                } else if str_eq(st_low.as_str(), "x11") {
                    DisplayServer::X11
                } else {
                    DisplayServer::Unknown
                }
            },
            None => DisplayServer::Unknown,
        }
    }

    /// Classify the desktop environment from the environment facts.
    pub fn detect_desktop_environment(
        current_desktop: &Option<String>,
        gnome_session_env: bool,
        kde_session_env: bool,
        desktop_session: &Option<String>,
        i3_running: bool,
        sway_running: bool,
    ) -> (r: DesktopEnvironment)
        ensures
            r == desktop_environment_spec(
                match current_desktop {
                    Some(d) => Some(d@),
                    None => None,
                },
                gnome_session_env,
                kde_session_env,
                match desktop_session {
                    Some(d) => Some(d@),
                    None => None,
                },
                i3_running,
                sway_running,
            ),
    {
        match current_desktop {
            Some(d) => {
                let d_low_string = lowercase(d.as_str());
                let dl = str_chars(d_low_string.as_str());
                if contains_lit(&dl, "gnome") {
                    return DesktopEnvironment::Gnome;
                }
                if contains_lit(&dl, "kde") || contains_lit(&dl, "plasma") {
                    return DesktopEnvironment::Kde;
                }
                if contains_lit(&dl, "xfce") {
                    return DesktopEnvironment::Xfce;
                }
                if contains_lit(&dl, "i3") {
                    return DesktopEnvironment::I3;
                }
                if contains_lit(&dl, "sway") {
                    return DesktopEnvironment::Sway;
                }
                if contains_lit(&dl, "unity") {
                    return DesktopEnvironment::Unity;
                }
                if contains_lit(&dl, "mate") {
                    return DesktopEnvironment::Mate;
                }
                if contains_lit(&dl, "cinnamon") {
                    return DesktopEnvironment::Cinnamon;
                }
                if contains_lit(&dl, "lxde") {
                    return DesktopEnvironment::Lxde;
                }
                if contains_lit(&dl, "lxqt") {
                    return DesktopEnvironment::Lxqt;
                }
            },
            None => {},
        }
        if gnome_session_env {
            return DesktopEnvironment::Gnome;
        }
        if kde_session_env {
            return DesktopEnvironment::Kde;
        }
        let xfce_session = match desktop_session {
            Some(ds) => {
                let ds_chars = str_chars(ds.as_str());
                contains_lit(&ds_chars, "xfce")
            },
            None => false,
        };
        if xfce_session {
            return DesktopEnvironment::Xfce;
        }
        if i3_running {
            return DesktopEnvironment::I3;
        }
        if sway_running {
            return DesktopEnvironment::Sway;
        }
        DesktopEnvironment::Unknown
    }

    /// Whether the session carries any sandbox marker.
    pub fn is_sandboxed(
        flatpak: bool,
        snap: bool,
        appimage: bool,
        dockerenv: bool,
        containerenv: bool,
    ) -> (r: bool)
        ensures
            r == (flatpak || snap || appimage || dockerenv || containerenv),
    {
        flatpak || snap || appimage || dockerenv || containerenv
    }

    /// The capture strategy for this session.
    pub fn get_screenshot_method(env_info: &EnvironmentInfo) -> (r: ScreenshotMethod)
        ensures
            r == screenshot_method_spec(env_info.display_server, env_info.desktop_environment),
    {
        match env_info.display_server {
            DisplayServer::X11 => ScreenshotMethod::X11,
            DisplayServer::Wayland => match env_info.desktop_environment {
                DesktopEnvironment::Gnome => ScreenshotMethod::GnomeScreenshot,
                DesktopEnvironment::Kde => ScreenshotMethod::Spectacle,
                DesktopEnvironment::Sway => ScreenshotMethod::Grim,
                _ => ScreenshotMethod::WaylandGeneric,
            },
            DisplayServer::Unknown => ScreenshotMethod::Generic,
        }
    }

    /// The window-management strategy for this session.
    pub fn get_window_manager_method(env_info: &EnvironmentInfo) -> (r: WindowManagerMethod)
        ensures
            r == window_manager_method_spec(
                env_info.display_server,
                env_info.desktop_environment,
            ),
    {
        match env_info.display_server {
            DisplayServer::X11 => WindowManagerMethod::X11,
            DisplayServer::Wayland => match env_info.desktop_environment {
                DesktopEnvironment::Sway => WindowManagerMethod::SwayIPC,
                DesktopEnvironment::Gnome => WindowManagerMethod::GnomeShell,
                _ => WindowManagerMethod::WaylandGeneric,
            },
            DisplayServer::Unknown => WindowManagerMethod::Generic,
        }
    }
}

/// Whether the characters hold the literal as a contiguous run.
fn contains_lit(hay: &Vec<char>, lit: &str) -> (r: bool)
    ensures
        r == seq_contains(hay@, lit@),
{
    let lit_chars = str_chars(lit);
    chars_contains(hay, &lit_chars)
}

} // verus!
