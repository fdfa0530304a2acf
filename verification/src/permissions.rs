//! Permission decisions from an already-gathered probe of the host.
//!
//! Probing itself (environment variables, tool invocations, socket checks)
//! happens outside the library; the probe's plain findings come in as a
//! value, and every decision on them is verified.

use vstd::prelude::*;

verus! {

use vstd::string::StringExecFns;
use crate::errors::{PeekabooError, PeekabooResult};

/// What probing the host found.  A tool's field is `None` when the tool is
/// not installed, and otherwise says whether it ran successfully.
#[derive(Clone, Copy, Debug, PartialEq, Eq, Structural)]
pub struct PermissionProbe {
    /// An X11 display is named in the environment.
    pub x11_display: bool,
    /// A Wayland display is named in the environment.
    pub wayland_display: bool,
    /// Outcome of running `xdpyinfo`.
    pub xdpyinfo: Option<bool>,
    /// Outcome of running `xlsclients`.
    pub xlsclients: Option<bool>,
    /// Outcome of running `xwininfo` on the root window.
    pub xwininfo: Option<bool>,
    /// The Wayland socket is present and accessible.
    pub wayland_socket: bool,
    /// The process table can be read.
    pub can_read_proc: bool,
    /// Markers of a Flatpak sandbox.
    pub flatpak: bool,
    /// Markers of a Snap sandbox.
    pub snap: bool,
    /// Markers of an AppImage environment.
    pub appimage: bool,
    /// Markers of a container environment.
    pub dockerenv: bool,
}

/// X11 access when `xdpyinfo` is missing: the first present fallback tool
/// decides; with no tool at all, access is assumed.
pub open spec fn x11_alternative_spec(p: PermissionProbe) -> bool {
    match p.xlsclients {
        Some(ok) => ok,
        None => match p.xwininfo {
            Some(ok) => ok,
            None => true,
        },
    }
}

/// X11 access: `xdpyinfo` decides when present, else the fallbacks.
pub open spec fn x11_access_spec(p: PermissionProbe) -> bool {
    match p.xdpyinfo {
        Some(ok) => ok,
        None => x11_alternative_spec(p),
    }
}

/// Wayland access: the display is named and its socket reachable.
pub open spec fn wayland_access_spec(p: PermissionProbe) -> bool {
    p.wayland_display && p.wayland_socket
}

/// Screen recording: X11 access on an X11 session, Wayland access on a
/// Wayland session, nothing headless.
pub open spec fn screen_recording_spec(p: PermissionProbe) -> bool {
    if p.x11_display {
        x11_access_spec(p)
    } else if p.wayland_display {
        wayland_access_spec(p)
    } else {
        false
    }
}

/// Any sandbox marker counts.
pub open spec fn sandboxed_spec(p: PermissionProbe) -> bool {
    p.flatpak || p.snap || p.appimage || p.dockerenv
}

/// Window management: not sandboxed, and the process table readable.
pub open spec fn window_management_spec(p: PermissionProbe) -> bool {
    !sandboxed_spec(p) && p.can_read_proc
}

/// Decides the permission questions on a probe.
pub struct PermissionsChecker {}

impl PermissionsChecker {
    /// Whether the probe grants screen recording.
    pub fn check_screen_recording_permission(probe: &PermissionProbe) -> (r: bool)
        ensures
            r == screen_recording_spec(*probe),
    {
        if probe.x11_display {
            Self::check_x11_access(probe)
        } else if probe.wayland_display {
            Self::check_wayland_access(probe)
        } else {
            false
        }
    }

    /// Whether the probe grants window management, which is what
    /// accessibility means here.
    pub fn check_accessibility_permission(probe: &PermissionProbe) -> (r: bool)
        ensures
            r == window_management_spec(*probe),
    {
        Self::check_window_management_access(probe)
    }

    /// Screen recording as a requirement: denied becomes the corresponding
    /// error.
    pub fn require_screen_recording_permission(probe: &PermissionProbe) -> (r: PeekabooResult<()>)
        ensures
            screen_recording_spec(*probe) <==> r is Ok,
            !screen_recording_spec(*probe) ==> r == Err::<(), PeekabooError>(
                PeekabooError::ScreenRecordingPermissionDenied,
            ),
    {
        if !Self::check_screen_recording_permission(probe) {
            return Err(PeekabooError::ScreenRecordingPermissionDenied);
        }
        Ok(())
    }

    /// Basic access as a requirement: an unreadable process table is
    /// reported as denied screen recording, as the broadest of the checks.
    pub fn require_basic_permissions(probe: &PermissionProbe) -> (r: PeekabooResult<()>)
        ensures
            probe.can_read_proc <==> r is Ok,
            !probe.can_read_proc ==> r == Err::<(), PeekabooError>(
                PeekabooError::ScreenRecordingPermissionDenied,
            ),
    {
        if !Self::check_basic_permissions(probe) {
            return Err(PeekabooError::ScreenRecordingPermissionDenied);
        }
        Ok(())
    }

    /// Accessibility as a requirement: denied becomes the corresponding
    /// error.
    pub fn require_accessibility_permission(probe: &PermissionProbe) -> (r: PeekabooResult<()>)
        ensures
            window_management_spec(*probe) <==> r is Ok,
            !window_management_spec(*probe) ==> r == Err::<(), PeekabooError>(
                PeekabooError::AccessibilityPermissionDenied,
            ),
    {
        if !Self::check_accessibility_permission(probe) {
            return Err(PeekabooError::AccessibilityPermissionDenied);
        }
        Ok(())
    }

    /// Whether basic operations, such as listing processes, can work.
    pub fn check_basic_permissions(probe: &PermissionProbe) -> (r: bool)
        ensures
            r == probe.can_read_proc,
    {
        probe.can_read_proc
    }

    /// X11 access per the probe's tools.
    fn check_x11_access(probe: &PermissionProbe) -> (r: bool)
        ensures
            r == x11_access_spec(*probe),
    {
        match probe.xdpyinfo {
            Some(ok) => ok,
            None => Self::check_x11_alternative(probe),
        }
    }

    /// X11 access when `xdpyinfo` is missing.
    fn check_x11_alternative(probe: &PermissionProbe) -> (r: bool)
        ensures
            r == x11_alternative_spec(*probe),
    {
        match probe.xlsclients {
            Some(ok) => ok,
            None => match probe.xwininfo {
                Some(ok) => ok,
                None => true,
            },
        }
    }

    /// Wayland access per the probe.
    fn check_wayland_access(probe: &PermissionProbe) -> (r: bool)
        ensures
            r == wayland_access_spec(*probe),
    {
        probe.wayland_display && probe.wayland_socket
    }

    /// Whether window management can work.
    fn check_window_management_access(probe: &PermissionProbe) -> (r: bool)
        ensures
            r == window_management_spec(*probe),
    {
        if Self::is_sandboxed_environment(probe) {
            return false;
        }
        probe.can_read_proc
    }

    /// Whether any sandbox marker is present.
    pub fn is_sandboxed_environment(probe: &PermissionProbe) -> (r: bool)
        ensures
            r == sandboxed_spec(*probe),
    {
        probe.flatpak || probe.snap || probe.appimage || probe.dockerenv
    }

    /// Both permission answers at once: screen recording, then
    /// accessibility.
    pub fn get_permission_status(probe: &PermissionProbe) -> (r: (bool, bool))
        ensures
            r.0 == screen_recording_spec(*probe),
            r.1 == window_management_spec(*probe),
    {
        let screen_recording = Self::check_screen_recording_permission(probe);
        let accessibility = Self::check_accessibility_permission(probe);
        (screen_recording, accessibility)
    }

    /// One line summarising the session: each known fact labelled, joined
    /// with commas, or a fixed phrase when nothing is known.
    pub fn get_environment_info(
        display: &Option<String>,
        wayland: &Option<String>,
        desktop: &Option<String>,
        session: &Option<String>,
        sandboxed: bool,
    ) -> (r: String)
        ensures
            r@ == env_info_spec(
                view_opt(display),
                view_opt(wayland),
                view_opt(desktop),
                view_opt(session),
                sandboxed,
            ),
    {
        let mut parts: Vec<String> = Vec::new();
        let ghost spec_parts = env_info_parts(
            view_opt(display),
            view_opt(wayland),
            view_opt(desktop),
            view_opt(session),
            sandboxed,
        );
        match display {
            Some(d) => {
                let mut s = String::from_str("X11 Display: ");
                s.append(d.as_str());
                parts.push(s);
            },
            None => {},
        }
        match wayland {
            Some(w) => {
                let mut s = String::from_str("Wayland Display: ");
                s.append(w.as_str());
                parts.push(s);
            },
            None => {},
        }
        match desktop {
            Some(d) => {
                let mut s = String::from_str("Desktop: ");
                s.append(d.as_str());
                parts.push(s);
            },
            None => {},
        }
        match session {
            Some(s0) => {
                let mut s = String::from_str("Session Type: ");
                s.append(s0.as_str());
                parts.push(s);
            },
            None => {},
        }
        if sandboxed {
            parts.push(String::from_str("Sandboxed: Yes"));
        }
        proof {
            assert(parts@.len() == spec_parts.len());
            assert(forall|k: int| 0 <= k < parts@.len() ==> (#[trigger] parts@[k])@
                == spec_parts[k]);
        }
        if parts.len() == 0 {
            let r = String::from_str("Unknown environment");
            return r;
        }
        let mut joined = String::new();
        let n = parts.len();
        let mut k: usize = 0;
        while k < n
            invariant
                n == parts@.len(),
                n == spec_parts.len(),
                k <= n,
                forall|j: int| 0 <= j < n ==> (#[trigger] parts@[j])@ == spec_parts[j],
                joined@ == join_comma(spec_parts, k as int),
            decreases n - k,
        {
            if k > 0 {
                joined.append(", ");
            }
            joined.append(parts[k].as_str());
            proof {
                assert(joined@ =~= join_comma(spec_parts, k as int + 1));
            }
            k += 1;
        }
        joined
    }
}

/// The views of an optional string.
pub open spec fn view_opt(o: &Option<String>) -> Option<Seq<char>> {
    match o {
        Some(s) => Some(s@),
        None => None,
    }
}

/// The labelled facts a session summary lists, in fixed order.
pub open spec fn env_info_parts(
    display: Option<Seq<char>>,
    wayland: Option<Seq<char>>,
    desktop: Option<Seq<char>>,
    session: Option<Seq<char>>,
    sandboxed: bool,
) -> Seq<Seq<char>> {
    let p0 = Seq::<Seq<char>>::empty();
    let p1 = match display {
        Some(d) => p0.push("X11 Display: "@ + d),
        None => p0,
    };
    let p2 = match wayland {
        Some(w) => p1.push("Wayland Display: "@ + w),
        None => p1,
    };
    let p3 = match desktop {
        Some(d) => p2.push("Desktop: "@ + d),
        None => p2,
    };
    let p4 = match session {
        Some(s) => p3.push("Session Type: "@ + s),
        None => p3,
    };
    if sandboxed {
        p4.push("Sandboxed: Yes"@)
    } else {
        p4
    }
}

/// The first `i` parts joined with commas.
pub open spec fn join_comma(parts: Seq<Seq<char>>, i: int) -> Seq<char>
    decreases i,
{
    if i <= 0 {
        Seq::empty()
    } else if i == 1 {
        parts[0]
    } else {
        join_comma(parts, i - 1) + ", "@ + parts[i - 1]
    }
}

/// The session summary: the labelled facts joined with commas, or a fixed
/// phrase when there are none.
pub open spec fn env_info_spec(
    display: Option<Seq<char>>,
    wayland: Option<Seq<char>>,
    desktop: Option<Seq<char>>,
    session: Option<Seq<char>>,
    sandboxed: bool,
) -> Seq<char> {
    let parts = env_info_parts(display, wayland, desktop, session, sandboxed);
    if parts.len() == 0 {
        "Unknown environment"@
    } else {
        join_comma(parts, parts.len() as int)
    }
}

} // verus!
