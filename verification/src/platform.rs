//! The host-specific backends' pure halves: parsing what the window and
//! display tools print.  Running those tools, and every other side effect,
//! happens outside the library; their output text comes in as a value and
//! everything read out of it is verified.

use vstd::prelude::*;

verus! {

use crate::models::WindowBounds;
use crate::strings::{
    chars_contains,
    chars_find,
    first_index_of,
    join_tokens,
    lines_chars,
    lines_of,
    parse_hex_u32_chars,
    parse_hex_u32_spec,
    parse_i32_chars,
    parse_i32_spec,
    seq_contains,
    split_on,
    split_on_chars,
    split_whitespace_chars,
    str_chars,
    string_from_chars,
    strip_all_prefix,
    strip_all_prefix_chars,
    trim_chars,
    trim_spec,
    ws_tokens,
};

/// One display as the display tool reports it.
#[derive(Clone, Copy, Debug, PartialEq, Eq, Structural)]
pub struct ScreenInfo {
    pub index: i32,
    pub width: i32,
    pub height: i32,
    pub is_primary: bool,
}

/// A window read from one line of the window tool's listing: its id, its
/// title, and the line it stood on.
#[derive(Debug)]
pub struct ParsedWindow {
    pub window_id: u32,
    pub title: String,
    pub window_index: i32,
}

/// Whether a listing line belongs to the given process: at least four
/// fields, the third one the pid.
pub open spec fn window_line_matches(tokens: Seq<Seq<char>>, pid: i32) -> bool {
    tokens.len() >= 4 && parse_i32_spec(tokens[2]) == Some(pid)
}

/// The window id a listing line carries: its first field, a hexadecimal
/// number with its marker prefix dropped; anything unreadable counts zero.
pub open spec fn window_id_of(tokens: Seq<Seq<char>>) -> u32 {
    match parse_hex_u32_spec(strip_all_prefix(tokens[0], "0x"@)) {
        Some(v) => v,
        None => 0,
    }
}

/// The title a listing line carries: everything from the fifth field on,
/// joined with single spaces.
pub open spec fn window_title_of(tokens: Seq<Seq<char>>) -> Seq<char> {
    join_tokens(tokens, 4, tokens.len() as int)
}

/// The windows of the process among the first `i` listing lines, in order:
/// id, title, and line position.
pub open spec fn wmctrl_windows_spec(lines: Seq<Seq<char>>, pid: i32, i: int) -> Seq<
    (u32, Seq<char>, i32),
>
    decreases i,
{
    if i <= 0 {
        Seq::empty()
    } else {
        let p = wmctrl_windows_spec(lines, pid, i - 1);
        if 0 <= i - 1 < lines.len() && window_line_matches(ws_tokens(lines[i - 1]), pid) {
            p.push(
                (
                    window_id_of(ws_tokens(lines[i - 1])),
                    window_title_of(ws_tokens(lines[i - 1])),
                    (i - 1) as i32,
                ),
            )
        } else {
            p
        }
    }
}

/// Read the window tool's listing: every line whose third field is the
/// given pid yields one window, carrying the line's hexadecimal id, its
/// title fields joined with spaces, and its position in the listing.
pub fn parse_wmctrl_windows(output: &str, pid: i32) -> (r: Vec<ParsedWindow>)
    ensures
        ({
            let ws = wmctrl_windows_spec(lines_of(output@), pid, lines_of(output@).len() as int);
            r@.len() == ws.len() && forall|k: int|
                0 <= k < ws.len() ==> (#[trigger] r@[k]).window_id == ws[k].0 && r@[k].title@
                    == ws[k].1 && r@[k].window_index == ws[k].2
        }),
{
    let chars = str_chars(output);
    let lines = lines_chars(&chars);
    let ghost spec_lines = lines_of(output@);
    let n = lines.len();
    let mut r: Vec<ParsedWindow> = Vec::new();
    let mut i: usize = 0;
    while i < n
        invariant
            n == lines@.len(),
            i <= n,
            n == spec_lines.len(),
            forall|j: int| 0 <= j < n ==> (#[trigger] lines@[j])@ == spec_lines[j],
            ({
                let ws = wmctrl_windows_spec(spec_lines, pid, i as int);
                r@.len() == ws.len() && forall|k: int|
                    0 <= k < ws.len() ==> (#[trigger] r@[k]).window_id == ws[k].0 && r@[k].title@
                        == ws[k].1 && r@[k].window_index == ws[k].2
            }),
        decreases n - i,
    {
        let tokens = split_whitespace_chars(&lines[i]);
        let ghost spec_tokens = ws_tokens(spec_lines[i as int]);
        let matched = if tokens.len() >= 4 {
            match parse_i32_chars(&tokens[2]) {
                Some(p) => p == pid,
                None => false,
            }
        } else {
            false
        };
        if matched {
            let marker = str_chars("0x");
            proof {
                reveal_strlit("0x");
            }
            let id_digits = strip_all_prefix_chars(tokens[0].clone(), &marker);
            proof {
                assert(tokens@[0]@ =~= spec_tokens[0]);
                assert(id_digits@ == strip_all_prefix(spec_tokens[0], "0x"@));
            }
            let window_id = match parse_hex_u32_chars(&id_digits) {
                Some(v) => v,
                None => 0,
            };

            let mut title_chars: Vec<char> = Vec::new();
            let tn = tokens.len();
            let mut t: usize = 4;
            while t < tn
                invariant
                    4 <= t <= tn,
                    tn == tokens@.len(),
                    tn == spec_tokens.len(),
                    forall|j: int| 0 <= j < tn ==> (#[trigger] tokens@[j])@ == spec_tokens[j],
                    title_chars@ == join_tokens(spec_tokens, 4, t as int),
                decreases tn - t,
            {
                if t > 4 {
                    title_chars.push(' ');
                }
                let mut piece = tokens[t].clone();
                proof {
                    assert(piece@ =~= spec_tokens[t as int]);
                }
                title_chars.append(&mut piece);
                proof {
                    reveal_strlit(" ");
                    assert(" "@ =~= seq![' ']);
                    assert(title_chars@ =~= join_tokens(spec_tokens, 4, t as int + 1));
                }
                t += 1;
            }
            let title = string_from_chars(&title_chars);
            let window_index: i32 = #[verifier::truncate] (i as i32);
            r.push(ParsedWindow { window_id, title, window_index });
            proof {
                assert(window_line_matches(spec_tokens, pid));
            }
        } else {
            proof {
                assert(!window_line_matches(spec_tokens, pid));
            }
        }
        i += 1;
    }
    r
}

/// The geometry state the bounds parser threads through the lines:
/// position and size, with the tool's defaults until a line sets them.
pub open spec fn bounds_update(state: (int, int, int, int), line: Seq<char>) -> (int, int, int, int) {
    let segs = split_on(line, ':');
    let value = if segs.len() >= 2 {
        Some(trim_spec(segs[1]))
    } else {
        None
    };
    if seq_contains(line, "Absolute upper-left X:"@) {
        match value {
            Some(v) => (parse_default(v, 0), state.1, state.2, state.3),
            None => state,
        }
    } else if seq_contains(line, "Absolute upper-left Y:"@) {
        match value {
            Some(v) => (state.0, parse_default(v, 0), state.2, state.3),
            None => state,
        }
    } else if seq_contains(line, "Width:"@) {
        match value {
            Some(v) => (state.0, state.1, parse_default(v, 800), state.3),
            None => state,
        }
    } else if seq_contains(line, "Height:"@) {
        match value {
            Some(v) => (state.0, state.1, state.2, parse_default(v, 600)),
            None => state,
        }
    } else {
        state
    }
}

/// The number a field holds, or the given default when it is unreadable.
pub open spec fn parse_default(s: Seq<char>, default: int) -> int {
    match parse_i32_spec(s) {
        Some(v) => v as int,
        None => default,
    }
}

/// The geometry after the first `i` lines have been read.
pub open spec fn bounds_state_spec(lines: Seq<Seq<char>>, i: int) -> (int, int, int, int)
    decreases i,
{
    if i <= 0 {
        (0, 0, 800, 600)
    } else {
        let p = bounds_state_spec(lines, i - 1);
        if 0 <= i - 1 < lines.len() {
            bounds_update(p, lines[i - 1])
        } else {
            p
        }
    }
}

/// Read the window-information tool's report: the last line naming each of
/// the four geometry fields decides it, with the position defaulting to the
/// origin and the size to 800 by 600.
pub fn parse_xwininfo_bounds(output: &str) -> (r: WindowBounds)
    ensures
        ({
            let state = bounds_state_spec(lines_of(output@), lines_of(output@).len() as int);
            r.x_coordinate == state.0 && r.y_coordinate == state.1 && r.width == state.2
                && r.height == state.3
        }),
{
    let chars = str_chars(output);
    let lines = lines_chars(&chars);
    let ghost spec_lines = lines_of(output@);
    let n = lines.len();
    let mut x: i32 = 0;
    let mut y: i32 = 0;
    let mut width: i32 = 800;
    let mut height: i32 = 600;
    let mut i: usize = 0;
    while i < n
        invariant
            n == lines@.len(),
            i <= n,
            n == spec_lines.len(),
            forall|j: int| 0 <= j < n ==> (#[trigger] lines@[j])@ == spec_lines[j],
            ({
                let state = bounds_state_spec(spec_lines, i as int);
                x == state.0 && y == state.1 && width == state.2 && height == state.3
            }),
        decreases n - i,
    {
        let line = &lines[i];
        let pattern_x = str_chars("Absolute upper-left X:");
        let pattern_y = str_chars("Absolute upper-left Y:");
        let pattern_w = str_chars("Width:");
        let pattern_h = str_chars("Height:");
        let has_x = chars_contains(line, &pattern_x);
        let has_y = chars_contains(line, &pattern_y);
        let has_w = chars_contains(line, &pattern_w);
        let has_h = chars_contains(line, &pattern_h);
        if has_x || has_y || has_w || has_h {
            let segs = split_on_chars(line, ':');
            let ghost spec_segs = split_on(spec_lines[i as int], ':');
            if segs.len() >= 2 {
                let value = trim_chars(&segs[1]);
                proof {
                    assert(segs@[1]@ =~= spec_segs[1]);
                    assert(value@ == trim_spec(spec_segs[1]));
                }
                if has_x {
                    x = parse_with_default(&value, 0);
                } else if has_y {
                    y = parse_with_default(&value, 0);
                } else if has_w {
                    width = parse_with_default(&value, 800);
                } else {
                    height = parse_with_default(&value, 600);
                }
            }
        }
        i += 1;
    }
    WindowBounds { x_coordinate: x, y_coordinate: y, width, height }
}

/// The number the characters hold, or the default when they are
/// unreadable.
fn parse_with_default(v: &Vec<char>, default: i32) -> (r: i32)
    ensures
        r as int == parse_default(v@, default as int),
{
    match parse_i32_chars(v) {
        Some(value) => value,
        None => default,
    }
}

/// What one display line yields: the third field's size part, read as
/// width and height around the first size separator.
pub open spec fn screen_of_line(line: Seq<char>, index: int) -> Option<ScreenInfo> {
    if seq_contains(line, " connected"@) {
        let tokens = ws_tokens(line);
        if tokens.len() > 2 {
            let dims = split_on(tokens[2], '+')[0];
            match first_index_of(dims, 'x', dims.len() as int) {
                Some(p) => {
                    let w = parse_i32_spec(dims.subrange(0, p));
                    let h = parse_i32_spec(dims.subrange(p + 1, dims.len() as int));
                    if w is Some && h is Some {
                        Some(
                            ScreenInfo {
                                index: index as i32,
                                width: w->0,
                                height: h->0,
                                is_primary: seq_contains(line, "primary"@),
                            },
                        )
                    } else {
                        None
                    }
                },
                None => None,
            }
        } else {
            None
        }
    } else {
        None
    }
}

/// The displays among the first `i` lines, numbered in the order they are
/// found.
pub open spec fn xrandr_screens_spec(lines: Seq<Seq<char>>, i: int) -> Seq<ScreenInfo>
    decreases i,
{
    if i <= 0 {
        Seq::empty()
    } else {
        let p = xrandr_screens_spec(lines, i - 1);
        if 0 <= i - 1 < lines.len() {
            match screen_of_line(lines[i - 1], p.len() as int) {
                Some(s) => p.push(s),
                None => p,
            }
        } else {
            p
        }
    }
}

/// Read the display tool's report: every connected output with a readable
/// size becomes one display, numbered in order; with none readable, a
/// single default full-HD primary display is assumed.
pub fn parse_xrandr_screens(output: &str) -> (r: Vec<ScreenInfo>)
    ensures
        ({
            let ss = xrandr_screens_spec(lines_of(output@), lines_of(output@).len() as int);
            if ss.len() == 0 {
                r@ =~= seq![
                    (ScreenInfo { index: 0, width: 1920, height: 1080, is_primary: true }),
                ]
            } else {
                r@ == ss
            }
        }),
{
    let chars = str_chars(output);
    let lines = lines_chars(&chars);
    let ghost spec_lines = lines_of(output@);
    let n = lines.len();
    let mut screens: Vec<ScreenInfo> = Vec::new();
    let mut i: usize = 0;
    while i < n
        invariant
            n == lines@.len(),
            i <= n,
            n == spec_lines.len(),
            forall|j: int| 0 <= j < n ==> (#[trigger] lines@[j])@ == spec_lines[j],
            screens@ == xrandr_screens_spec(spec_lines, i as int),
            screens@.len() <= i,
        decreases n - i,
    {
        let line = &lines[i];
        let connected = str_chars(" connected");
        if chars_contains(line, &connected) {
            let tokens = split_whitespace_chars(line);
            let ghost spec_tokens = ws_tokens(spec_lines[i as int]);
            if tokens.len() > 2 {
                let plus_parts = split_on_chars(&tokens[2], '+');
                let ghost spec_dims = split_on(spec_tokens[2], '+')[0];
                assert(plus_parts@.len() > 0);
                let dims = &plus_parts[0];
                proof {
                    assert(tokens@[2]@ =~= spec_tokens[2]);
                    assert(dims@ == spec_dims);
                }
                match chars_find(dims, 'x') {
                    Some(p) => {
                        let dims_len = dims.len();
                        assert(p < dims_len);
                        let w_part = sub_vec(dims, 0, p);
                        let h_part = sub_vec(dims, p + 1, dims_len);
                        let w = parse_i32_chars(&w_part);
                        let h = parse_i32_chars(&h_part);
                        match (w, h) {
                            (Some(width), Some(height)) => {
                                let primary = str_chars("primary");
                                let is_primary = chars_contains(line, &primary);
                                let index: i32 = #[verifier::truncate] (screens.len() as i32);
                                screens.push(ScreenInfo { index, width, height, is_primary });
                            },
                            _ => {},
                        }
                    },
                    None => {},
                }
            }
        }
        i += 1;
    }
    if screens.len() == 0 {
        screens.push(ScreenInfo { index: 0, width: 1920, height: 1080, is_primary: true });
    }
    screens
}

/// The characters between the two positions.
fn sub_vec(v: &Vec<char>, from: usize, to: usize) -> (r: Vec<char>)
    requires
        from <= to <= v@.len(),
    ensures
        r@ == v@.subrange(from as int, to as int),
{
    let mut r: Vec<char> = Vec::new();
    let mut i: usize = from;
    while i < to
        invariant
            from <= i <= to <= v@.len(),
            r@ == v@.subrange(from as int, i as int),
        decreases to - i,
    {
        r.push(v[i]);
        proof {
            assert(r@ =~= v@.subrange(from as int, i as int + 1));
        }
        i += 1;
    }
    r
}

/// Enumerates windows through the session's window tools; only the parsing
/// of their output lives here.
pub struct LinuxWindowManager {
    pub display_server: crate::environment::DisplayServer,
}

impl LinuxWindowManager {
    /// A manager for the given display server.
    pub fn new(display_server: crate::environment::DisplayServer) -> (r: LinuxWindowManager)
        ensures
            r.display_server == display_server,
    {
        LinuxWindowManager { display_server }
    }
}

/// The application name behind a process's command line: the first
/// null-separated argument's base name, or the fallback when the command
/// line is empty or holds no base name.
pub open spec fn extract_app_name_spec(cmdline: Seq<char>, fallback: Seq<char>) -> Seq<char> {
    if cmdline.len() == 0 {
        fallback
    } else {
        let first = split_on(cmdline, '\u{0}')[0];
        let base = crate::screen_capture::file_name_part(first);
        if base.len() == 0 {
            fallback
        } else {
            base
        }
    }
}

/// Whether a listed application answers to the identifier: its name or its
/// bundle id holds the identifier, case-insensitively.
pub open spec fn info_answers_to(
    info: crate::models::ApplicationInfo,
    id_low: Seq<char>,
) -> bool {
    seq_contains(crate::strings::lower_of(info.app_name@), id_low) || seq_contains(
        crate::strings::lower_of(info.bundle_id@),
        id_low,
    )
}

/// The first of the `i` leading applications answering to the identifier.
pub open spec fn first_answering(
    infos: Seq<crate::models::ApplicationInfo>,
    id_low: Seq<char>,
    i: int,
) -> Option<int>
    decreases i,
{
    if i <= 0 {
        None
    } else {
        match first_answering(infos, id_low, i - 1) {
            Some(j) => Some(j),
            None => {
                if 0 <= i - 1 < infos.len() && info_answers_to(infos[i - 1], id_low) {
                    Some(i - 1)
                } else {
                    None
                }
            },
        }
    }
}

/// A hit with no earlier hit is the first of any longer prefix.
proof fn lemma_first_answering_found(
    infos: Seq<crate::models::ApplicationInfo>,
    id_low: Seq<char>,
    i: int,
    n: int,
)
    requires
        0 <= i < infos.len(),
        first_answering(infos, id_low, i) is None,
        info_answers_to(infos[i], id_low),
        i < n <= infos.len(),
    ensures
        first_answering(infos, id_low, n) == Some(i),
    decreases n,
{
    if n > i + 1 {
        lemma_first_answering_found(infos, id_low, i, n - 1);
    }
}

/// Finds applications by reading the process table; only the decisions on
/// what was read live here.
pub struct LinuxApplicationFinder {}

impl LinuxApplicationFinder {
    /// A fresh finder.
    pub fn new() -> (r: LinuxApplicationFinder) {
        LinuxApplicationFinder {  }
    }

    /// The application name behind a process's command line, with the
    /// process's reported name as the fallback.
    pub fn extract_app_name(&self, cmdline: &str, fallback: &str) -> (r: String)
        ensures
            r@ == extract_app_name_spec(cmdline@, fallback@),
    {
        let chars = str_chars(cmdline);
        if chars.len() == 0 {
            return crate::strings::string_copy(fallback);
        }
        let parts = split_on_chars(&chars, '\u{0}');
        let first = &parts[0];
        proof {
            assert(first@ == split_on(cmdline@, '\u{0}')[0]);
        }
        let first_len = first.len();
        let base_start: usize = match crate::strings::chars_rfind(first, '/') {
            Some(p) => {
                assert(p < first_len);
                p + 1
            },
            None => 0,
        };
        let base = crate::strings::vec_tail(first, base_start);
        proof {
            assert(base@ =~= crate::screen_capture::file_name_part(first@));
        }
        if base.len() == 0 {
            crate::strings::string_copy(fallback)
        } else {
            string_from_chars(&base)
        }
    }

    /// The first listed application whose name or bundle id holds the
    /// identifier case-insensitively, or a not-found failure.
    pub fn find_application(
        &self,
        identifier: &str,
        infos: &Vec<crate::models::ApplicationInfo>,
    ) -> (r: crate::errors::PeekabooResult<crate::models::ApplicationInfo>)
        ensures
            match r {
                Ok(info) => (match first_answering(
                    infos@,
                    crate::strings::lower_of(identifier@),
                    infos@.len() as int,
                ) {
                    Some(j) => info == infos@[j],
                    None => false,
                }),
                Err(e) => e is WindowNotFound && first_answering(
                    infos@,
                    crate::strings::lower_of(identifier@),
                    infos@.len() as int,
                ) is None,
            },
    {
        let id_low_string = crate::strings::lowercase(identifier);
        let id_low = str_chars(id_low_string.as_str());
        let ghost idl = crate::strings::lower_of(identifier@);
        let n = infos.len();
        let mut i: usize = 0;
        while i < n
            invariant
                n == infos@.len(),
                i <= n,
                id_low@ == idl,
                idl == crate::strings::lower_of(identifier@),
                first_answering(infos@, idl, i as int) is None,
            decreases n - i,
        {
            let name_low_string = crate::strings::lowercase(infos[i].app_name.as_str());
            let name_low = str_chars(name_low_string.as_str());
            let bundle_low_string = crate::strings::lowercase(infos[i].bundle_id.as_str());
            let bundle_low = str_chars(bundle_low_string.as_str());
            if chars_contains(&name_low, &id_low) || chars_contains(&bundle_low, &id_low) {
                proof {
                    lemma_first_answering_found(infos@, idl, i as int, infos@.len() as int);
                }
                return Ok(infos[i].clone());
            }
            i += 1;
        }
        Err(crate::errors::PeekabooError::WindowNotFound)
    }
}

/// Captures the screen through the session's capture tools; the library
/// holds none of the capturing itself.
pub struct LinuxScreenCapture {}

impl LinuxScreenCapture {
    /// A fresh capturer.
    pub fn new() -> (r: LinuxScreenCapture) {
        LinuxScreenCapture {  }
    }
}

/// Answers permission questions from a gathered probe.
pub struct LinuxPermissionChecker {}

impl LinuxPermissionChecker {
    /// A fresh checker.
    pub fn new() -> (r: LinuxPermissionChecker) {
        LinuxPermissionChecker {  }
    }
}

} // verus!
