//! Window bookkeeping: turning window data into caller-facing descriptions,
//! selecting windows by title or index, and reading detail options.  The
//! enumeration backend here is a stand-in that reports one fixed window;
//! everything done on what it reports is verified.

use vstd::prelude::*;

verus! {

use vstd::string::StringExecFns;
use crate::errors::{PeekabooError, PeekabooResult};
use crate::models::{
    dedup_options,
    parse_detail_list,
    parse_details_spec,
    WindowBounds,
    WindowData,
    WindowDetailOption,
    WindowInfo,
};
use crate::strings::{seq_contains, split_commas, str_chars};

/// The one window the stand-in backend reports.
pub open spec fn mock_window_spec(w: WindowData) -> bool {
    w.window_id == 12345 && w.title@ == "Mock Window"@ && w.bounds == (WindowBounds {
        x_coordinate: 100,
        y_coordinate: 100,
        width: 800,
        height: 600,
    }) && w.is_on_screen && w.window_index == 0
}

/// The caller-facing descriptions of the given windows: off-screen windows
/// dropped unless asked for, identifiers and bounds only when asked for,
/// each window keeping its position in the source list as its index.
pub open spec fn windows_info_spec(
    ws: Seq<WindowData>,
    include_off_screen: bool,
    include_bounds: bool,
    include_ids: bool,
    i: int,
) -> Seq<WindowInfo>
    decreases i,
{
    if i <= 0 {
        Seq::empty()
    } else {
        let p = windows_info_spec(ws, include_off_screen, include_bounds, include_ids, i - 1);
        if 0 <= i - 1 < ws.len() && (include_off_screen || ws[i - 1].is_on_screen) {
            p.push(
                WindowInfo {
                    window_title: ws[i - 1].title,
                    window_id: if include_ids {
                        Some(ws[i - 1].window_id)
                    } else {
                        None
                    },
                    window_index: Some((i - 1) as i32),
                    bounds: if include_bounds {
                        Some(ws[i - 1].bounds)
                    } else {
                        None
                    },
                    is_on_screen: Some(ws[i - 1].is_on_screen),
                },
            )
        } else {
            p
        }
    }
}

/// The first of the windows whose title holds `t` as a substring.
pub open spec fn first_title_match(ws: Seq<WindowData>, t: Seq<char>, i: int) -> Option<int>
    decreases i,
{
    if i <= 0 {
        None
    } else {
        match first_title_match(ws, t, i - 1) {
            Some(j) => Some(j),
            None => {
                if 0 <= i - 1 < ws.len() && seq_contains(ws[i - 1].title@, t) {
                    Some(i - 1)
                } else {
                    None
                }
            },
        }
    }
}

/// Enumerates and selects windows.
pub struct WindowManager {}

impl WindowManager {
    /// A fresh manager.
    pub fn new() -> (r: WindowManager) {
        WindowManager {  }
    }

    /// The windows of the application: one fixed window, until a real
    /// enumeration backend stands here.
    pub fn get_windows_for_app(&self, pid: i32) -> (r: PeekabooResult<Vec<WindowData>>)
        ensures
            match r {
                Ok(ws) => ws@.len() == 1 && mock_window_spec(ws@[0]),
                Err(_) => false,
            },
    {
        let _ = pid;
        let mock_window = WindowData {
            window_id: 12345,
            title: String::from_str("Mock Window"),
            bounds: WindowBounds::new(100, 100, 800, 600),
            is_on_screen: true,
            window_index: 0,
        };
        let mut ws: Vec<WindowData> = Vec::new();
        ws.push(mock_window);
        Ok(ws)
    }

    /// The caller-facing descriptions of the application's windows, with
    /// the requested level of detail.
    pub fn get_windows_info_for_app(
        &self,
        pid: i32,
        include_off_screen: bool,
        include_bounds: bool,
        include_ids: bool,
    ) -> (r: PeekabooResult<Vec<WindowInfo>>)
        ensures
            match r {
                Ok(infos) => exists|ws: Seq<WindowData>|
                    ws.len() == 1 && #[trigger] mock_window_spec(ws[0]) && infos@
                        == windows_info_spec(
                        ws,
                        include_off_screen,
                        include_bounds,
                        include_ids,
                        ws.len() as int,
                    ),
                Err(_) => false,
            },
    {
        let windows = match self.get_windows_for_app(pid) {
            Ok(ws) => ws,
            Err(e) => {
                return Err(e);
            },
        };
        let n = windows.len();
        let mut infos: Vec<WindowInfo> = Vec::new();
        let mut i: usize = 0;
        while i < n
            invariant
                n == windows@.len(),
                n == 1,
                i <= n,
                infos@ == windows_info_spec(
                    windows@,
                    include_off_screen,
                    include_bounds,
                    include_ids,
                    i as int,
                ),
            decreases n - i,
        {
            let w = &windows[i];
            if include_off_screen || w.is_on_screen {
                infos.push(
                    WindowInfo {
                        window_title: w.title.clone(),
                        window_id: if include_ids {
                            Some(w.window_id)
                        } else {
                            None
                        },
                        window_index: Some(i as i32),
                        bounds: if include_bounds {
                            Some(w.bounds)
                        } else {
                            None
                        },
                        is_on_screen: Some(w.is_on_screen),
                    },
                );
                proof {
                    assert(infos@ =~= windows_info_spec(
                        windows@,
                        include_off_screen,
                        include_bounds,
                        include_ids,
                        i as int + 1,
                    ));
                }
            }
            i += 1;
        }
        Ok(infos)
    }

    /// The detail options named in the comma-separated string, each keyword
    /// kept once, in first-appearance order.
    pub fn parse_include_details(details_string: Option<&str>) -> (r: Vec<WindowDetailOption>)
        ensures
            r@ == match details_string {
                Some(d) => {
                    let parsed = parse_details_spec(
                        split_commas(d@),
                        split_commas(d@).len() as int,
                    );
                    dedup_options(parsed, parsed.len() as int)
                },
                None => Seq::<WindowDetailOption>::empty(),
            },
    {
        match details_string {
            Some(d) => {
                let parsed = parse_detail_list(d);
                let mut options: Vec<WindowDetailOption> = Vec::new();
                let n = parsed.len();
                let mut k: usize = 0;
                while k < n
                    invariant
                        n == parsed@.len(),
                        k <= n,
                        options@ == dedup_options(parsed@, k as int),
                    decreases n - k,
                {
                    if !options_contain(&options, parsed[k]) {
                        options.push(parsed[k]);
                    }
                    k += 1;
                }
                options
            },
            None => Vec::new(),
        }
    }

    /// Activating a window always succeeds in the stand-in backend.
    pub fn activate_window(&self, window_id: u32) -> (r: PeekabooResult<()>)
        ensures
            r is Ok,
    {
        let _ = window_id;
        Ok(())
    }

    /// The first window of the application whose title holds the given text,
    /// or a not-found failure when no title does.
    pub fn get_window_by_title(&self, pid: i32, title: &str) -> (r: PeekabooResult<WindowData>)
        ensures
            match r {
                Ok(w) => mock_window_spec(w) && seq_contains(w.title@, title@),
                Err(e) => e is WindowNotFound && !seq_contains("Mock Window"@, title@),
            },
    {
        let windows = match self.get_windows_for_app(pid) {
            Ok(ws) => ws,
            Err(e) => {
                return Err(e);
            },
        };
        let title_chars = str_chars(title);
        let n = windows.len();
        let mut i: usize = 0;
        while i < n
            invariant
                n == windows@.len(),
                n == 1,
                mock_window_spec(windows@[0]),
                i <= n,
                title_chars@ == title@,
                forall|k: int| 0 <= k < i ==> !seq_contains(windows@[k].title@, title@),
            decreases n - i,
        {
            let w_title = str_chars(windows[i].title.as_str());
            if crate::strings::chars_contains(&w_title, &title_chars) {
                return Ok(windows[i].clone());
            }
            i += 1;
        }
        Err(PeekabooError::WindowNotFound)
    }

    /// The window at the given position, frontmost first, or an
    /// invalid-index failure.
    pub fn get_window_by_index(&self, pid: i32, index: i32) -> (r: PeekabooResult<WindowData>)
        ensures
            match r {
                Ok(w) => 0 <= index < 1 && mock_window_spec(w),
                Err(e) => e == (PeekabooError::InvalidWindowIndex { index }) && !(0 <= index < 1),
            },
    {
        let windows = match self.get_windows_for_app(pid) {
            Ok(ws) => ws,
            Err(e) => {
                return Err(e);
            },
        };
        if index >= 0 && (index as usize) < windows.len() {
            Ok(windows[index as usize].clone())
        } else {
            Err(PeekabooError::invalid_window_index(index))
        }
    }
}

/// A title hit with no earlier hit is the first of any longer prefix.
proof fn lemma_first_title_found(ws: Seq<WindowData>, t: Seq<char>, i: int, n: int)
    requires
        0 <= i < ws.len(),
        first_title_match(ws, t, i) is None,
        seq_contains(ws[i].title@, t),
        i < n <= ws.len(),
    ensures
        first_title_match(ws, t, n) == Some(i),
    decreases n,
{
    if n > i + 1 {
        lemma_first_title_found(ws, t, i, n - 1);
    }
}

/// Pick the window a capture targets: a given title selects the first
/// window whose title holds it, a given index selects by position, and
/// with neither the frontmost window is taken.
pub fn select_target_window(
    windows: &Vec<WindowData>,
    window_title: &Option<String>,
    window_index: Option<i32>,
) -> (r: PeekabooResult<WindowData>)
    requires
        windows@.len() > 0,
    ensures
        match window_title {
            Some(t) => match first_title_match(windows@, t@, windows@.len() as int) {
                Some(j) => r matches Ok(w) && w == windows@[j],
                None => r matches Err(e) && e is WindowNotFound,
            },
            None => match window_index {
                Some(i) => {
                    if 0 <= i < windows@.len() {
                        r matches Ok(w) && w == windows@[i as int]
                    } else {
                        r == Err::<WindowData, PeekabooError>(
                            PeekabooError::InvalidWindowIndex { index: i },
                        )
                    }
                },
                None => r matches Ok(w) && w == windows@[0],
            },
        },
{
    match window_title {
        Some(t) => {
            let t_chars = str_chars(t.as_str());
            let n = windows.len();
            let mut i: usize = 0;
            while i < n
                invariant
                    n == windows@.len(),
                    i <= n,
                    t_chars@ == t@,
                    window_title is Some,
                    window_title->0@ == t@,
                    first_title_match(windows@, t@, i as int) is None,
                decreases n - i,
            {
                let w_title = str_chars(windows[i].title.as_str());
                if crate::strings::chars_contains(&w_title, &t_chars) {
                    proof {
                        lemma_first_title_found(
                            windows@,
                            t@,
                            i as int,
                            windows@.len() as int,
                        );
                        assert(first_title_match(windows@, t@, windows@.len() as int) == Some(
                            i as int,
                        ));
                    }
                    let picked = windows[i].clone();
                    assert(picked == windows@[i as int]);
                    return Ok(picked);
                }
                i += 1;
            }
            Err(PeekabooError::WindowNotFound)
        },
        None => match window_index {
            Some(index) => {
                if index >= 0 && (index as usize) < windows.len() {
                    Ok(windows[index as usize].clone())
                } else {
                    Err(PeekabooError::invalid_window_index(index))
                }
            },
            None => Ok(windows[0].clone()),
        },
    }
}

/// Whether an option is already among the kept ones.
fn options_contain(v: &Vec<WindowDetailOption>, o: WindowDetailOption) -> (r: bool)
    ensures
        r == v@.contains(o),
{
    let n = v.len();
    let mut i: usize = 0;
    while i < n
        invariant
            n == v@.len(),
            i <= n,
            forall|k: int| 0 <= k < i ==> v@[k] != o,
        decreases n - i,
    {
        if v[i] == o {
            assert(v@.contains(o));
            return true;
        }
        i += 1;
    }
    assert(!v@.contains(o));
    false
}

} // verus!
