//! Naming the files a screen capture writes.  The capture itself is done by
//! outside tools run by the program around the library; the decision of
//! where each image goes is pure string work and lives here.

use vstd::prelude::*;

verus! {

use vstd::string::StringExecFns;
use crate::application_finder::{chars_has, contains_char};
use crate::cli::ImageFormat;
use crate::strings::{
    chars_rfind,
    i32_to_string,
    int_str,
    last_index_before,
    str_chars,
    string_from_chars,
    trim_end_char,
    trim_end_char_chars,
};

/// The piece of a path after its last separator.
pub open spec fn file_name_part(p: Seq<char>) -> Seq<char> {
    match last_index_before(p, '/', p.len() as int) {
        Some(i) => p.skip(i + 1),
        None => p,
    }
}

/// The piece of a path before its last separator: the root when the
/// separator leads, nothing when there is none.
pub open spec fn parent_part(p: Seq<char>) -> Seq<char> {
    match last_index_before(p, '/', p.len() as int) {
        Some(i) => {
            if i == 0 {
                seq!['/']
            } else {
                p.subrange(0, i)
            }
        },
        None => Seq::empty(),
    }
}

/// A filename without its extension: everything before the last dot,
/// unless that dot leads the name.
pub open spec fn stem_part(name: Seq<char>) -> Seq<char> {
    match last_index_before(name, '.', name.len() as int) {
        Some(i) => {
            if i > 0 {
                name.subrange(0, i)
            } else {
                name
            }
        },
        None => name,
    }
}

/// Where a capture of one screen is written.  A base holding a dot and not
/// ending in a separator is taken for a file name, and the screen's number
/// is spliced in before its extension; any other base is taken for a
/// directory and gains a fresh timestamped name.
pub open spec fn screen_filename_spec(
    base: Seq<char>,
    screen_index: Option<i32>,
    timestamp: Seq<char>,
    format: ImageFormat,
) -> Seq<char> {
    let ext = format.extension_spec();
    if contains_char(base, '.') && !(base.len() > 0 && base[base.len() - 1] == '/') {
        match screen_index {
            Some(i) => parent_part(base) + "/"@ + stem_part(file_name_part(base)) + "_"@ + int_str(
                i + 1,
            ) + "."@ + ext,
            None => base,
        }
    } else {
        let t = trim_end_char(base, '/');
        match screen_index {
            Some(i) => t + "/screen_"@ + int_str(i + 1) + "_"@ + timestamp + "."@ + ext,
            None => t + "/screen_"@ + timestamp + "."@ + ext,
        }
    }
}

/// Names capture files; the pixels themselves come from outside tools.
pub struct ScreenCapture {}

impl ScreenCapture {
    /// A fresh capturer.
    pub fn new() -> (r: ScreenCapture) {
        ScreenCapture {  }
    }

    /// Where the capture of the given screen goes, exactly as
    /// [`screen_filename_spec`] lays it out; the timestamp is supplied by
    /// the caller.
    pub fn generate_screen_filename(
        &self,
        base_path: &str,
        screen_index: Option<i32>,
        format: &ImageFormat,
        timestamp: &str,
    ) -> (r: String)
        requires
            match screen_index {
                Some(i) => i < i32::MAX,
                None => true,
            },
        ensures
            r@ == screen_filename_spec(
                base_path@,
                screen_index,
                timestamp@,
                *format,
            ),
    {
        let chars = str_chars(base_path);
        let n = chars.len();
        let has_dot = chars_has(&chars, '.');
        let ends_slash = n > 0 && chars[n - 1] == '/';
        if has_dot && !ends_slash {
            match screen_index {
                Some(index) => {
                    let mut r: String;
                    let name_start: usize;
                    match chars_rfind(&chars, '/') {
                        Some(p) => {
                            if p == 0 {
                                proof {
                                    reveal_strlit("/");
                                }
                                r = String::from_str("/");
                                proof {
                                    assert(r@ =~= parent_part(base_path@));
                                }
                            } else {
                                let mut head: Vec<char> = Vec::new();
                                let mut k: usize = 0;
                                while k < p
                                    invariant
                                        k <= p,
                                        p < chars@.len(),
                                        chars@ == base_path@,
                                        head@ == base_path@.subrange(0, k as int),
                                    decreases p - k,
                                {
                                    head.push(chars[k]);
                                    proof {
                                        assert(head@ =~= base_path@.subrange(0, k as int + 1));
                                    }
                                    k += 1;
                                }
                                r = string_from_chars(&head);
                                proof {
                                    assert(r@ == parent_part(base_path@));
                                }
                            }
                            name_start = p + 1;
                        },
                        None => {
                            r = String::new();
                            proof {
                                assert(r@ =~= parent_part(base_path@));
                            }
                            name_start = 0;
                        },
                    }
                    let mut name: Vec<char> = Vec::new();
                    let mut k: usize = name_start;
                    while k < n
                        invariant
                            name_start <= k <= n,
                            n == chars@.len(),
                            chars@ == base_path@,
                            name@ == base_path@.subrange(name_start as int, k as int),
                        decreases n - k,
                    {
                        name.push(chars[k]);
                        proof {
                            assert(name@ =~= base_path@.subrange(
                                name_start as int,
                                k as int + 1,
                            ));
                        }
                        k += 1;
                    }
                    proof {
                        assert(name@ =~= file_name_part(base_path@));
                    }
                    let stem: Vec<char> = match chars_rfind(&name, '.') {
                        Some(p) => {
                            if p > 0 {
                                let mut stem_head: Vec<char> = Vec::new();
                                let mut j: usize = 0;
                                while j < p
                                    invariant
                                        j <= p,
                                        p < name@.len(),
                                        stem_head@ == name@.subrange(0, j as int),
                                    decreases p - j,
                                {
                                    stem_head.push(name[j]);
                                    proof {
                                        assert(stem_head@ =~= name@.subrange(0, j as int + 1));
                                    }
                                    j += 1;
                                }
                                stem_head
                            } else {
                                name
                            }
                        },
                        None => name,
                    };
                    r.append("/");
                    let stem_string = string_from_chars(&stem);
                    r.append(stem_string.as_str());
                    r.append("_");
                    let number = i32_to_string(index + 1);
                    r.append(number.as_str());
                    r.append(".");
                    r.append(format.extension());
                    proof {
                        reveal_strlit("/");
                        assert("/"@ =~= seq!['/']);
                        assert(r@ =~= screen_filename_spec(
                            base_path@,
                            screen_index,
                            timestamp@,
                            *format,
                        ));
                    }
                    r
                },
                None => {
                    let r = String::from_str(base_path);
                    r
                },
            }
        } else {
            let trimmed = trim_end_char_chars(&chars, '/');
            let mut r = string_from_chars(&trimmed);
            r.append("/screen_");
            match screen_index {
                Some(index) => {
                    let number = i32_to_string(index + 1);
                    r.append(number.as_str());
                    r.append("_");
                },
                None => {},
            }
            r.append(timestamp);
            r.append(".");
            r.append(format.extension());
            proof {
                assert(r@ =~= screen_filename_spec(
                    base_path@,
                    screen_index,
                    timestamp@,
                    *format,
                ));
            }
            r
        }
    }
}

} // verus!
