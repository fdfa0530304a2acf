//! Filename hygiene and path joining on plain strings.

use vstd::prelude::*;

verus! {

use vstd::string::StrSliceExecFns;
use vstd::string::StringExecFns;
use crate::strings::{str_chars, string_from_chars, trim_chars, trim_spec};

/// Whether `c` may appear in a filename unchanged: ASCII letters and digits,
/// dot, dash, underscore and space.
pub open spec fn is_filename_safe_char(c: char) -> bool {
    let u = c as u32;
    (0x30 <= u && u <= 0x39) || (0x41 <= u && u <= 0x5A) || (0x61 <= u && u <= 0x7A) || u == 0x2E
        || u == 0x2D || u == 0x5F || u == 0x20
}

/// The character written for `c` in a sanitized filename: anything outside
/// the safe set becomes an underscore.
pub open spec fn sanitize_char(c: char) -> char {
    if is_filename_safe_char(c) {
        c
    } else {
        '_'
    }
}

/// Every character mapped through [`sanitize_char`].
pub open spec fn sanitize_map(s: Seq<char>) -> Seq<char> {
    Seq::new(s.len(), |i: int| sanitize_char(s[i]))
}

/// What sanitizing yields: each character made safe, then surrounding white
/// space trimmed.
pub open spec fn sanitize_filename_spec(s: Seq<char>) -> Seq<char> {
    trim_spec(sanitize_map(s))
}

/// Replace every character that is not an ASCII letter, digit, dot, dash,
/// underscore or space with an underscore, then trim surrounding white
/// space.
pub fn sanitize_filename(filename: &str) -> (r: String)
    ensures
        r@ == sanitize_filename_spec(filename@),
{
    let chars = str_chars(filename);
    let n = chars.len();
    let mut mapped: Vec<char> = Vec::new();
    let mut i: usize = 0;
    while i < n
        invariant
            n == chars@.len(),
            chars@ == filename@,
            i <= n,
            mapped@ == sanitize_map(filename@).subrange(0, i as int),
        decreases n - i,
    {
        let c = chars[i];
        let u = c as u32;
        let safe = (0x30 <= u && u <= 0x39) || (0x41 <= u && u <= 0x5A) || (0x61 <= u && u
            <= 0x7A) || u == 0x2E || u == 0x2D || u == 0x5F || u == 0x20;
        if safe {
            mapped.push(c);
        } else {
            mapped.push('_');
        }
        proof {
            assert(mapped@ =~= sanitize_map(filename@).subrange(0, i as int + 1));
        }
        i += 1;
    }
    proof {
        assert(mapped@ =~= sanitize_map(filename@));
    }
    let trimmed = trim_chars(&mapped);
    string_from_chars(&trimmed)
}

/// What a numbered filename looks like: the stem, the number, and the
/// extension when there is one.
pub open spec fn numbered_filename_spec(stem: Seq<char>, ext: Seq<char>, n: int) -> Seq<char> {
    if ext.len() == 0 {
        stem + "_"@ + crate::strings::dec_str(n)
    } else {
        stem + "_"@ + crate::strings::dec_str(n) + "."@ + ext
    }
}

/// The `n`-th alternative name tried for an already-taken filename: the
/// stem gains the number, and the extension is kept.
pub fn numbered_filename(stem: &str, ext: &str, n: u32) -> (r: String)
    ensures
        r@ == numbered_filename_spec(stem@, ext@, n as int),
{
    let mut r = String::from_str(stem);
    r.append("_");
    let number = crate::strings::u64_to_string(n as u64);
    r.append(number.as_str());
    if ext.unicode_len() > 0 {
        r.append(".");
        r.append(ext);
    }
    proof {
        assert(r@ =~= numbered_filename_spec(stem@, ext@, n as int));
    }
    r
}

/// What joining yields: an absolute second component stands alone; an empty
/// base disappears; otherwise the two are joined with exactly one slash.
pub open spec fn join_path_spec(base: Seq<char>, file: Seq<char>) -> Seq<char> {
    if file.len() > 0 && file[0] == '/' {
        file
    } else if base.len() == 0 {
        file
    } else if base[base.len() - 1] == '/' {
        base + file
    } else {
        base + seq!['/'] + file
    }
}

/// Join a base path and a filename with exactly one separator, the way the
/// platform's path type does it: an absolute filename replaces the base, an
/// empty base is dropped, and a base already ending in a slash gains none.
pub fn join_path(base: &str, filename: &str) -> (r: String)
    ensures
        r@ == join_path_spec(base@, filename@),
{
    let file_len = filename.unicode_len();
    if file_len > 0 && filename.get_char(0) == '/' {
        return String::from_str(filename);
    }
    let base_len = base.unicode_len();
    if base_len == 0 {
        return String::from_str(filename);
    }
    let mut r = String::from_str(base);
    if base.get_char(base_len - 1) != '/' {
        r.append("/");
        proof {
            reveal_strlit("/");
            assert(r@ =~= base@ + seq!['/']);
        }
    }
    r.append(filename);
    proof {
        assert(r@ =~= join_path_spec(base@, filename@));
    }
    r
}

} // verus!
