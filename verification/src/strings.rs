//! Character-level string helpers.
//!
//! The matching logic works on `Vec<char>` so that every index step is
//! verified; this module supplies the conversions and the verified
//! prefix/substring/equality checks, together with the one trusted wrapper
//! around `str::to_lowercase`.

use vstd::prelude::*;

verus! {

use vstd::string::StrSliceExecFns;
use vstd::string::StringExecFns;

/// The Unicode lowercasing of a character sequence, as `str::to_lowercase`
/// computes it.  The mapping is a fixed function of the characters alone; its
/// full definition (the Unicode case-folding tables) is not restated here.
pub uninterp spec fn lower_of(s: Seq<char>) -> Seq<char>;

/// Relies on `str::to_lowercase`: the result depends on the characters alone,
/// and a string is empty exactly when its lowercase form is empty.
#[verifier::external_body]
pub fn lowercase(s: &str) -> (r: String)
    ensures
        r@ == lower_of(s@),
        (s@.len() == 0) == (r@.len() == 0),
{
    s.to_lowercase()
}

/// An owned copy of a string slice.
pub fn string_copy(s: &str) -> (r: String)
    ensures
        r@ == s@,
{
    String::from_str(s)
}

/// The characters of `s`, one per element, in order.
pub fn str_chars(s: &str) -> (r: Vec<char>)
    ensures
        r@ == s@,
{
    let n: usize = s.unicode_len();
    let mut r: Vec<char> = Vec::new();
    let mut i: usize = 0;
    while i < n
        invariant
            n == s@.len(),
            i <= n,
            r@ == s@.subrange(0, i as int),
        decreases n - i,
    {
        r.push(s.get_char(i));
        i += 1;
        proof {
            assert(r@ =~= s@.subrange(0, i as int));
        }
    }
    proof {
        assert(r@ =~= s@);
    }
    r
}

/// The two string slices hold the same characters.
pub fn str_eq(a: &str, b: &str) -> (r: bool)
    ensures
        r == (a@ == b@),
{
    let la = a.unicode_len();
    let lb = b.unicode_len();
    if la != lb {
        return false;
    }
    let mut i: usize = 0;
    while i < la
        invariant
            la == a@.len(),
            la == b@.len(),
            i <= la,
            forall|j: int| 0 <= j < i ==> a@[j] == b@[j],
        decreases la - i,
    {
        if a.get_char(i) != b.get_char(i) {
            return false;
        }
        i += 1;
    }
    proof {
        assert(a@ =~= b@);
    }
    true
}

/// `p` is an initial segment of `s`.
pub open spec fn is_prefix(p: Seq<char>, s: Seq<char>) -> bool {
    p.len() <= s.len() && p == s.subrange(0, p.len() as int)
}

/// `needle` occurs in `hay` starting at position `i`.
pub open spec fn contains_at(hay: Seq<char>, needle: Seq<char>, i: int) -> bool {
    0 <= i && i + needle.len() <= hay.len() && needle == hay.subrange(i, i + needle.len() as int)
}

/// `needle` occurs somewhere in `hay` as a contiguous run.
pub open spec fn seq_contains(hay: Seq<char>, needle: Seq<char>) -> bool {
    exists|i: int| contains_at(hay, needle, i)
}

/// The two character vectors hold the same sequence.
pub fn chars_eq(a: &Vec<char>, b: &Vec<char>) -> (r: bool)
    ensures
        r == (a@ == b@),
{
    if a.len() != b.len() {
        return false;
    }
    let n = a.len();
    let mut i: usize = 0;
    while i < n
        invariant
            n == a@.len(),
            n == b@.len(),
            i <= n,
            forall|j: int| 0 <= j < i ==> a@[j] == b@[j],
        decreases n - i,
    {
        if a[i] != b[i] {
            return false;
        }
        i += 1;
    }
    proof {
        assert(a@ =~= b@);
    }
    true
}

/// `needle` occurs in `hay` at position `i` (both given as vectors).
pub fn matches_at(hay: &Vec<char>, needle: &Vec<char>, i: usize) -> (r: bool)
    requires
        i + needle@.len() <= hay@.len(),
    ensures
        r == contains_at(hay@, needle@, i as int),
{
    let n = needle.len();
    let hay_len = hay.len();
    let mut j: usize = 0;
    while j < n
        invariant
            n == needle@.len(),
            i + n <= hay@.len(),
            hay@.len() == hay_len,
            j <= n,
            forall|k: int| 0 <= k < j ==> needle@[k] == hay@[i + k],
        decreases n - j,
    {
        if needle[j] != hay[i + j] {
            assert(needle@ != hay@.subrange(i as int, i + n as int));
            return false;
        }
        j += 1;
    }
    proof {
        assert(needle@ =~= hay@.subrange(i as int, i + n as int));
    }
    true
}

/// `p@` is an initial segment of `s@`.
pub fn chars_prefix(p: &Vec<char>, s: &Vec<char>) -> (r: bool)
    ensures
        r == is_prefix(p@, s@),
{
    if p.len() > s.len() {
        return false;
    }
    let r = matches_at(s, p, 0);
    proof {
        assert(contains_at(s@, p@, 0) == is_prefix(p@, s@));
    }
    r
}

/// The Unicode uppercase mapping of one character, as `char::to_uppercase`
/// yields it (one character can map to several).
pub uninterp spec fn upper_of_char(c: char) -> Seq<char>;

/// Relies on `char::to_uppercase`: the mapping depends on the character
/// alone.
#[verifier::external_body]
pub fn uppercase_char(c: char) -> (r: String)
    ensures
        r@ == upper_of_char(c),
{
    c.to_uppercase().collect()
}

/// Relies on `String::from_iter`: the built string holds exactly the given
/// characters, in order.
#[verifier::external_body]
pub fn string_from_chars(v: &Vec<char>) -> (r: String)
    ensures
        r@ == v@,
{
    v.iter().collect()
}

/// Whether `c` carries the Unicode white-space property, as
/// `char::is_whitespace` decides it.
pub open spec fn is_whitespace_char(c: char) -> bool {
    let u = c as u32;
    u == 0x20 || u == 0x9 || u == 0xA || u == 0xB || u == 0xC || u == 0xD || u == 0x85 || u == 0xA0
        || u == 0x1680 || (0x2000 <= u && u <= 0x200A) || u == 0x2028 || u == 0x2029 || u == 0x202F
        || u == 0x205F || u == 0x3000
}

/// Whether `c` carries the Unicode white-space property.
pub fn char_is_whitespace(c: char) -> (r: bool)
    ensures
        r == is_whitespace_char(c),
{
    let u = c as u32;
    u == 0x20 || u == 0x9 || u == 0xA || u == 0xB || u == 0xC || u == 0xD || u == 0x85 || u == 0xA0
        || u == 0x1680 || (0x2000 <= u && u <= 0x200A) || u == 0x2028 || u == 0x2029 || u == 0x202F
        || u == 0x205F || u == 0x3000
}

/// `s` with its leading white space dropped.
pub open spec fn trim_start_spec(s: Seq<char>) -> Seq<char>
    decreases s.len(),
{
    if s.len() > 0 && is_whitespace_char(s[0]) {
        trim_start_spec(s.drop_first())
    } else {
        s
    }
}

/// `s` with its trailing white space dropped.
pub open spec fn trim_end_spec(s: Seq<char>) -> Seq<char>
    decreases s.len(),
{
    if s.len() > 0 && is_whitespace_char(s[s.len() - 1]) {
        trim_end_spec(s.drop_last())
    } else {
        s
    }
}

/// `s` with white space dropped from both ends, as `str::trim` yields it.
pub open spec fn trim_spec(s: Seq<char>) -> Seq<char> {
    trim_end_spec(trim_start_spec(s))
}

/// Dropping leading white space keeps exactly the tail from the first
/// non-white-space position on.
proof fn lemma_trim_start_index(s: Seq<char>, lo: int)
    requires
        0 <= lo <= s.len(),
        forall|k: int| 0 <= k < lo ==> is_whitespace_char(s[k]),
        lo < s.len() ==> !is_whitespace_char(s[lo]),
    ensures
        trim_start_spec(s) == s.subrange(lo, s.len() as int),
    decreases lo,
{
    if lo == 0 {
        assert(trim_start_spec(s) =~= s.subrange(0, s.len() as int));
    } else {
        lemma_trim_start_index(s.drop_first(), lo - 1);
        assert(s.drop_first().subrange(lo - 1, s.drop_first().len() as int) =~= s.subrange(
            lo,
            s.len() as int,
        ));
    }
}

/// Dropping trailing white space keeps exactly the head up to the last
/// non-white-space position.
proof fn lemma_trim_end_index(s: Seq<char>, hi: int)
    requires
        0 <= hi <= s.len(),
        forall|k: int| hi <= k < s.len() ==> is_whitespace_char(s[k]),
        hi > 0 ==> !is_whitespace_char(s[hi - 1]),
    ensures
        trim_end_spec(s) == s.subrange(0, hi),
    decreases s.len(),
{
    if hi == s.len() {
        if s.len() > 0 {
            assert(trim_end_spec(s) =~= s.subrange(0, hi));
        } else {
            assert(trim_end_spec(s) =~= s.subrange(0, hi));
        }
    } else {
        lemma_trim_end_index(s.drop_last(), hi);
        assert(s.drop_last().subrange(0, hi) =~= s.subrange(0, hi));
    }
}

/// The characters of `v` with white space dropped from both ends.
pub fn trim_chars(v: &Vec<char>) -> (r: Vec<char>)
    ensures
        r@ == trim_spec(v@),
{
    let n = v.len();
    let mut lo: usize = 0;
    while lo < n && char_is_whitespace(v[lo])
        invariant
            n == v@.len(),
            lo <= n,
            forall|k: int| 0 <= k < lo ==> is_whitespace_char(v@[k]),
        decreases n - lo,
    {
        lo += 1;
    }
    proof {
        lemma_trim_start_index(v@, lo as int);
    }
    if lo == n {
        let r: Vec<char> = Vec::new();
        proof {
            assert(trim_start_spec(v@) =~= Seq::<char>::empty());
            assert(trim_spec(v@) =~= r@);
        }
        return r;
    }
    let mut hi: usize = n;
    while hi > lo && char_is_whitespace(v[hi - 1])
        invariant
            n == v@.len(),
            lo < hi <= n,
            lo < n,
            !is_whitespace_char(v@[lo as int]),
            forall|k: int| hi <= k < n ==> is_whitespace_char(v@[k]),
        decreases hi,
    {
        hi -= 1;
    }
    assert(hi > lo);
    let ghost tail = v@.subrange(lo as int, n as int);
    proof {
        lemma_trim_end_index(tail, hi - lo);
        assert(forall|k: int| hi - lo <= k < tail.len() ==> is_whitespace_char(tail[k]));
    }
    let mut r: Vec<char> = Vec::new();
    let mut k: usize = lo;
    while k < hi
        invariant
            lo <= k <= hi <= n,
            n == v@.len(),
            r@ == v@.subrange(lo as int, k as int),
        decreases hi - k,
    {
        r.push(v[k]);
        proof {
            assert(r@ =~= v@.subrange(lo as int, k as int + 1));
        }
        k += 1;
    }
    proof {
        assert(tail.subrange(0, hi - lo) =~= v@.subrange(lo as int, hi as int));
        assert(r@ == trim_spec(v@));
    }
    r
}

/// Lexicographic order on character sequences, by code point: the order
/// `str`'s own comparison gives.
pub open spec fn lex_le(a: Seq<char>, b: Seq<char>) -> bool
    decreases a.len(),
{
    if a.len() == 0 {
        true
    } else if b.len() == 0 {
        false
    } else if (a[0] as u32) < (b[0] as u32) {
        true
    } else if (a[0] as u32) > (b[0] as u32) {
        false
    } else {
        lex_le(a.drop_first(), b.drop_first())
    }
}

/// Whether `a@` precedes or equals `b@` in lexicographic order.
pub fn chars_lex_le(a: &Vec<char>, b: &Vec<char>) -> (r: bool)
    ensures
        r == lex_le(a@, b@),
{
    let la = a.len();
    let lb = b.len();
    let mut i: usize = 0;
    proof {
        assert(a@.skip(0) =~= a@);
        assert(b@.skip(0) =~= b@);
    }
    loop
        invariant
            la == a@.len(),
            lb == b@.len(),
            i <= la,
            i <= lb,
            lex_le(a@, b@) == lex_le(a@.skip(i as int), b@.skip(i as int)),
        decreases la - i,
    {
        if i >= la {
            proof {
                assert(a@.skip(i as int).len() == 0);
            }
            return true;
        }
        if i >= lb {
            proof {
                assert(b@.skip(i as int).len() == 0);
                assert(a@.skip(i as int).len() > 0);
            }
            return false;
        }
        let ca = a[i] as u32;
        let cb = b[i] as u32;
        proof {
            assert(a@.skip(i as int)[0] == a@[i as int]);
            assert(b@.skip(i as int)[0] == b@[i as int]);
        }
        if ca < cb {
            return true;
        }
        if ca > cb {
            return false;
        }
        i += 1;
        proof {
            assert(a@.skip(i - 1).drop_first() =~= a@.skip(i as int));
            assert(b@.skip(i - 1).drop_first() =~= b@.skip(i as int));
        }
    }
}

/// Splitting at a separator, processed left to right over the first `i`
/// characters: the finished segments, and the one still open.
pub open spec fn split_on_state(s: Seq<char>, sep: char, i: int) -> (Seq<Seq<char>>, Seq<char>)
    decreases i,
{
    if i <= 0 {
        (Seq::empty(), Seq::empty())
    } else {
        let (acc, cur) = split_on_state(s, sep, i - 1);
        if 0 <= i - 1 < s.len() && s[i - 1] == sep {
            (acc.push(cur), Seq::empty())
        } else if 0 <= i - 1 < s.len() {
            (acc, cur.push(s[i - 1]))
        } else {
            (acc, cur)
        }
    }
}

/// The segments of `s` between occurrences of `sep`, separators dropped; an
/// empty string yields one empty segment.
pub open spec fn split_on(s: Seq<char>, sep: char) -> Seq<Seq<char>> {
    let (acc, cur) = split_on_state(s, sep, s.len() as int);
    acc.push(cur)
}

/// The comma-separated segments of `s`.
pub open spec fn split_commas(s: Seq<char>) -> Seq<Seq<char>> {
    split_on(s, ',')
}

/// The segments of the characters between occurrences of `sep`, in order.
pub fn split_on_chars(v: &Vec<char>, sep: char) -> (r: Vec<Vec<char>>)
    ensures
        r@.len() == split_on(v@, sep).len(),
        forall|k: int| 0 <= k < r@.len() ==> r@[k]@ == split_on(v@, sep)[k],
{
    let n = v.len();
    let mut acc: Vec<Vec<char>> = Vec::new();
    let mut cur: Vec<char> = Vec::new();
    let mut i: usize = 0;
    while i < n
        invariant
            n == v@.len(),
            i <= n,
            acc@.len() == split_on_state(v@, sep, i as int).0.len(),
            forall|k: int|
                0 <= k < acc@.len() ==> acc@[k]@ == split_on_state(v@, sep, i as int).0[k],
            cur@ == split_on_state(v@, sep, i as int).1,
        decreases n - i,
    {
        if v[i] == sep {
            acc.push(cur);
            cur = Vec::new();
        } else {
            cur.push(v[i]);
        }
        i += 1;
    }
    acc.push(cur);
    acc
}

/// The comma-separated segments of the characters, in order.
pub fn split_commas_chars(v: &Vec<char>) -> (r: Vec<Vec<char>>)
    ensures
        r@.len() == split_commas(v@).len(),
        forall|k: int| 0 <= k < r@.len() ==> r@[k]@ == split_commas(v@)[k],
{
    split_on_chars(v, ',')
}

/// Splitting at white-space runs, processed left to right over the first
/// `i` characters: the finished tokens, and the one still open.  Empty
/// tokens never arise.
pub open spec fn ws_tokens_state(s: Seq<char>, i: int) -> (Seq<Seq<char>>, Seq<char>)
    decreases i,
{
    if i <= 0 {
        (Seq::empty(), Seq::empty())
    } else {
        let (acc, cur) = ws_tokens_state(s, i - 1);
        if 0 <= i - 1 < s.len() {
            if is_whitespace_char(s[i - 1]) {
                if cur.len() > 0 {
                    (acc.push(cur), Seq::empty())
                } else {
                    (acc, cur)
                }
            } else {
                (acc, cur.push(s[i - 1]))
            }
        } else {
            (acc, cur)
        }
    }
}

/// The white-space-separated tokens of `s`: maximal runs of
/// non-white-space.
pub open spec fn ws_tokens(s: Seq<char>) -> Seq<Seq<char>> {
    let (acc, cur) = ws_tokens_state(s, s.len() as int);
    if cur.len() > 0 {
        acc.push(cur)
    } else {
        acc
    }
}

/// The white-space-separated tokens of the characters, in order.
pub fn split_whitespace_chars(v: &Vec<char>) -> (r: Vec<Vec<char>>)
    ensures
        r@.len() == ws_tokens(v@).len(),
        forall|k: int| 0 <= k < r@.len() ==> r@[k]@ == ws_tokens(v@)[k],
{
    let n = v.len();
    let mut acc: Vec<Vec<char>> = Vec::new();
    let mut cur: Vec<char> = Vec::new();
    let mut i: usize = 0;
    while i < n
        invariant
            n == v@.len(),
            i <= n,
            acc@.len() == ws_tokens_state(v@, i as int).0.len(),
            forall|k: int|
                0 <= k < acc@.len() ==> acc@[k]@ == ws_tokens_state(v@, i as int).0[k],
            cur@ == ws_tokens_state(v@, i as int).1,
        decreases n - i,
    {
        if char_is_whitespace(v[i]) {
            if cur.len() > 0 {
                acc.push(cur);
                cur = Vec::new();
            }
        } else {
            cur.push(v[i]);
        }
        i += 1;
    }
    if cur.len() > 0 {
        acc.push(cur);
    }
    acc
}

/// Whether `c` is an ASCII decimal digit.
pub open spec fn is_digit(c: char) -> bool {
    0x30 <= c as u32 && c as u32 <= 0x39
}

/// The value of an ASCII decimal digit; anything else counts zero.
pub open spec fn digit_val(c: char) -> int {
    if is_digit(c) {
        c as u32 - 0x30
    } else {
        0
    }
}

/// The number the first `i` digits denote, most significant first.
pub open spec fn digits_value(s: Seq<char>, i: int) -> int
    decreases i,
{
    if i <= 0 {
        0
    } else {
        digits_value(s, i - 1) * 10 + (if 0 <= i - 1 < s.len() {
            digit_val(s[i - 1])
        } else {
            0
        })
    }
}

/// A non-empty, all-digit sequence.
pub open spec fn all_digits(s: Seq<char>) -> bool {
    s.len() > 0 && forall|k: int| 0 <= k < s.len() ==> is_digit(#[trigger] s[k])
}

/// What `str::parse::<i32>` accepts and yields: an optional sign, then
/// digits only, with the value in range.
pub open spec fn parse_i32_spec(s: Seq<char>) -> Option<i32> {
    let neg = s.len() > 0 && s[0] == '-';
    let mag = if s.len() > 0 && (s[0] == '-' || s[0] == '+') {
        s.drop_first()
    } else {
        s
    };
    if !all_digits(mag) {
        None
    } else {
        let v = digits_value(mag, mag.len() as int);
        if neg {
            if v <= 0x8000_0000 {
                Some((-v) as i32)
            } else {
                None
            }
        } else {
            if v <= 0x7FFF_FFFF {
                Some(v as i32)
            } else {
                None
            }
        }
    }
}

/// A digit run's value is never negative.
proof fn lemma_digits_value_nonneg(s: Seq<char>, i: int)
    ensures
        digits_value(s, i) >= 0,
    decreases i,
{
    if i > 0 {
        lemma_digits_value_nonneg(s, i - 1);
    }
}

/// A digit run's value never shrinks as more digits are read.
proof fn lemma_digits_value_grows(s: Seq<char>, i: int, n: int)
    requires
        i <= n,
    ensures
        digits_value(s, n) >= digits_value(s, i),
    decreases n - i,
{
    if i < n {
        lemma_digits_value_grows(s, i, n - 1);
        lemma_digits_value_nonneg(s, n - 1);
    }
}

/// Parse a signed decimal number exactly as `str::parse::<i32>` does:
/// an optional sign, then at least one digit, nothing else, value in range.
pub fn parse_i32_chars(v: &Vec<char>) -> (r: Option<i32>)
    ensures
        r == parse_i32_spec(v@),
{
    let n = v.len();
    let mut start: usize = 0;
    let mut neg = false;
    if n > 0 && v[0] == '-' {
        neg = true;
        start = 1;
    } else if n > 0 && v[0] == '+' {
        start = 1;
    }
    let ghost mag = if v@.len() > 0 && (v@[0] == '-' || v@[0] == '+') {
        v@.drop_first()
    } else {
        v@
    };
    proof {
        assert(mag =~= v@.skip(start as int));
    }
    if start >= n {
        assert(mag.len() == 0);
        return None;
    }
    let mut acc: u64 = 0;
    let mut i: usize = start;
    while i < n
        invariant
            n == v@.len(),
            start <= i <= n,
            start <= 1,
            neg == (v@.len() > 0 && v@[0] == '-'),
            (start == 1) == (v@.len() > 0 && (v@[0] == '-' || v@[0] == '+')),
            mag == v@.skip(start as int),
            mag == (if v@.len() > 0 && (v@[0] == '-' || v@[0] == '+') {
                v@.drop_first()
            } else {
                v@
            }),
            forall|k: int| 0 <= k < i - start ==> is_digit(#[trigger] mag[k]),
            acc as int == digits_value(mag, i - start),
            acc <= 0xFFFF_FFFF_FFFF,
        decreases n - i,
    {
        let c = v[i];
        let u = c as u32;
        if !(0x30 <= u && u <= 0x39) {
            assert(!is_digit(mag[i - start]));
            assert(!all_digits(mag));
            return None;
        }
        if acc > 0xFFFF_FFFF {
            // The value read so far already exceeds the i32 range; whatever
            // the rest holds, the answer is a rejection.
            proof {
                if all_digits(mag) {
                    lemma_digits_value_grows(mag, i - start, mag.len() as int);
                }
            }
            return None;
        }
        acc = acc * 10 + ((u - 0x30) as u64);
        i += 1;
    }
    assert(i - start == mag.len());
    assert(all_digits(mag));
    if neg {
        if acc <= 0x8000_0000 {
            let value = -(acc as i64);
            Some(value as i32)
        } else {
            None
        }
    } else {
        if acc <= 0x7FFF_FFFF {
            Some(acc as i32)
        } else {
            None
        }
    }
}

/// Whether `c` is an ASCII hexadecimal digit.
pub open spec fn is_hex_digit(c: char) -> bool {
    is_digit(c) || (0x41 <= c as u32 && c as u32 <= 0x46) || (0x61 <= c as u32 && c as u32
        <= 0x66)
}

/// The value of an ASCII hexadecimal digit; anything else counts zero.
pub open spec fn hex_val(c: char) -> int {
    if is_digit(c) {
        c as u32 - 0x30
    } else if 0x41 <= c as u32 && c as u32 <= 0x46 {
        c as u32 - 0x41 + 10
    } else if 0x61 <= c as u32 && c as u32 <= 0x66 {
        c as u32 - 0x61 + 10
    } else {
        0
    }
}

/// The number the first `i` hexadecimal digits denote, most significant
/// first.
pub open spec fn hex_value(s: Seq<char>, i: int) -> int
    decreases i,
{
    if i <= 0 {
        0
    } else {
        hex_value(s, i - 1) * 16 + (if 0 <= i - 1 < s.len() {
            hex_val(s[i - 1])
        } else {
            0
        })
    }
}

/// A non-empty, all-hexadecimal sequence.
pub open spec fn all_hex_digits(s: Seq<char>) -> bool {
    s.len() > 0 && forall|k: int| 0 <= k < s.len() ==> is_hex_digit(#[trigger] s[k])
}

/// What `u32::from_str_radix(_, 16)` accepts and yields: an optional plus
/// sign, then hexadecimal digits only, with the value in range.
pub open spec fn parse_hex_u32_spec(s: Seq<char>) -> Option<u32> {
    let mag = if s.len() > 0 && s[0] == '+' {
        s.drop_first()
    } else {
        s
    };
    if !all_hex_digits(mag) {
        None
    } else {
        let v = hex_value(mag, mag.len() as int);
        if v <= 0xFFFF_FFFF {
            Some(v as u32)
        } else {
            None
        }
    }
}

/// A hexadecimal run's value is never negative.
proof fn lemma_hex_value_nonneg(s: Seq<char>, i: int)
    ensures
        hex_value(s, i) >= 0,
    decreases i,
{
    if i > 0 {
        lemma_hex_value_nonneg(s, i - 1);
    }
}

/// A hexadecimal run's value never shrinks as more digits are read.
proof fn lemma_hex_value_grows(s: Seq<char>, i: int, n: int)
    requires
        i <= n,
    ensures
        hex_value(s, n) >= hex_value(s, i),
    decreases n - i,
{
    if i < n {
        lemma_hex_value_grows(s, i, n - 1);
        lemma_hex_value_nonneg(s, n - 1);
    }
}

/// Parse an unsigned hexadecimal number exactly as
/// `u32::from_str_radix(_, 16)` does: an optional plus sign, then at least
/// one hexadecimal digit, nothing else, value in range.
pub fn parse_hex_u32_chars(v: &Vec<char>) -> (r: Option<u32>)
    ensures
        r == parse_hex_u32_spec(v@),
{
    let n = v.len();
    let mut start: usize = 0;
    if n > 0 && v[0] == '+' {
        start = 1;
    }
    let ghost mag = if v@.len() > 0 && v@[0] == '+' {
        v@.drop_first()
    } else {
        v@
    };
    proof {
        assert(mag =~= v@.skip(start as int));
    }
    if start >= n {
        assert(mag.len() == 0);
        return None;
    }
    let mut acc: u64 = 0;
    let mut i: usize = start;
    while i < n
        invariant
            n == v@.len(),
            start <= i <= n,
            start <= 1,
            (start == 1) == (v@.len() > 0 && v@[0] == '+'),
            mag == v@.skip(start as int),
            mag == (if v@.len() > 0 && v@[0] == '+' {
                v@.drop_first()
            } else {
                v@
            }),
            forall|k: int| 0 <= k < i - start ==> is_hex_digit(#[trigger] mag[k]),
            acc as int == hex_value(mag, i - start),
            acc <= 0xFFFF_FFFF_FFFF,
        decreases n - i,
    {
        let c = v[i];
        let u = c as u32;
        let d: u64 = if 0x30 <= u && u <= 0x39 {
            (u - 0x30) as u64
        } else if 0x41 <= u && u <= 0x46 {
            (u - 0x41 + 10) as u64
        } else if 0x61 <= u && u <= 0x66 {
            (u - 0x61 + 10) as u64
        } else {
            assert(!is_hex_digit(mag[i - start]));
            assert(!all_hex_digits(mag));
            return None;
        };
        if acc > 0xFFFF_FFFF {
            // Past the u32 range already; whatever follows, the answer is a
            // rejection.
            proof {
                if all_hex_digits(mag) {
                    lemma_hex_value_grows(mag, i - start, mag.len() as int);
                }
            }
            return None;
        }
        acc = acc * 16 + d;
        i += 1;
    }
    assert(i - start == mag.len());
    assert(all_hex_digits(mag));
    if acc <= 0xFFFF_FFFF {
        Some(acc as u32)
    } else {
        proof {
            assert(hex_value(mag, mag.len() as int) > 0xFFFF_FFFF);
        }
        None
    }
}

/// `s` with every leading repetition of `pre` removed; a prefix of length
/// zero removes nothing.
pub open spec fn strip_all_prefix(s: Seq<char>, pre: Seq<char>) -> Seq<char>
    decreases s.len(),
{
    if pre.len() > 0 && is_prefix(pre, s) {
        strip_all_prefix(s.skip(pre.len() as int), pre)
    } else {
        s
    }
}

/// The characters from position `from` on.
pub fn vec_tail(v: &Vec<char>, from: usize) -> (r: Vec<char>)
    requires
        from <= v@.len(),
    ensures
        r@ == v@.skip(from as int),
{
    let n = v.len();
    let mut r: Vec<char> = Vec::new();
    let mut i: usize = from;
    while i < n
        invariant
            from <= i <= n,
            n == v@.len(),
            r@ == v@.subrange(from as int, i as int),
        decreases n - i,
    {
        r.push(v[i]);
        proof {
            assert(r@ =~= v@.subrange(from as int, i as int + 1));
        }
        i += 1;
    }
    proof {
        assert(r@ =~= v@.skip(from as int));
    }
    r
}

/// `v` with every leading repetition of `pre` removed.
pub fn strip_all_prefix_chars(v: Vec<char>, pre: &Vec<char>) -> (r: Vec<char>)
    requires
        pre@.len() > 0,
    ensures
        r@ == strip_all_prefix(v@, pre@),
{
    let mut cur = v;
    let ghost orig = cur@;
    loop
        invariant
            pre@.len() > 0,
            strip_all_prefix(orig, pre@) == strip_all_prefix(cur@, pre@),
        ensures
            strip_all_prefix(orig, pre@) == cur@,
        decreases cur@.len(),
    {
        let hit = if pre.len() > cur.len() {
            false
        } else {
            matches_at(&cur, pre, 0)
        };
        proof {
            assert(contains_at(cur@, pre@, 0) == is_prefix(pre@, cur@));
        }
        if !hit {
            assert(strip_all_prefix(cur@, pre@) == cur@);
            break ;
        }
        cur = vec_tail(&cur, pre.len());
    }
    cur
}

/// One reported line: a trailing carriage return is dropped.
pub open spec fn line_of(seg: Seq<char>) -> Seq<char> {
    if seg.len() > 0 && seg[seg.len() - 1] == '\r' {
        seg.drop_last()
    } else {
        seg
    }
}

/// The lines of a text, as `str::lines` yields them: split at newlines, a
/// final empty piece dropped, trailing carriage returns removed.
pub open spec fn lines_of(s: Seq<char>) -> Seq<Seq<char>> {
    let segs = split_on(s, '\n');
    let kept = if segs.len() > 0 && segs[segs.len() - 1].len() == 0 {
        segs.drop_last()
    } else {
        segs
    };
    kept.map(|i: int, seg: Seq<char>| line_of(seg))
}

/// The lines of the characters, in order.
pub fn lines_chars(v: &Vec<char>) -> (r: Vec<Vec<char>>)
    ensures
        r@.len() == lines_of(v@).len(),
        forall|k: int| 0 <= k < r@.len() ==> r@[k]@ == lines_of(v@)[k],
{
    let mut segs = split_on_chars(v, '\n');
    let ghost spec_segs = split_on(v@, '\n');
    if segs.len() > 0 && segs[segs.len() - 1].len() == 0 {
        let _ = segs.pop();
    }
    let n = segs.len();
    let mut r: Vec<Vec<char>> = Vec::new();
    let mut k: usize = 0;
    while k < n
        invariant
            n == segs@.len(),
            k <= n,
            n == lines_of(v@).len(),
            forall|j: int| 0 <= j < n ==> line_of(segs@[j]@) == lines_of(v@)[j],
            r@.len() == k,
            forall|j: int| 0 <= j < k ==> r@[j]@ == lines_of(v@)[j],
        decreases n - k,
    {
        let seg = &segs[k];
        let len = seg.len();
        if len > 0 && seg[len - 1] == '\r' {
            let mut line = seg.clone();
            let _ = line.pop();
            proof {
                assert(line@ =~= line_of(segs@[k as int]@));
            }
            r.push(line);
        } else {
            r.push(seg.clone());
        }
        k += 1;
    }
    r
}

/// The tokens from position `from` on, joined with single spaces.
pub open spec fn join_tokens(tokens: Seq<Seq<char>>, from: int, i: int) -> Seq<char>
    decreases i - from,
{
    if i <= from {
        Seq::empty()
    } else if i == from + 1 {
        tokens[from]
    } else {
        join_tokens(tokens, from, i - 1) + " "@ + tokens[i - 1]
    }
}

/// The first position of `c` in `s`, if any.
pub open spec fn first_index_of(s: Seq<char>, c: char, i: int) -> Option<int>
    decreases i,
{
    if i <= 0 {
        None
    } else {
        match first_index_of(s, c, i - 1) {
            Some(j) => Some(j),
            None => {
                if 0 <= i - 1 < s.len() && s[i - 1] == c {
                    Some(i - 1)
                } else {
                    None
                }
            },
        }
    }
}

/// The first position of `c`, if any.
pub fn chars_find(v: &Vec<char>, c: char) -> (r: Option<usize>)
    ensures
        match r {
            Some(p) => first_index_of(v@, c, v@.len() as int) == Some(p as int) && p < v@.len(),
            None => first_index_of(v@, c, v@.len() as int) is None,
        },
{
    let n = v.len();
    let mut i: usize = 0;
    while i < n
        invariant
            n == v@.len(),
            i <= n,
            first_index_of(v@, c, i as int) is None,
        decreases n - i,
    {
        if v[i] == c {
            proof {
                lemma_first_index_found(v@, c, i as int, n as int);
            }
            return Some(i);
        }
        i += 1;
    }
    None
}

/// The last position of `c` among the first `i` characters, if any.
pub open spec fn last_index_before(s: Seq<char>, c: char, i: int) -> Option<int>
    decreases i,
{
    if i <= 0 {
        None
    } else if 0 <= i - 1 < s.len() && s[i - 1] == c {
        Some(i - 1)
    } else {
        last_index_before(s, c, i - 1)
    }
}

/// The last position of `c`, if any.
pub fn chars_rfind(v: &Vec<char>, c: char) -> (r: Option<usize>)
    ensures
        match r {
            Some(p) => last_index_before(v@, c, v@.len() as int) == Some(p as int) && p
                < v@.len(),
            None => last_index_before(v@, c, v@.len() as int) is None,
        },
{
    let n = v.len();
    let mut i: usize = n;
    while i > 0
        invariant
            n == v@.len(),
            i <= n,
            last_index_before(v@, c, n as int) == last_index_before(v@, c, i as int),
        decreases i,
    {
        if v[i - 1] == c {
            return Some(i - 1);
        }
        i -= 1;
    }
    None
}

/// `s` with every trailing occurrence of `c` dropped.
pub open spec fn trim_end_char(s: Seq<char>, c: char) -> Seq<char>
    decreases s.len(),
{
    if s.len() > 0 && s[s.len() - 1] == c {
        trim_end_char(s.drop_last(), c)
    } else {
        s
    }
}

/// Dropping trailing occurrences keeps exactly the head up to the last
/// other character.
proof fn lemma_trim_end_char_index(s: Seq<char>, c: char, hi: int)
    requires
        0 <= hi <= s.len(),
        forall|k: int| hi <= k < s.len() ==> s[k] == c,
        hi > 0 ==> s[hi - 1] != c,
    ensures
        trim_end_char(s, c) == s.subrange(0, hi),
    decreases s.len(),
{
    if hi == s.len() {
        assert(trim_end_char(s, c) =~= s.subrange(0, hi));
    } else {
        lemma_trim_end_char_index(s.drop_last(), c, hi);
        assert(s.drop_last().subrange(0, hi) =~= s.subrange(0, hi));
    }
}

/// The characters with every trailing occurrence of `c` dropped.
pub fn trim_end_char_chars(v: &Vec<char>, c: char) -> (r: Vec<char>)
    ensures
        r@ == trim_end_char(v@, c),
{
    let n = v.len();
    let mut hi: usize = n;
    while hi > 0 && v[hi - 1] == c
        invariant
            n == v@.len(),
            hi <= n,
            forall|k: int| hi <= k < n ==> v@[k] == c,
        decreases hi,
    {
        hi -= 1;
    }
    proof {
        lemma_trim_end_char_index(v@, c, hi as int);
    }
    let mut r: Vec<char> = Vec::new();
    let mut i: usize = 0;
    while i < hi
        invariant
            i <= hi <= n,
            n == v@.len(),
            r@ == v@.subrange(0, i as int),
        decreases hi - i,
    {
        r.push(v[i]);
        proof {
            assert(r@ =~= v@.subrange(0, i as int + 1));
        }
        i += 1;
    }
    r
}

/// A hit with no earlier hit is the first of any longer prefix.
proof fn lemma_first_index_found(s: Seq<char>, c: char, i: int, n: int)
    requires
        0 <= i < s.len(),
        first_index_of(s, c, i) is None,
        s[i] == c,
        i < n <= s.len(),
    ensures
        first_index_of(s, c, n) == Some(i),
    decreases n,
{
    if n > i + 1 {
        lemma_first_index_found(s, c, i, n - 1);
    }
}

/// The character for one decimal digit.
pub open spec fn digit_char(d: int) -> char {
    if d == 0 {
        '0'
    } else if d == 1 {
        '1'
    } else if d == 2 {
        '2'
    } else if d == 3 {
        '3'
    } else if d == 4 {
        '4'
    } else if d == 5 {
        '5'
    } else if d == 6 {
        '6'
    } else if d == 7 {
        '7'
    } else if d == 8 {
        '8'
    } else {
        '9'
    }
}

/// The decimal digits of a non-negative number, most significant first.
pub open spec fn dec_str(n: int) -> Seq<char>
    decreases n,
{
    if n < 10 {
        seq![digit_char(n)]
    } else {
        dec_str(n / 10).push(digit_char(n % 10))
    }
}

/// The usual decimal rendering of an integer: a minus sign for negative
/// numbers, then the digits.
pub open spec fn int_str(n: int) -> Seq<char> {
    if n < 0 {
        seq!['-'] + dec_str(-n)
    } else {
        dec_str(n)
    }
}

/// The one-character string for a decimal digit.
fn digit_str(d: u64) -> (r: &'static str)
    requires
        d < 10,
    ensures
        r@ == seq![digit_char(d as int)],
{
    if d == 0 {
        proof {
            reveal_strlit("0");
        }
        let r = "0";
        proof {
            assert(r@ =~= seq![digit_char(d as int)]);
        }
        r
    } else if d == 1 {
        proof {
            reveal_strlit("1");
        }
        let r = "1";
        proof {
            assert(r@ =~= seq![digit_char(d as int)]);
        }
        r
    } else if d == 2 {
        proof {
            reveal_strlit("2");
        }
        let r = "2";
        proof {
            assert(r@ =~= seq![digit_char(d as int)]);
        }
        r
    } else if d == 3 {
        proof {
            reveal_strlit("3");
        }
        let r = "3";
        proof {
            assert(r@ =~= seq![digit_char(d as int)]);
        }
        r
    } else if d == 4 {
        proof {
            reveal_strlit("4");
        }
        let r = "4";
        proof {
            assert(r@ =~= seq![digit_char(d as int)]);
        }
        r
    } else if d == 5 {
        proof {
            reveal_strlit("5");
        }
        let r = "5";
        proof {
            assert(r@ =~= seq![digit_char(d as int)]);
        }
        r
    } else if d == 6 {
        proof {
            reveal_strlit("6");
        }
        let r = "6";
        proof {
            assert(r@ =~= seq![digit_char(d as int)]);
        }
        r
    } else if d == 7 {
        proof {
            reveal_strlit("7");
        }
        let r = "7";
        proof {
            assert(r@ =~= seq![digit_char(d as int)]);
        }
        r
    } else if d == 8 {
        proof {
            reveal_strlit("8");
        }
        let r = "8";
        proof {
            assert(r@ =~= seq![digit_char(d as int)]);
        }
        r
    } else {
        proof {
            reveal_strlit("9");
        }
        let r = "9";
        proof {
            assert(r@ =~= seq![digit_char(d as int)]);
        }
        r
    }
}

/// The decimal rendering of an unsigned number.
pub fn u64_to_string(n: u64) -> (r: String)
    ensures
        r@ == dec_str(n as int),
    decreases n,
{
    if n < 10 {
        String::from_str(digit_str(n))
    } else {
        let mut s = u64_to_string(n / 10);
        s.append(digit_str(n % 10));
        proof {
            assert(s@ =~= dec_str(n as int));
        }
        s
    }
}

/// The decimal rendering of a signed number, minus sign included.
pub fn i32_to_string(n: i32) -> (r: String)
    ensures
        r@ == int_str(n as int),
{
    if n < 0 {
        let magnitude: u64 = (-(n as i64)) as u64;
        proof {
            reveal_strlit("-");
        }
        let mut s = String::from_str("-");
        let digits = u64_to_string(magnitude);
        s.append(digits.as_str());
        proof {
            assert(s@ =~= int_str(n as int));
        }
        s
    } else {
        let r = u64_to_string(n as u64);
        r
    }
}

/// `needle@` occurs somewhere in `hay@`.
pub fn chars_contains(hay: &Vec<char>, needle: &Vec<char>) -> (r: bool)
    ensures
        r == seq_contains(hay@, needle@),
{
    if needle.len() > hay.len() {
        assert(forall|i: int| !contains_at(hay@, needle@, i));
        return false;
    }
    let last = hay.len() - needle.len();
    let mut i: usize = 0;
    loop
        invariant
            needle@.len() <= hay@.len(),
            last == hay@.len() - needle@.len(),
            i <= last,
            forall|j: int| 0 <= j < i ==> !contains_at(hay@, needle@, j),
        ensures
            forall|j: int| 0 <= j <= last ==> !contains_at(hay@, needle@, j),
        decreases last - i,
    {
        if matches_at(hay, needle, i) {
            return true;
        }
        if i == last {
            break;
        }
        i += 1;
    }
    assert(forall|j: int| !contains_at(hay@, needle@, j));
    false
}

} // verus!
