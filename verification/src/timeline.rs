//! The home-timeline decoder: a JSON array of tweet objects, each with a
//! `created_at` and a `text` string member, extra members ignored.
//!
//! The wire shape is this library's own grammar, so it is stated here as a
//! family of spec functions over the character sequence and the decoder is
//! proved to follow them exactly.  The grammar is plain JSON, restricted at
//! the top: the document must be one array of objects; any other shape, and
//! any structural fault anywhere (including inside ignored members), refuses
//! the whole document.

use vstd::prelude::*;
use crate::error::Error;
use crate::query::str_eq;

verus! {

/// An immutable record of one tweet: its platform-native creation timestamp
/// and its text body.
#[derive(Clone, Debug)]
pub struct Tweet {
    pub created_at: String,
    pub text: String,
}

/// The pair of character sequences a tweet holds.
pub open spec fn tweet_view(t: Tweet) -> (Seq<char>, Seq<char>) {
    (t.created_at@, t.text@)
}

/// The views of a tweet vector, in order.
pub open spec fn tweets_view(v: Seq<Tweet>) -> Seq<(Seq<char>, Seq<char>)> {
    Seq::new(v.len(), |i: int| tweet_view(v[i]))
}

/// JSON insignificant whitespace.
pub open spec fn is_json_ws(c: char) -> bool {
    c == ' ' || c == '\t' || c == '\n' || c == '\r'
}

/// The first position at or after `i` holding no whitespace.
pub open spec fn spec_skip_ws(s: Seq<char>, i: int) -> int
    decreases s.len() - i,
{
    if 0 <= i < s.len() && is_json_ws(s[i]) {
        spec_skip_ws(s, i + 1)
    } else {
        i
    }
}

/// A decimal digit.
pub open spec fn is_digit(c: char) -> bool {
    '0' <= c && c <= '9'
}

/// The first position at or after `i` holding no decimal digit.
pub open spec fn spec_skip_digits(s: Seq<char>, i: int) -> int
    decreases s.len() - i,
{
    if 0 <= i < s.len() && is_digit(s[i]) {
        spec_skip_digits(s, i + 1)
    } else {
        i
    }
}

/// The value of one hex digit, or 16 where the character is none.
pub open spec fn hex_digit_value(c: char) -> int {
    if '0' <= c && c <= '9' {
        c as int - '0' as int
    } else if 'a' <= c && c <= 'f' {
        c as int - 'a' as int + 10
    } else if 'A' <= c && c <= 'F' {
        c as int - 'A' as int + 10
    } else {
        16
    }
}

/// A hex digit.
pub open spec fn is_hex_digit(c: char) -> bool {
    hex_digit_value(c) < 16
}

/// Whether four hex digits stand at `i`.
pub open spec fn hex4_ok(s: Seq<char>, i: int) -> bool {
    0 <= i && i + 4 <= s.len() && is_hex_digit(s[i]) && is_hex_digit(s[i + 1]) && is_hex_digit(
        s[i + 2],
    ) && is_hex_digit(s[i + 3])
}

/// The code unit the four hex digits at `i` denote.
pub open spec fn hex4_value(s: Seq<char>, i: int) -> int {
    hex_digit_value(s[i]) * 4096 + hex_digit_value(s[i + 1]) * 256 + hex_digit_value(s[i + 2]) * 16
        + hex_digit_value(s[i + 3])
}

/// Decodes the escape whose introducing backslash stands just before `i`:
/// the decoded character and the position after the escape.  A `\uXXXX`
/// high surrogate must be followed by a low one; the pair denotes one
/// character beyond the basic plane.
pub open spec fn spec_escape(s: Seq<char>, i: int) -> Option<(char, int)> {
    if !(0 <= i < s.len()) {
        None
    } else {
        let c = s[i];
        if c == '"' {
            Some(('"', i + 1))
        } else if c == '\\' {
            Some(('\\', i + 1))
        } else if c == '/' {
            Some(('/', i + 1))
        } else if c == 'b' {
            Some(('\u{8}', i + 1))
        } else if c == 'f' {
            Some(('\u{c}', i + 1))
        } else if c == 'n' {
            Some(('\n', i + 1))
        } else if c == 'r' {
            Some(('\r', i + 1))
        } else if c == 't' {
            Some(('\t', i + 1))
        } else if c == 'u' {
            spec_unicode_escape(s, i + 1)
        } else {
            None
        }
    }
}

/// Decodes the `XXXX` (or surrogate pair `XXXX\uYYYY`) of a unicode escape
/// starting at `i`.
pub open spec fn spec_unicode_escape(s: Seq<char>, i: int) -> Option<(char, int)> {
    if !hex4_ok(s, i) {
        None
    } else {
        let n = hex4_value(s, i);
        if n < 0xD800 || n >= 0xE000 {
            Some((n as char, i + 4))
        } else if n < 0xDC00 {
            if i + 6 <= s.len() && s[i + 4] == '\\' && s[i + 5] == 'u' && hex4_ok(s, i + 6) {
                let n2 = hex4_value(s, i + 6);
                if 0xDC00 <= n2 && n2 < 0xE000 {
                    Some(((0x10000 + (n - 0xD800) * 0x400 + (n2 - 0xDC00)) as char, i + 10))
                } else {
                    None
                }
            } else {
                None
            }
        } else {
            None
        }
    }
}

/// Parses a JSON string body from `i`, just after the opening quote,
/// with `acc` the characters decoded so far: the decoded string and the
/// position after the closing quote.  Unescaped control characters refuse
/// the string.
pub open spec fn spec_string_body(s: Seq<char>, i: int, acc: Seq<char>) -> Option<(Seq<char>, int)>
    decreases s.len() - i,
{
    if !(0 <= i < s.len()) {
        None
    } else {
        let c = s[i];
        if c == '"' {
            Some((acc, i + 1))
        } else if c == '\\' {
            match spec_escape(s, i + 1) {
                None => None,
                Some((ec, j)) => if i < j && j <= s.len() {
                    spec_string_body(s, j, acc.push(ec))
                } else {
                    None
                },
            }
        } else if (c as int) < 0x20 {
            None
        } else {
            spec_string_body(s, i + 1, acc.push(c))
        }
    }
}

/// Accepts exactly a JSON number starting at `i`: the position after it.
pub open spec fn spec_skip_number(s: Seq<char>, i: int) -> Option<int> {
    if !(0 <= i < s.len()) {
        None
    } else {
        let i1 = if s[i] == '-' {
            i + 1
        } else {
            i
        };
        if !(i1 < s.len()) {
            None
        } else if s[i1] == '0' {
            spec_number_frac(s, i1 + 1)
        } else if '1' <= s[i1] && s[i1] <= '9' {
            spec_number_frac(s, spec_skip_digits(s, i1))
        } else {
            None
        }
    }
}

/// The optional fraction of a number, then its exponent.
pub open spec fn spec_number_frac(s: Seq<char>, i: int) -> Option<int> {
    if 0 <= i < s.len() && s[i] == '.' {
        let d = spec_skip_digits(s, i + 1);
        if d == i + 1 {
            None
        } else {
            spec_number_exp(s, d)
        }
    } else {
        spec_number_exp(s, i)
    }
}

/// The optional exponent of a number.
pub open spec fn spec_number_exp(s: Seq<char>, i: int) -> Option<int> {
    if 0 <= i < s.len() && (s[i] == 'e' || s[i] == 'E') {
        let j = if i + 1 < s.len() && (s[i + 1] == '+' || s[i + 1] == '-') {
            i + 2
        } else {
            i + 1
        };
        let d = spec_skip_digits(s, j);
        if d == j {
            None
        } else {
            Some(d)
        }
    } else {
        Some(i)
    }
}

/// Accepts exactly one JSON value starting at `i`: the position after it.
/// Ignored members run through this, so their whole structure is checked
/// even though their content is dropped.
pub open spec fn spec_skip_value(s: Seq<char>, i: int) -> Option<int>
    decreases s.len() - i, 0int,
{
    if !(0 <= i < s.len()) {
        None
    } else {
        let c = s[i];
        if c == '"' {
            match spec_string_body(s, i + 1, Seq::empty()) {
                None => None,
                Some((d, j)) => Some(j),
            }
        } else if c == '-' || is_digit(c) {
            spec_skip_number(s, i)
        } else if c == 't' {
            if i + 4 <= s.len() && s[i + 1] == 'r' && s[i + 2] == 'u' && s[i + 3] == 'e' {
                Some(i + 4)
            } else {
                None
            }
        } else if c == 'f' {
            if i + 5 <= s.len() && s[i + 1] == 'a' && s[i + 2] == 'l' && s[i + 3] == 's' && s[i + 4]
                == 'e' {
                Some(i + 5)
            } else {
                None
            }
        } else if c == 'n' {
            if i + 4 <= s.len() && s[i + 1] == 'u' && s[i + 2] == 'l' && s[i + 3] == 'l' {
                Some(i + 4)
            } else {
                None
            }
        } else if c == '[' {
            let j = spec_skip_ws(s, i + 1);
            if i < j && j <= s.len() {
                spec_skip_array_items(s, j, true)
            } else {
                None
            }
        } else if c == '{' {
            let j = spec_skip_ws(s, i + 1);
            if i < j && j <= s.len() {
                spec_skip_object_members(s, j, true)
            } else {
                None
            }
        } else {
            None
        }
    }
}

/// Accepts the items of an array from `i` (whitespace already skipped;
/// `first` says none has been read yet): the position after `]`.
pub open spec fn spec_skip_array_items(s: Seq<char>, i: int, first: bool) -> Option<int>
    decreases s.len() - i, 1int,
{
    if !(0 <= i < s.len()) {
        None
    } else if first && s[i] == ']' {
        Some(i + 1)
    } else {
        match spec_skip_value(s, i) {
            None => None,
            Some(j) => {
                let k = spec_skip_ws(s, j);
                if !(i < j && j <= k < s.len()) {
                    None
                } else if s[k] == ',' {
                    let m = spec_skip_ws(s, k + 1);
                    if i < m && m <= s.len() {
                        spec_skip_array_items(s, m, false)
                    } else {
                        None
                    }
                } else if s[k] == ']' {
                    Some(k + 1)
                } else {
                    None
                }
            },
        }
    }
}

/// Accepts the members of an object from `i` (whitespace already skipped;
/// `first` says none has been read yet): the position after `}`.
pub open spec fn spec_skip_object_members(s: Seq<char>, i: int, first: bool) -> Option<int>
    decreases s.len() - i, 1int,
{
    if !(0 <= i < s.len()) {
        None
    } else if first && s[i] == '}' {
        Some(i + 1)
    } else if s[i] != '"' {
        None
    } else {
        match spec_string_body(s, i + 1, Seq::empty()) {
            None => None,
            Some((key, j)) => {
                let k = spec_skip_ws(s, j);
                if !(i < j && j <= k < s.len()) {
                    None
                } else if s[k] != ':' {
                    None
                } else {
                    let v = spec_skip_ws(s, k + 1);
                    match (if i < v && v <= s.len() {
                        spec_skip_value(s, v)
                    } else {
                        None
                    }) {
                        None => None,
                        Some(j2) => {
                            let k2 = spec_skip_ws(s, j2);
                            if !(i < j2 && j2 <= k2 < s.len()) {
                                None
                            } else if s[k2] == ',' {
                                let m = spec_skip_ws(s, k2 + 1);
                                if i < m && m <= s.len() {
                                    spec_skip_object_members(s, m, false)
                                } else {
                                    None
                                }
                            } else if s[k2] == '}' {
                                Some(k2 + 1)
                            } else {
                                None
                            }
                        },
                    }
                }
            },
        }
    }
}

/// Parses the members of one tweet object from `i` (whitespace already
/// skipped; `created` and `text` hold the required members already seen,
/// `first` says none has been read yet): the `(created_at, text)` pair and
/// the position after `}`.  A required member that is missing, duplicated
/// or not a string refuses the object, as a strict field-for-field decode
/// does; other members are structure-checked and dropped.
pub open spec fn spec_tweet_members(
    s: Seq<char>,
    i: int,
    created: Option<Seq<char>>,
    text: Option<Seq<char>>,
    first: bool,
) -> Option<((Seq<char>, Seq<char>), int)>
    decreases s.len() - i, 0int,
{
    if !(0 <= i < s.len()) {
        None
    } else if first && s[i] == '}' {
        match (created, text) {
            (Some(c), Some(t)) => Some(((c, t), i + 1)),
            _ => None,
        }
    } else if s[i] != '"' {
        None
    } else {
        match spec_string_body(s, i + 1, Seq::empty()) {
            None => None,
            Some((key, j)) => {
                let k = spec_skip_ws(s, j);
                if !(i < j && j <= k < s.len()) {
                    None
                } else if s[k] != ':' {
                    None
                } else {
                    let v = spec_skip_ws(s, k + 1);
                    if !(i < v && v < s.len()) {
                        None
                    } else if key == "created_at"@ {
                        if created is Some || s[v] != '"' {
                            None
                        } else {
                            match spec_string_body(s, v + 1, Seq::empty()) {
                                None => None,
                                Some((val, j2)) => if i < j2 && j2 <= s.len() {
                                    spec_tweet_tail(s, j2, Some(val), text)
                                } else {
                                    None
                                },
                            }
                        }
                    } else if key == "text"@ {
                        if text is Some || s[v] != '"' {
                            None
                        } else {
                            match spec_string_body(s, v + 1, Seq::empty()) {
                                None => None,
                                Some((val, j2)) => if i < j2 && j2 <= s.len() {
                                    spec_tweet_tail(s, j2, created, Some(val))
                                } else {
                                    None
                                },
                            }
                        }
                    } else {
                        match spec_skip_value(s, v) {
                            None => None,
                            Some(j2) => if i < j2 && j2 <= s.len() {
                                spec_tweet_tail(s, j2, created, text)
                            } else {
                                None
                            },
                        }
                    }
                }
            },
        }
    }
}

/// After one member of a tweet object, at `i` just past its value: a comma
/// leads to the next member, a closing brace ends the object, which must by
/// then have both required members.
pub open spec fn spec_tweet_tail(
    s: Seq<char>,
    i: int,
    created: Option<Seq<char>>,
    text: Option<Seq<char>>,
) -> Option<((Seq<char>, Seq<char>), int)>
    decreases s.len() - i, 1int,
{
    let k = spec_skip_ws(s, i);
    if !(i <= k < s.len()) {
        None
    } else if s[k] == ',' {
        let m = spec_skip_ws(s, k + 1);
        if i < m && m <= s.len() {
            spec_tweet_members(s, m, created, text, false)
        } else {
            None
        }
    } else if s[k] == '}' {
        match (created, text) {
            (Some(c), Some(t)) => Some(((c, t), k + 1)),
            _ => None,
        }
    } else {
        None
    }
}

/// Accepts the items of the timeline array from `i` (whitespace already
/// skipped; `acc` holds the tweets decoded so far, `first` says none has
/// been read yet): every item must be a tweet object.
pub open spec fn spec_timeline_items(
    s: Seq<char>,
    i: int,
    acc: Seq<(Seq<char>, Seq<char>)>,
    first: bool,
) -> Option<(Seq<(Seq<char>, Seq<char>)>, int)>
    decreases s.len() - i,
{
    if !(0 <= i < s.len()) {
        None
    } else if first && s[i] == ']' {
        Some((acc, i + 1))
    } else if s[i] != '{' {
        None
    } else {
        let w = spec_skip_ws(s, i + 1);
        match (if w > i {
            spec_tweet_members(s, w, None, None, true)
        } else {
            None
        }) {
            None => None,
            Some((tw, j)) => {
                let k = spec_skip_ws(s, j);
                if !(i < j && j <= k < s.len()) {
                    None
                } else if s[k] == ',' {
                    let m = spec_skip_ws(s, k + 1);
                    if i < m && m <= s.len() {
                        spec_timeline_items(s, m, acc.push(tw), false)
                    } else {
                        None
                    }
                } else if s[k] == ']' {
                    Some((acc.push(tw), k + 1))
                } else {
                    None
                }
            },
        }
    }
}

/// The timeline a JSON text denotes: the `(created_at, text)` pairs of an
/// array of tweet objects, or `None` where the text is not exactly such an
/// array — a decode fault anywhere, or trailing non-whitespace, refuses the
/// whole document.
pub open spec fn spec_timeline(s: Seq<char>) -> Option<Seq<(Seq<char>, Seq<char>)>> {
    let i = spec_skip_ws(s, 0);
    if !(0 <= i < s.len() && s[i] == '[') {
        None
    } else {
        let j = spec_skip_ws(s, i + 1);
        match (if j > i {
            spec_timeline_items(s, j, Seq::empty(), true)
        } else {
            None
        }) {
            None => None,
            Some((items, k)) => if spec_skip_ws(s, k) == s.len() {
                Some(items)
            } else {
                None
            },
        }
    }
}


/// Relies on String::push: appends one character at the end of the string.
#[verifier::external_body]
fn push_char(s: &mut String, c: char)
    ensures
        final(s)@ == old(s)@.push(c),
{
    s.push(c);
}

/// Relies on char::from_u32: `Some` exactly on Unicode scalar values, and
/// then the character with that code.
#[verifier::external_body]
fn char_from_u32(v: u32) -> (r: Option<char>)
    ensures
        r matches Some(c) ==> c == v as char,
        r is Some <==> (v < 0xD800 || (0xE000 <= v && v <= 0x10FFFF)),
{
    char::from_u32(v)
}

/// The first position at or after `i` holding no whitespace.
fn ws_to(s: &str, i: usize) -> (j: usize)
    requires
        i <= s@.len(),
    ensures
        j as int == spec_skip_ws(s@, i as int),
        i <= j <= s@.len(),
{
    let n: usize = s.unicode_len();
    let mut j: usize = i;
    loop
        invariant
            i <= j <= n,
            n == s@.len(),
            spec_skip_ws(s@, i as int) == spec_skip_ws(s@, j as int),
        ensures
            i <= j <= n,
            j as int == spec_skip_ws(s@, i as int),
        decreases n - j,
    {
        if j == n {
            break;
        }
        let c = s.get_char(j);
        if !(c == ' ' || c == '\t' || c == '\n' || c == '\r') {
            break;
        }
        j = j + 1;
    }
    j
}

/// The first position at or after `i` holding no decimal digit.
fn digits_to(s: &str, i: usize) -> (j: usize)
    requires
        i <= s@.len(),
    ensures
        j as int == spec_skip_digits(s@, i as int),
        i <= j <= s@.len(),
{
    let n: usize = s.unicode_len();
    let mut j: usize = i;
    loop
        invariant
            i <= j <= n,
            n == s@.len(),
            spec_skip_digits(s@, i as int) == spec_skip_digits(s@, j as int),
        ensures
            i <= j <= n,
            j as int == spec_skip_digits(s@, i as int),
        decreases n - j,
    {
        if j == n {
            break;
        }
        let c = s.get_char(j);
        let u = c as u32;
        if !(0x30 <= u && u <= 0x39) {
            break;
        }
        assert(is_digit(s@[j as int]));
        j = j + 1;
    }
    j
}

/// The value of one hex digit.
fn hex_digit_x(c: char) -> (r: Option<u32>)
    ensures
        match r {
            Some(v) => is_hex_digit(c) && v as int == hex_digit_value(c) && v < 16,
            None => !is_hex_digit(c),
        },
{
    let u = c as u32;
    if 0x30 <= u && u <= 0x39 {
        Some(u - 0x30)
    } else if 0x61 <= u && u <= 0x66 {
        Some(u - 0x61 + 10)
    } else if 0x41 <= u && u <= 0x46 {
        Some(u - 0x41 + 10)
    } else {
        None
    }
}

/// The code unit of the four hex digits at `i`.
fn hex4_x(s: &str, i: usize) -> (r: Option<u32>)
    requires
        i <= s@.len(),
    ensures
        match r {
            Some(v) => hex4_ok(s@, i as int) && v as int == hex4_value(s@, i as int) && v
                < 0x10000,
            None => !hex4_ok(s@, i as int),
        },
{
    let n: usize = s.unicode_len();
    if n - i < 4 {
        return None;
    }
    let d0 = match hex_digit_x(s.get_char(i)) {
        Some(v) => v,
        None => { return None },
    };
    let d1 = match hex_digit_x(s.get_char(i + 1)) {
        Some(v) => v,
        None => { return None },
    };
    let d2 = match hex_digit_x(s.get_char(i + 2)) {
        Some(v) => v,
        None => { return None },
    };
    let d3 = match hex_digit_x(s.get_char(i + 3)) {
        Some(v) => v,
        None => { return None },
    };
    Some(d0 * 4096 + d1 * 256 + d2 * 16 + d3)
}

/// Decodes the escape that begins just after a backslash at `i`.
fn escape_x(s: &str, i: usize) -> (r: Option<(char, usize)>)
    requires
        i <= s@.len(),
    ensures
        match r {
            Some(p) => spec_escape(s@, i as int) == Some((p.0, p.1 as int)) && i < p.1 <= s@.len(),
            None => spec_escape(s@, i as int) is None,
        },
{
    let n: usize = s.unicode_len();
    if i == n {
        return None;
    }
    let c = s.get_char(i);
    if c == '"' {
        Some(('"', i + 1))
    } else if c == '\\' {
        Some(('\\', i + 1))
    } else if c == '/' {
        Some(('/', i + 1))
    } else if c == 'b' {
        Some(('\u{8}', i + 1))
    } else if c == 'f' {
        Some(('\u{c}', i + 1))
    } else if c == 'n' {
        Some(('\n', i + 1))
    } else if c == 'r' {
        Some(('\r', i + 1))
    } else if c == 't' {
        Some(('\t', i + 1))
    } else if c == 'u' {
        let v = match hex4_x(s, i + 1) {
            Some(v) => v,
            None => { return None },
        };
        if v < 0xD800 || v >= 0xE000 {
            match char_from_u32(v) {
                Some(ec) => Some((ec, i + 5)),
                None => {
                    assert(false);
                    None
                },
            }
        } else if v < 0xDC00 {
            if n - (i + 1) < 6 {
                return None;
            }
            if !(s.get_char(i + 5) == '\\' && s.get_char(i + 6) == 'u') {
                return None;
            }
            let v2 = match hex4_x(s, i + 7) {
                Some(v2) => v2,
                None => { return None },
            };
            if !(0xDC00 <= v2 && v2 < 0xE000) {
                return None;
            }
            let code = 0x10000 + (v - 0xD800) * 0x400 + (v2 - 0xDC00);
            match char_from_u32(code) {
                Some(ec) => Some((ec, i + 11)),
                None => {
                    assert(false);
                    None
                },
            }
        } else {
            None
        }
    } else {
        None
    }
}

/// Parses a JSON string body from `i`, just after the opening quote.
fn string_body_x(s: &str, i: usize) -> (r: Option<(String, usize)>)
    requires
        i <= s@.len(),
    ensures
        match r {
            Some(p) => spec_string_body(s@, i as int, Seq::empty()) == Some((p.0@, p.1 as int))
                && i < p.1 <= s@.len(),
            None => spec_string_body(s@, i as int, Seq::empty()) is None,
        },
{
    let n: usize = s.unicode_len();
    let mut p: usize = i;
    let mut cur = String::new();
    loop
        invariant
            i <= p <= n,
            n == s@.len(),
            spec_string_body(s@, i as int, Seq::empty()) == spec_string_body(s@, p as int, cur@),
        decreases n - p,
    {
        if p == n {
            return None;
        }
        let c = s.get_char(p);
        if c == '"' {
            return Some((cur, p + 1));
        } else if c == '\\' {
            match escape_x(s, p + 1) {
                None => { return None },
                Some(ej) => {
                    push_char(&mut cur, ej.0);
                    p = ej.1;
                },
            }
        } else if (c as u32) < 0x20 {
            return None;
        } else {
            push_char(&mut cur, c);
            p = p + 1;
        }
    }
}

/// Accepts a JSON number starting at `i`.
fn skip_number_x(s: &str, i: usize) -> (r: Option<usize>)
    requires
        i <= s@.len(),
    ensures
        match r {
            Some(j) => spec_skip_number(s@, i as int) == Some(j as int) && i < j <= s@.len(),
            None => spec_skip_number(s@, i as int) is None,
        },
{
    let n: usize = s.unicode_len();
    if i == n {
        return None;
    }
    let i1: usize = if s.get_char(i) == '-' {
        i + 1
    } else {
        i
    };
    if i1 == n {
        return None;
    }
    let c1 = s.get_char(i1);
    let u1 = c1 as u32;
    let after_int: usize;
    if c1 == '0' {
        after_int = i1 + 1;
    } else if 0x31 <= u1 && u1 <= 0x39 {
        assert(is_digit(s@[i1 as int]));
        let d = digits_to(s, i1 + 1);
        assert(spec_skip_digits(s@, i1 as int) == d as int);
        after_int = d;
    } else {
        return None;
    }
    let r = number_frac_x(s, after_int);
    match r {
        Some(j) => Some(j),
        None => None,
    }
}

/// The fraction-then-exponent tail of a number, from `i`.
fn number_frac_x(s: &str, i: usize) -> (r: Option<usize>)
    requires
        i <= s@.len(),
    ensures
        match r {
            Some(j) => spec_number_frac(s@, i as int) == Some(j as int) && i <= j <= s@.len(),
            None => spec_number_frac(s@, i as int) is None,
        },
{
    let n: usize = s.unicode_len();
    if i < n && s.get_char(i) == '.' {
        let d = digits_to(s, i + 1);
        if d == i + 1 {
            return None;
        }
        number_exp_x(s, d)
    } else {
        number_exp_x(s, i)
    }
}

/// The exponent tail of a number, from `i`.
fn number_exp_x(s: &str, i: usize) -> (r: Option<usize>)
    requires
        i <= s@.len(),
    ensures
        match r {
            Some(j) => spec_number_exp(s@, i as int) == Some(j as int) && i <= j <= s@.len(),
            None => spec_number_exp(s@, i as int) is None,
        },
{
    let n: usize = s.unicode_len();
    if i < n && (s.get_char(i) == 'e' || s.get_char(i) == 'E') {
        let j: usize = if i + 1 < n && (s.get_char(i + 1) == '+' || s.get_char(i + 1) == '-') {
            i + 2
        } else {
            i + 1
        };
        let d = digits_to(s, j);
        if d == j {
            None
        } else {
            Some(d)
        }
    } else {
        Some(i)
    }
}

/// Accepts one JSON value starting at `i`.
fn skip_value_x(s: &str, i: usize) -> (r: Option<usize>)
    requires
        i <= s@.len(),
    ensures
        match r {
            Some(j) => spec_skip_value(s@, i as int) == Some(j as int) && i < j <= s@.len(),
            None => spec_skip_value(s@, i as int) is None,
        },
    decreases s@.len() - i, 0int,
{
    let n: usize = s.unicode_len();
    if i == n {
        return None;
    }
    let c = s.get_char(i);
    let u = c as u32;
    if c == '"' {
        match string_body_x(s, i + 1) {
            Some(p) => Some(p.1),
            None => None,
        }
    } else if c == '-' || (0x30 <= u && u <= 0x39) {
        assert(c == '-' || is_digit(s@[i as int]));
        skip_number_x(s, i)
    } else if c == 't' {
        if n - i >= 4 && s.get_char(i + 1) == 'r' && s.get_char(i + 2) == 'u' && s.get_char(i + 3)
            == 'e' {
            Some(i + 4)
        } else {
            None
        }
    } else if c == 'f' {
        if n - i >= 5 && s.get_char(i + 1) == 'a' && s.get_char(i + 2) == 'l' && s.get_char(i + 3)
            == 's' && s.get_char(i + 4) == 'e' {
            Some(i + 5)
        } else {
            None
        }
    } else if c == 'n' {
        if n - i >= 4 && s.get_char(i + 1) == 'u' && s.get_char(i + 2) == 'l' && s.get_char(i + 3)
            == 'l' {
            Some(i + 4)
        } else {
            None
        }
    } else if c == '[' {
        let j = ws_to(s, i + 1);
        skip_array_items_x(s, j, true)
    } else if c == '{' {
        let j = ws_to(s, i + 1);
        skip_object_members_x(s, j, true)
    } else {
        None
    }
}

/// Accepts the items of an array from `i` (whitespace already skipped).
fn skip_array_items_x(s: &str, i: usize, first: bool) -> (r: Option<usize>)
    requires
        i <= s@.len(),
    ensures
        match r {
            Some(j) => spec_skip_array_items(s@, i as int, first) == Some(j as int) && i < j
                <= s@.len(),
            None => spec_skip_array_items(s@, i as int, first) is None,
        },
    decreases s@.len() - i, 1int,
{
    let n: usize = s.unicode_len();
    let mut cur: usize = i;
    let mut fir: bool = first;
    loop
        invariant
            i <= cur <= n,
            n == s@.len(),
            spec_skip_array_items(s@, i as int, first) == spec_skip_array_items(
                s@,
                cur as int,
                fir,
            ),
        decreases n - cur,
    {
        if cur == n {
            return None;
        }
        let c = s.get_char(cur);
        if fir && c == ']' {
            return Some(cur + 1);
        }
        let j = match skip_value_x(s, cur) {
            Some(j) => j,
            None => { return None },
        };
        let k = ws_to(s, j);
        if k == n {
            return None;
        }
        let c2 = s.get_char(k);
        if c2 == ',' {
            let m = ws_to(s, k + 1);
            cur = m;
            fir = false;
        } else if c2 == ']' {
            return Some(k + 1);
        } else {
            return None;
        }
    }
}

/// Accepts the members of an object from `i` (whitespace already skipped).
fn skip_object_members_x(s: &str, i: usize, first: bool) -> (r: Option<usize>)
    requires
        i <= s@.len(),
    ensures
        match r {
            Some(j) => spec_skip_object_members(s@, i as int, first) == Some(j as int) && i < j
                <= s@.len(),
            None => spec_skip_object_members(s@, i as int, first) is None,
        },
    decreases s@.len() - i, 1int,
{
    let n: usize = s.unicode_len();
    let mut cur: usize = i;
    let mut fir: bool = first;
    loop
        invariant
            i <= cur <= n,
            n == s@.len(),
            spec_skip_object_members(s@, i as int, first) == spec_skip_object_members(
                s@,
                cur as int,
                fir,
            ),
        decreases n - cur,
    {
        if cur == n {
            return None;
        }
        let c = s.get_char(cur);
        if fir && c == '}' {
            return Some(cur + 1);
        }
        if c != '"' {
            return None;
        }
        let j = match string_body_x(s, cur + 1) {
            Some(p) => p.1,
            None => { return None },
        };
        let k = ws_to(s, j);
        if k == n {
            return None;
        }
        if s.get_char(k) != ':' {
            return None;
        }
        let v = ws_to(s, k + 1);
        let j2 = match skip_value_x(s, v) {
            Some(j2) => j2,
            None => { return None },
        };
        let k2 = ws_to(s, j2);
        if k2 == n {
            return None;
        }
        let c2 = s.get_char(k2);
        if c2 == ',' {
            let m = ws_to(s, k2 + 1);
            cur = m;
            fir = false;
        } else if c2 == '}' {
            return Some(k2 + 1);
        } else {
            return None;
        }
    }
}

/// The view of an optional decoded member.
spec fn opt_view(o: Option<String>) -> Option<Seq<char>> {
    match o {
        Some(v) => Some(v@),
        None => None,
    }
}

/// Parses one tweet object's members from `i` (whitespace already skipped,
/// just inside the opening brace).
fn tweet_members_x(s: &str, i: usize) -> (r: Option<((String, String), usize)>)
    requires
        i <= s@.len(),
    ensures
        match r {
            Some(p) => spec_tweet_members(s@, i as int, None, None, true) == Some(
                (((p.0).0@, (p.0).1@), p.1 as int),
            ) && i < p.1 <= s@.len(),
            None => spec_tweet_members(s@, i as int, None, None, true) is None,
        },
{
    let n: usize = s.unicode_len();
    let mut cur: usize = i;
    let mut fir: bool = true;
    let mut created: Option<String> = None;
    let mut text: Option<String> = None;
    loop
        invariant
            i <= cur <= n,
            n == s@.len(),
            spec_tweet_members(s@, i as int, None, None, true) == spec_tweet_members(
                s@,
                cur as int,
                opt_view(created),
                opt_view(text),
                fir,
            ),
        decreases n - cur,
    {
        if cur == n {
            return None;
        }
        let c = s.get_char(cur);
        if fir && c == '}' {
            match (created, text) {
                (Some(cv), Some(tv)) => { return Some(((cv, tv), cur + 1)) },
                _ => { return None },
            }
        }
        if c != '"' {
            return None;
        }
        let (key, j) = match string_body_x(s, cur + 1) {
            Some(p) => p,
            None => { return None },
        };
        let k = ws_to(s, j);
        if k == n {
            return None;
        }
        if s.get_char(k) != ':' {
            return None;
        }
        let v = ws_to(s, k + 1);
        if v == n {
            return None;
        }
        let j2: usize;
        if str_eq(key.as_str(), "created_at") {
            if created.is_some() {
                return None;
            }
            if s.get_char(v) != '"' {
                return None;
            }
            let (val, jv) = match string_body_x(s, v + 1) {
                Some(p) => p,
                None => { return None },
            };
            created = Some(val);
            j2 = jv;
        } else if str_eq(key.as_str(), "text") {
            if text.is_some() {
                return None;
            }
            if s.get_char(v) != '"' {
                return None;
            }
            let (val, jv) = match string_body_x(s, v + 1) {
                Some(p) => p,
                None => { return None },
            };
            text = Some(val);
            j2 = jv;
        } else {
            j2 = match skip_value_x(s, v) {
                Some(jv) => jv,
                None => { return None },
            };
        }
        assert(spec_tweet_members(s@, i as int, None, None, true) == spec_tweet_tail(
            s@,
            j2 as int,
            opt_view(created),
            opt_view(text),
        ));
        let k2 = ws_to(s, j2);
        if k2 == n {
            return None;
        }
        let c2 = s.get_char(k2);
        if c2 == ',' {
            let m = ws_to(s, k2 + 1);
            cur = m;
            fir = false;
        } else if c2 == '}' {
            match (created, text) {
                (Some(cv), Some(tv)) => { return Some(((cv, tv), k2 + 1)) },
                _ => { return None },
            }
        } else {
            return None;
        }
    }
}

/// Accepts the items of the timeline array from `i` (whitespace already
/// skipped, just inside the opening bracket).
fn timeline_items_x(s: &str, i: usize) -> (r: Option<(Vec<Tweet>, usize)>)
    requires
        i <= s@.len(),
    ensures
        match r {
            Some(p) => spec_timeline_items(s@, i as int, Seq::empty(), true) == Some(
                (tweets_view(p.0@), p.1 as int),
            ) && i < p.1 <= s@.len(),
            None => spec_timeline_items(s@, i as int, Seq::empty(), true) is None,
        },
{
    let n: usize = s.unicode_len();
    let mut cur: usize = i;
    let mut fir: bool = true;
    let mut acc: Vec<Tweet> = Vec::new();
    proof {
        assert(tweets_view(acc@) =~= Seq::<(Seq<char>, Seq<char>)>::empty());
    }
    loop
        invariant
            i <= cur <= n,
            n == s@.len(),
            spec_timeline_items(s@, i as int, Seq::empty(), true) == spec_timeline_items(
                s@,
                cur as int,
                tweets_view(acc@),
                fir,
            ),
        decreases n - cur,
    {
        if cur == n {
            return None;
        }
        let c = s.get_char(cur);
        if fir && c == ']' {
            return Some((acc, cur + 1));
        }
        if c != '{' {
            return None;
        }
        let w = ws_to(s, cur + 1);
        let (tw, j) = match tweet_members_x(s, w) {
            Some(p) => p,
            None => { return None },
        };
        let k = ws_to(s, j);
        if k == n {
            return None;
        }
        let c2 = s.get_char(k);
        if c2 == ',' {
            let m = ws_to(s, k + 1);
            let ghost before = acc@;
            acc.push(Tweet { created_at: tw.0, text: tw.1 });
            proof {
                assert(tweets_view(acc@) =~= tweets_view(before).push(
                    (acc@[before.len() as int].created_at@, acc@[before.len() as int].text@),
                ));
            }
            cur = m;
            fir = false;
        } else if c2 == ']' {
            let ghost before = acc@;
            acc.push(Tweet { created_at: tw.0, text: tw.1 });
            proof {
                assert(tweets_view(acc@) =~= tweets_view(before).push(
                    (acc@[before.len() as int].created_at@, acc@[before.len() as int].text@),
                ));
            }
            return Some((acc, k + 1));
        } else {
            return None;
        }
    }
}

impl Tweet {
    /// Decodes a home-timeline response body.  Succeeds exactly on the
    /// documents the grammar accepts — a JSON array of tweet objects, each
    /// with string members `created_at` and `text`, extra members ignored —
    /// and then yields the tweets in platform order; everything else is a
    /// `DeserializationError`.
    pub fn parse_timeline(json_string: String) -> (r: Result<Vec<Tweet>, Error>)
        ensures
            match r {
                Ok(v) => spec_timeline(json_string@) == Some(tweets_view(v@)),
                Err(e) => e == Error::DeserializationError && spec_timeline(json_string@) is None,
            },
    {
        let s = json_string.as_str();
        let n: usize = s.unicode_len();
        let i = ws_to(s, 0);
        if i == n {
            return Err(Error::DeserializationError);
        }
        if s.get_char(i) != '[' {
            return Err(Error::DeserializationError);
        }
        let j = ws_to(s, i + 1);
        let (items, k) = match timeline_items_x(s, j) {
            Some(p) => p,
            None => { return Err(Error::DeserializationError) },
        };
        let e = ws_to(s, k);
        if e != n {
            return Err(Error::DeserializationError);
        }
        Ok(items)
    }
}

} // verus!
