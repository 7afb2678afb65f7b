//! Decoding the OSV query response. The decoder accepts a JSON object whose
//! `vulns` member is absent, null, or an array of advisory objects; each
//! advisory must carry a string `id`, while `summary`, `details` and
//! `severity` are optional. Unknown members are skipped, and later duplicate
//! members overwrite earlier ones. Unicode escapes are accepted for scalar
//! code points and for well-formed surrogate pairs; lone surrogates are
//! rejected.

use vstd::prelude::*;
use crate::model::{
    OsvSeverity,
    OsvAdvisory,
    OsvResponse,
    SeverityView,
    AdvisoryView,
    opt_view,
};
use crate::text::{chars_of, chars_eq_str, string_from_chars, dec_chars, dec_view};
use vstd::string::StringExecFns;

verus! {

// ---------------------------------------------------------------------------
// character classes and scanners
// ---------------------------------------------------------------------------

/// JSON whitespace.
pub open spec fn is_ws(c: char) -> bool {
    c == ' ' || c == '\t' || c == '\n' || c == '\r'
}

/// The first position at or after `i` holding a non-whitespace character
/// (or the end of input).
pub open spec fn ws_end(s: Seq<char>, i: int) -> int
    decreases s.len() - i,
{
    if 0 <= i < s.len() && is_ws(s[i]) {
        ws_end(s, i + 1)
    } else {
        i
    }
}

fn skip_ws(s: &Vec<char>, i: usize) -> (r: usize)
    requires
        i <= s@.len(),
    ensures
        r == ws_end(s@, i as int),
        i <= r <= s@.len(),
    decreases s@.len() - i,
{
    if i < s.len() {
        let c = s[i];
        if c == ' ' || c == '\t' || c == '\n' || c == '\r' {
            return skip_ws(s, i + 1);
        }
    }
    i
}

/// The value of a hexadecimal digit, or -1.
pub open spec fn hex_val(c: char) -> int {
    let v = c as u32;
    if 48 <= v && v <= 57 {
        v - 48
    } else if 97 <= v && v <= 102 {
        v - 87
    } else if 65 <= v && v <= 70 {
        v - 55
    } else {
        -1
    }
}

/// The value of the four hexadecimal digits at `i`, or -1.
pub open spec fn hex4_val(s: Seq<char>, i: int) -> int {
    if hex_val(s[i]) < 0 || hex_val(s[i + 1]) < 0 || hex_val(s[i + 2]) < 0 || hex_val(
        s[i + 3],
    ) < 0 {
        -1
    } else {
        4096 * hex_val(s[i]) + 256 * hex_val(s[i + 1]) + 16 * hex_val(s[i + 2]) + hex_val(s[i + 3])
    }
}

fn hex_val_exec(c: char) -> (r: Option<u32>)
    ensures
        hex_val(c) < 0 <==> r is None,
        hex_val(c) >= 0 ==> r == Some(hex_val(c) as u32) && hex_val(c) < 16,
{
    let v = c as u32;
    if 48 <= v && v <= 57 {
        Some(v - 48)
    } else if 97 <= v && v <= 102 {
        Some(v - 87)
    } else if 65 <= v && v <= 70 {
        Some(v - 55)
    } else {
        None
    }
}

fn hex4_exec(s: &Vec<char>, i: usize) -> (r: Option<u32>)
    requires
        i + 4 <= s@.len(),
    ensures
        hex4_val(s@, i as int) < 0 <==> r is None,
        hex4_val(s@, i as int) >= 0 ==> r == Some(hex4_val(s@, i as int) as u32) && hex4_val(
            s@,
            i as int,
        ) < 0x10000,
{
    let n = s.len();
    let a = hex_val_exec(s[i]);
    let b = hex_val_exec(s[i + 1]);
    let c = hex_val_exec(s[i + 2]);
    let d = hex_val_exec(s[i + 3]);
    match (a, b, c, d) {
        (Some(a), Some(b), Some(c), Some(d)) => Some(4096 * a + 256 * b + 16 * c + d),
        _ => None,
    }
}

/// The short escapes a JSON string accepts after a backslash.
pub open spec fn simple_unescape(c: char) -> Option<char> {
    if c == '"' {
        Some('"')
    } else if c == '\\' {
        Some('\\')
    } else if c == '/' {
        Some('/')
    } else if c == 'b' {
        Some('\u{8}')
    } else if c == 'f' {
        Some('\u{c}')
    } else if c == 'n' {
        Some('\n')
    } else if c == 'r' {
        Some('\r')
    } else if c == 't' {
        Some('\t')
    } else {
        None
    }
}

fn simple_unescape_exec(c: char) -> (r: Option<char>)
    ensures
        r == simple_unescape(c),
{
    if c == '"' {
        Some('"')
    } else if c == '\\' {
        Some('\\')
    } else if c == '/' {
        Some('/')
    } else if c == 'b' {
        Some('\u{8}')
    } else if c == 'f' {
        Some('\u{c}')
    } else if c == 'n' {
        Some('\n')
    } else if c == 'r' {
        Some('\r')
    } else if c == 't' {
        Some('\t')
    } else {
        None
    }
}

/// Relies on `char::from_u32`: `Some` exactly for Unicode scalar values, and
/// the returned character has code `v`.
#[verifier::external_body]
fn char_from_code(v: u32) -> (r: Option<char>)
    ensures
        r is Some <==> (v < 0xD800 || (0xE000 <= v && v < 0x110000)),
        r matches Some(c) ==> c as u32 == v,
{
    char::from_u32(v)
}

// ---------------------------------------------------------------------------
// strings
// ---------------------------------------------------------------------------

/// The content of a JSON string from position `i` (just after the opening
/// quote) up to its closing quote, unescaped, with the position after the
/// closing quote. A high-surrogate escape must be followed by a low-surrogate
/// escape; the pair decodes to one character. Unescaped control characters,
/// bad escapes, and lone surrogates fail.
pub open spec fn string_body(s: Seq<char>, i: int) -> Option<(Seq<char>, int)>
    decreases s.len() - i,
{
    if !(0 <= i < s.len()) {
        None
    } else {
        let c = s[i];
        if c == '"' {
            Some((Seq::empty(), i + 1))
        } else if c == '\\' {
            if i + 2 > s.len() {
                None
            } else {
                let e = s[i + 1];
                if e == 'u' {
                    if i + 6 > s.len() {
                        None
                    } else {
                        let v = hex4_val(s, i + 2);
                        if v < 0 || (0xDC00 <= v && v < 0xE000) {
                            None
                        } else if 0xD800 <= v && v < 0xDC00 {
                            if i + 12 > s.len() {
                                None
                            } else if !(s[i + 6] == '\\' && s[i + 7] == 'u') {
                                None
                            } else {
                                let w = hex4_val(s, i + 8);
                                if !(0xDC00 <= w && w < 0xE000) {
                                    None
                                } else {
                                    let code = 0x10000 + (v - 0xD800) * 0x400 + (w - 0xDC00);
                                    match string_body(s, i + 12) {
                                        Some(t) => Some(
                                            (seq![((code as u32) as char)] + t.0, t.1),
                                        ),
                                        None => None,
                                    }
                                }
                            }
                        } else {
                            match string_body(s, i + 6) {
                                Some(t) => Some((seq![((v as u32) as char)] + t.0, t.1)),
                                None => None,
                            }
                        }
                    }
                } else {
                    match simple_unescape(e) {
                        Some(u) => match string_body(s, i + 2) {
                            Some(t) => Some((seq![u] + t.0, t.1)),
                            None => None,
                        },
                        None => None,
                    }
                }
            }
        } else if (c as u32) < 32 {
            None
        } else {
            match string_body(s, i + 1) {
                Some(t) => Some((seq![c] + t.0, t.1)),
                None => None,
            }
        }
    }
}

/// A whole JSON string at position `i` (at the opening quote).
pub open spec fn parse_string(s: Seq<char>, i: int) -> Option<(Seq<char>, int)> {
    if 0 <= i < s.len() && s[i] == '"' {
        string_body(s, i + 1)
    } else {
        None
    }
}

pub open spec fn str_result_ok(
    r: Option<(Vec<char>, usize)>,
    q: Option<(Seq<char>, int)>,
    lo: int,
    hi: int,
) -> bool {
    match (r, q) {
        (Some(p), Some(t)) => p.0@ == t.0 && p.1 as int == t.1 && lo < p.1 as int <= hi,
        (None, None) => true,
        _ => false,
    }
}

fn string_body_exec(s: &Vec<char>, i: usize) -> (r: Option<(Vec<char>, usize)>)
    requires
        i <= s@.len(),
    ensures
        str_result_ok(r, string_body(s@, i as int), i as int, s@.len() as int),
    decreases s@.len() - i,
{
    if i >= s.len() {
        return None;
    }
    let c = s[i];
    if c == '"' {
        let empty: Vec<char> = Vec::new();
        return Some((empty, i + 1));
    }
    if c == '\\' {
        let n = s.len();
        if n - i < 2 {
            return None;
        }
        let e = s[i + 1];
        if e == 'u' {
            if n - i < 6 {
                return None;
            }
            match hex4_exec(s, i + 2) {
                None => None,
                Some(v) => {
                    if 0xDC00 <= v && v < 0xE000 {
                        return None;
                    }
                    if 0xD800 <= v && v < 0xDC00 {
                        if n - i < 12 {
                            return None;
                        }
                        if !(s[i + 6] == '\\' && s[i + 7] == 'u') {
                            return None;
                        }
                        match hex4_exec(s, i + 8) {
                            None => None,
                            Some(w) => {
                                if !(0xDC00 <= w && w < 0xE000) {
                                    return None;
                                }
                                let code: u32 = 0x10000 + (v - 0xD800) * 0x400 + (w - 0xDC00);
                                match char_from_code(code) {
                                    Some(u) => {
                                        proof {
                                            vstd::utf8::char_u32_cast(u, code);
                                        }
                                        match string_body_exec(s, i + 12) {
                                            Some(t) => {
                                                let mut content = t.0;
                                                content.insert(0, u);
                                                proof {
                                                    assert(content@ =~= seq![u] + t.0@);
                                                }
                                                Some((content, t.1))
                                            },
                                            None => None,
                                        }
                                    },
                                    None => {
                                        proof {
                                            assert(false);
                                        }
                                        None
                                    },
                                }
                            },
                        }
                    } else {
                        match char_from_code(v) {
                            Some(u) => {
                                proof {
                                    vstd::utf8::char_u32_cast(u, v);
                                }
                                match string_body_exec(s, i + 6) {
                                    Some(t) => {
                                        let mut content = t.0;
                                        content.insert(0, u);
                                        proof {
                                            assert(content@ =~= seq![u] + t.0@);
                                        }
                                        Some((content, t.1))
                                    },
                                    None => None,
                                }
                            },
                            None => {
                                proof {
                                    assert(false);
                                }
                                None
                            },
                        }
                    }
                },
            }
        } else {
            match simple_unescape_exec(e) {
                Some(u) => match string_body_exec(s, i + 2) {
                    Some(t) => {
                        let mut content = t.0;
                        content.insert(0, u);
                        proof {
                            assert(content@ =~= seq![u] + t.0@);
                        }
                        Some((content, t.1))
                    },
                    None => None,
                },
                None => None,
            }
        }
    } else if (c as u32) < 32 {
        None
    } else {
        match string_body_exec(s, i + 1) {
            Some(t) => {
                let mut content = t.0;
                content.insert(0, c);
                proof {
                    assert(content@ =~= seq![c] + t.0@);
                }
                Some((content, t.1))
            },
            None => None,
        }
    }
}

fn parse_string_exec(s: &Vec<char>, i: usize) -> (r: Option<(Vec<char>, usize)>)
    requires
        i <= s@.len(),
    ensures
        str_result_ok(r, parse_string(s@, i as int), i as int, s@.len() as int),
{
    if i < s.len() {
        let c = s[i];
        if c == '"' {
            return string_body_exec(s, i + 1);
        }
    }
    None
}

// ---------------------------------------------------------------------------
// skipping unknown values
// ---------------------------------------------------------------------------

/// The end of an unquoted scalar token: the first delimiter, whitespace, or
/// the end of input.
pub open spec fn scalar_end(s: Seq<char>, i: int) -> int
    decreases s.len() - i,
{
    if 0 <= i < s.len() && !(s[i] == ',' || s[i] == '}' || s[i] == ']' || is_ws(s[i])) {
        scalar_end(s, i + 1)
    } else {
        i
    }
}

fn scalar_end_exec(s: &Vec<char>, i: usize) -> (r: usize)
    requires
        i <= s@.len(),
    ensures
        r == scalar_end(s@, i as int),
        i <= r <= s@.len(),
    decreases s@.len() - i,
{
    if i < s.len() {
        let c = s[i];
        if !(c == ',' || c == '}' || c == ']' || c == ' ' || c == '\t' || c == '\n' || c == '\r') {
            return scalar_end_exec(s, i + 1);
        }
    }
    i
}

/// Scans past a nested bracketed value by depth counting, tracking string
/// boundaries and escapes; returns the position just after the bracket that
/// brings the depth back to zero.
pub open spec fn nested_end(s: Seq<char>, i: int, depth: int, in_str: bool, esc: bool) -> Option<
    int,
>
    decreases s.len() - i,
{
    if !(0 <= i < s.len()) {
        None
    } else {
        let c = s[i];
        if in_str {
            if esc {
                nested_end(s, i + 1, depth, true, false)
            } else if c == '\\' {
                nested_end(s, i + 1, depth, true, true)
            } else if c == '"' {
                nested_end(s, i + 1, depth, false, false)
            } else {
                nested_end(s, i + 1, depth, true, false)
            }
        } else if c == '"' {
            nested_end(s, i + 1, depth, true, false)
        } else if c == '{' || c == '[' {
            nested_end(s, i + 1, depth + 1, false, false)
        } else if c == '}' || c == ']' {
            if depth == 1 {
                Some(i + 1)
            } else {
                nested_end(s, i + 1, depth - 1, false, false)
            }
        } else {
            nested_end(s, i + 1, depth, false, false)
        }
    }
}

pub open spec fn pos_result_ok(r: Option<usize>, q: Option<int>, lo: int, hi: int) -> bool {
    match (r, q) {
        (Some(p), Some(t)) => p as int == t && lo < p as int <= hi,
        (None, None) => true,
        _ => false,
    }
}

fn nested_end_exec(s: &Vec<char>, i: usize, depth: u128, in_str: bool, esc: bool) -> (r: Option<
    usize,
>)
    requires
        i <= s@.len(),
        1 <= depth <= i + 1,
    ensures
        pos_result_ok(r, nested_end(s@, i as int, depth as int, in_str, esc), i as int, s@.len() as int),
    decreases s@.len() - i,
{
    if i >= s.len() {
        return None;
    }
    let c = s[i];
    if in_str {
        if esc {
            nested_end_exec(s, i + 1, depth, true, false)
        } else if c == '\\' {
            nested_end_exec(s, i + 1, depth, true, true)
        } else if c == '"' {
            nested_end_exec(s, i + 1, depth, false, false)
        } else {
            nested_end_exec(s, i + 1, depth, true, false)
        }
    } else if c == '"' {
        nested_end_exec(s, i + 1, depth, true, false)
    } else if c == '{' || c == '[' {
        nested_end_exec(s, i + 1, depth + 1, false, false)
    } else if c == '}' || c == ']' {
        if depth == 1 {
            Some(i + 1)
        } else {
            nested_end_exec(s, i + 1, depth - 1, false, false)
        }
    } else {
        nested_end_exec(s, i + 1, depth, false, false)
    }
}

/// Scans past one JSON value starting at `i`: a string, a bracketed value,
/// or an unquoted scalar (which must be non-empty).
pub open spec fn skip_value(s: Seq<char>, i: int) -> Option<int> {
    if !(0 <= i < s.len()) {
        None
    } else if s[i] == '"' {
        match string_body(s, i + 1) {
            Some(t) => Some(t.1),
            None => None,
        }
    } else if s[i] == '{' || s[i] == '[' {
        nested_end(s, i + 1, 1, false, false)
    } else {
        let e = scalar_end(s, i);
        if e == i {
            None
        } else {
            Some(e)
        }
    }
}

fn skip_value_exec(s: &Vec<char>, i: usize) -> (r: Option<usize>)
    requires
        i <= s@.len(),
    ensures
        pos_result_ok(r, skip_value(s@, i as int), i as int, s@.len() as int),
{
    if i >= s.len() {
        return None;
    }
    let c = s[i];
    if c == '"' {
        match string_body_exec(s, i + 1) {
            Some(t) => Some(t.1),
            None => None,
        }
    } else if c == '{' || c == '[' {
        nested_end_exec(s, i + 1, 1, false, false)
    } else {
        let e = scalar_end_exec(s, i);
        if e == i {
            None
        } else {
            Some(e)
        }
    }
}

// ---------------------------------------------------------------------------
// optional string values
// ---------------------------------------------------------------------------

/// Whether the literal `null` stands at position `i`.
pub open spec fn is_null_at(s: Seq<char>, i: int) -> bool {
    &&& 0 <= i
    &&& i + 4 <= s.len()
    &&& s[i] == 'n'
    &&& s[i + 1] == 'u'
    &&& s[i + 2] == 'l'
    &&& s[i + 3] == 'l'
}

fn is_null_at_exec(s: &Vec<char>, i: usize) -> (r: bool)
    requires
        i <= s@.len(),
    ensures
        r == is_null_at(s@, i as int),
{
    let n = s.len();
    n - i >= 4 && s[i] == 'n' && s[i + 1] == 'u' && s[i + 2] == 'l' && s[i + 3] == 'l'
}

/// A string value or the literal `null` (decoded as absent).
pub open spec fn parse_opt_string(s: Seq<char>, i: int) -> Option<(Option<Seq<char>>, int)> {
    if 0 <= i < s.len() && s[i] == '"' {
        match string_body(s, i + 1) {
            Some(t) => Some((Some(t.0), t.1)),
            None => None,
        }
    } else if is_null_at(s, i) {
        Some((None, i + 4))
    } else {
        None
    }
}

pub open spec fn optstr_result_ok(
    r: Option<(Option<String>, usize)>,
    q: Option<(Option<Seq<char>>, int)>,
    lo: int,
    hi: int,
) -> bool {
    match (r, q) {
        (Some(p), Some(t)) => opt_view(p.0) == t.0 && p.1 as int == t.1 && lo < p.1 as int <= hi,
        (None, None) => true,
        _ => false,
    }
}

fn parse_opt_string_exec(s: &Vec<char>, i: usize) -> (r: Option<(Option<String>, usize)>)
    requires
        i <= s@.len(),
    ensures
        optstr_result_ok(r, parse_opt_string(s@, i as int), i as int, s@.len() as int),
{
    if i < s.len() && s[i] == '"' {
        match string_body_exec(s, i + 1) {
            Some(t) => Some((Some(string_from_chars(&t.0)), t.1)),
            None => None,
        }
    } else if is_null_at_exec(s, i) {
        Some((None, i + 4))
    } else {
        None
    }
}


// ---------------------------------------------------------------------------
// severity objects and arrays
// ---------------------------------------------------------------------------

pub open spec fn sevs_view(v: Seq<OsvSeverity>) -> Seq<SeverityView> {
    v.map_values(|x: OsvSeverity| x@)
}

pub open spec fn advs_view(v: Seq<OsvAdvisory>) -> Seq<AdvisoryView> {
    v.map_values(|x: OsvAdvisory| x@)
}

/// The members of a severity object from the first key at `i`, with the
/// members seen so far; later duplicates overwrite earlier ones.
pub open spec fn sev_members(
    s: Seq<char>,
    i: int,
    kind: Option<Seq<char>>,
    score: Option<Seq<char>>,
) -> Option<(SeverityView, int)>
    decreases s.len() - i,
{
    match parse_string(s, i) {
        None => None,
        Some(k) => {
            let j = ws_end(s, k.1);
            if !(j < s.len() && s[j] == ':') {
                None
            } else {
                let v0 = ws_end(s, j + 1);
                let step: Option<(Option<Seq<char>>, Option<Seq<char>>, int)> = if k.0
                    == "type"@ {
                    match parse_opt_string(s, v0) {
                        Some(p) => Some((p.0, score, p.1)),
                        None => None,
                    }
                } else if k.0 == "score"@ {
                    match parse_opt_string(s, v0) {
                        Some(p) => Some((kind, p.0, p.1)),
                        None => None,
                    }
                } else {
                    match skip_value(s, v0) {
                        Some(e) => Some((kind, score, e)),
                        None => None,
                    }
                };
                match step {
                    None => None,
                    Some(st) => {
                        let m = ws_end(s, st.2);
                        if m < s.len() && s[m] == ',' {
                            let nk = ws_end(s, m + 1);
                            if i < nk && nk <= s.len() {
                                sev_members(s, nk, st.0, st.1)
                            } else {
                                None
                            }
                        } else if m < s.len() && s[m] == '}' {
                            Some((SeverityView { kind: st.0, score: st.1 }, m + 1))
                        } else {
                            None
                        }
                    },
                }
            }
        },
    }
}

/// A severity object at `i` (at the opening brace).
pub open spec fn parse_sev_obj(s: Seq<char>, i: int) -> Option<(SeverityView, int)> {
    if !(0 <= i < s.len() && s[i] == '{') {
        None
    } else {
        let j = ws_end(s, i + 1);
        if j < s.len() && s[j] == '}' {
            Some((SeverityView { kind: None, score: None }, j + 1))
        } else {
            sev_members(s, j, None, None)
        }
    }
}

/// The items of a severity array from the first item at `i`.
pub open spec fn sev_items(s: Seq<char>, i: int, acc: Seq<SeverityView>) -> Option<
    (Seq<SeverityView>, int),
>
    decreases s.len() - i,
{
    match parse_sev_obj(s, i) {
        None => None,
        Some(p) => {
            let j = ws_end(s, p.1);
            if j < s.len() && s[j] == ',' {
                let ni = ws_end(s, j + 1);
                if i < ni && ni <= s.len() {
                    sev_items(s, ni, acc.push(p.0))
                } else {
                    None
                }
            } else if j < s.len() && s[j] == ']' {
                Some((acc.push(p.0), j + 1))
            } else {
                None
            }
        },
    }
}

/// A severity array at `i` (at the opening bracket).
pub open spec fn parse_sev_array(s: Seq<char>, i: int) -> Option<(Seq<SeverityView>, int)> {
    if !(0 <= i < s.len() && s[i] == '[') {
        None
    } else {
        let j = ws_end(s, i + 1);
        if j < s.len() && s[j] == ']' {
            Some((Seq::empty(), j + 1))
        } else {
            sev_items(s, j, Seq::empty())
        }
    }
}

pub open spec fn sev_result_ok(
    r: Option<(OsvSeverity, usize)>,
    q: Option<(SeverityView, int)>,
    lo: int,
    hi: int,
) -> bool {
    match (r, q) {
        (Some(p), Some(t)) => p.0@ == t.0 && p.1 as int == t.1 && lo < p.1 as int <= hi,
        (None, None) => true,
        _ => false,
    }
}

pub open spec fn sevs_result_ok(
    r: Option<(Vec<OsvSeverity>, usize)>,
    q: Option<(Seq<SeverityView>, int)>,
    lo: int,
    hi: int,
) -> bool {
    match (r, q) {
        (Some(p), Some(t)) => sevs_view(p.0@) == t.0 && p.1 as int == t.1 && lo < p.1 as int <= hi,
        (None, None) => true,
        _ => false,
    }
}

fn sev_members_exec(
    s: &Vec<char>,
    i: usize,
    kind: Option<String>,
    score: Option<String>,
) -> (r: Option<(OsvSeverity, usize)>)
    requires
        i <= s@.len(),
    ensures
        sev_result_ok(
            r,
            sev_members(s@, i as int, opt_view(kind), opt_view(score)),
            i as int,
            s@.len() as int,
        ),
    decreases s@.len() - i,
{
    let k = match parse_string_exec(s, i) {
        None => {
            return None;
        },
        Some(k) => k,
    };
    let j = skip_ws(s, k.1);
    if !(j < s.len() && s[j] == ':') {
        return None;
    }
    let v0 = skip_ws(s, j + 1);
    let kind2: Option<String>;
    let score2: Option<String>;
    let after: usize;
    if chars_eq_str(&k.0, "type") {
        match parse_opt_string_exec(s, v0) {
            Some(p) => {
                kind2 = p.0;
                score2 = score;
                after = p.1;
            },
            None => {
                return None;
            },
        }
    } else if chars_eq_str(&k.0, "score") {
        match parse_opt_string_exec(s, v0) {
            Some(p) => {
                kind2 = kind;
                score2 = p.0;
                after = p.1;
            },
            None => {
                return None;
            },
        }
    } else {
        match skip_value_exec(s, v0) {
            Some(e) => {
                kind2 = kind;
                score2 = score;
                after = e;
            },
            None => {
                return None;
            },
        }
    }
    let m = skip_ws(s, after);
    if m < s.len() && s[m] == ',' {
        let nk = skip_ws(s, m + 1);
        if i < nk && nk <= s.len() {
            sev_members_exec(s, nk, kind2, score2)
        } else {
            None
        }
    } else if m < s.len() && s[m] == '}' {
        Some((OsvSeverity { kind: kind2, score: score2 }, m + 1))
    } else {
        None
    }
}

fn parse_sev_obj_exec(s: &Vec<char>, i: usize) -> (r: Option<(OsvSeverity, usize)>)
    requires
        i <= s@.len(),
    ensures
        sev_result_ok(r, parse_sev_obj(s@, i as int), i as int, s@.len() as int),
{
    if !(i < s.len() && s[i] == '{') {
        return None;
    }
    let j = skip_ws(s, i + 1);
    if j < s.len() && s[j] == '}' {
        Some((OsvSeverity { kind: None, score: None }, j + 1))
    } else {
        sev_members_exec(s, j, None, None)
    }
}

fn sev_items_exec(s: &Vec<char>, i: usize, acc: Vec<OsvSeverity>) -> (r: Option<
    (Vec<OsvSeverity>, usize),
>)
    requires
        i <= s@.len(),
    ensures
        sevs_result_ok(r, sev_items(s@, i as int, sevs_view(acc@)), i as int, s@.len() as int),
    decreases s@.len() - i,
{
    let p = match parse_sev_obj_exec(s, i) {
        None => {
            return None;
        },
        Some(p) => p,
    };
    let j = skip_ws(s, p.1);
    if j < s.len() && s[j] == ',' {
        let ni = skip_ws(s, j + 1);
        if i < ni && ni <= s.len() {
            let mut acc2 = acc;
            acc2.push(p.0);
            proof {
                assert(sevs_view(acc2@) =~= sevs_view(acc@).push(p.0@));
            }
            sev_items_exec(s, ni, acc2)
        } else {
            None
        }
    } else if j < s.len() && s[j] == ']' {
        let mut acc2 = acc;
        acc2.push(p.0);
        proof {
            assert(sevs_view(acc2@) =~= sevs_view(acc@).push(p.0@));
        }
        Some((acc2, j + 1))
    } else {
        None
    }
}

fn parse_sev_array_exec(s: &Vec<char>, i: usize) -> (r: Option<(Vec<OsvSeverity>, usize)>)
    requires
        i <= s@.len(),
    ensures
        sevs_result_ok(r, parse_sev_array(s@, i as int), i as int, s@.len() as int),
{
    if !(i < s.len() && s[i] == '[') {
        return None;
    }
    let j = skip_ws(s, i + 1);
    if j < s.len() && s[j] == ']' {
        let empty: Vec<OsvSeverity> = Vec::new();
        proof {
            assert(sevs_view(empty@) =~= Seq::<SeverityView>::empty());
        }
        Some((empty, j + 1))
    } else {
        let empty: Vec<OsvSeverity> = Vec::new();
        proof {
            assert(sevs_view(empty@) =~= Seq::<SeverityView>::empty());
        }
        sev_items_exec(s, j, empty)
    }
}


// ---------------------------------------------------------------------------
// advisories
// ---------------------------------------------------------------------------

pub open spec fn opt_sevs_view(o: Option<Vec<OsvSeverity>>) -> Option<Seq<SeverityView>> {
    match o {
        Some(v) => Some(sevs_view(v@)),
        None => None,
    }
}

/// The members of an advisory object from the first key at `i`, with the
/// members seen so far. At the closing brace the `id` member must have been
/// seen; a missing `severity` defaults to the empty sequence.
pub open spec fn adv_members(
    s: Seq<char>,
    i: int,
    id: Option<Seq<char>>,
    summary: Option<Seq<char>>,
    details: Option<Seq<char>>,
    severity: Option<Seq<SeverityView>>,
) -> Option<(AdvisoryView, int)>
    decreases s.len() - i,
{
    match parse_string(s, i) {
        None => None,
        Some(k) => {
            let j = ws_end(s, k.1);
            if !(j < s.len() && s[j] == ':') {
                None
            } else {
                let v0 = ws_end(s, j + 1);
                let step: Option<
                    (
                        Option<Seq<char>>,
                        Option<Seq<char>>,
                        Option<Seq<char>>,
                        Option<Seq<SeverityView>>,
                        int,
                    ),
                > = if k.0 == "id"@ {
                    match parse_string(s, v0) {
                        Some(p) => Some((Some(p.0), summary, details, severity, p.1)),
                        None => None,
                    }
                } else if k.0 == "summary"@ {
                    match parse_opt_string(s, v0) {
                        Some(p) => Some((id, p.0, details, severity, p.1)),
                        None => None,
                    }
                } else if k.0 == "details"@ {
                    match parse_opt_string(s, v0) {
                        Some(p) => Some((id, summary, p.0, severity, p.1)),
                        None => None,
                    }
                } else if k.0 == "severity"@ {
                    match parse_sev_array(s, v0) {
                        Some(p) => Some((id, summary, details, Some(p.0), p.1)),
                        None => None,
                    }
                } else {
                    match skip_value(s, v0) {
                        Some(e) => Some((id, summary, details, severity, e)),
                        None => None,
                    }
                };
                match step {
                    None => None,
                    Some(st) => {
                        let m = ws_end(s, st.4);
                        if m < s.len() && s[m] == ',' {
                            let nk = ws_end(s, m + 1);
                            if i < nk && nk <= s.len() {
                                adv_members(s, nk, st.0, st.1, st.2, st.3)
                            } else {
                                None
                            }
                        } else if m < s.len() && s[m] == '}' {
                            match st.0 {
                                Some(idv) => Some(
                                    (
                                        AdvisoryView {
                                            id: idv,
                                            summary: st.1,
                                            details: st.2,
                                            severity: match st.3 {
                                                Some(sv) => sv,
                                                None => Seq::empty(),
                                            },
                                        },
                                        m + 1,
                                    ),
                                ),
                                None => None,
                            }
                        } else {
                            None
                        }
                    },
                }
            }
        },
    }
}

/// An advisory object at `i` (at the opening brace); an object without an
/// `id` member is rejected.
#[verifier::opaque]
pub open spec fn parse_advisory(s: Seq<char>, i: int) -> Option<(AdvisoryView, int)> {
    if !(0 <= i < s.len() && s[i] == '{') {
        None
    } else {
        let j = ws_end(s, i + 1);
        if j < s.len() && s[j] == '}' {
            None
        } else {
            adv_members(s, j, None, None, None, None)
        }
    }
}

/// The items of the advisory array from the first item at `i`.
pub open spec fn adv_items(s: Seq<char>, i: int, acc: Seq<AdvisoryView>) -> Option<
    (Seq<AdvisoryView>, int),
>
    decreases s.len() - i,
{
    match parse_advisory(s, i) {
        None => None,
        Some(p) => {
            let j = ws_end(s, p.1);
            if j < s.len() && s[j] == ',' {
                let ni = ws_end(s, j + 1);
                if i < ni && ni <= s.len() {
                    adv_items(s, ni, acc.push(p.0))
                } else {
                    None
                }
            } else if j < s.len() && s[j] == ']' {
                Some((acc.push(p.0), j + 1))
            } else {
                None
            }
        },
    }
}

/// The advisory array at `i` (at the opening bracket).
pub open spec fn parse_adv_array(s: Seq<char>, i: int) -> Option<(Seq<AdvisoryView>, int)> {
    if !(0 <= i < s.len() && s[i] == '[') {
        None
    } else {
        let j = ws_end(s, i + 1);
        if j < s.len() && s[j] == ']' {
            Some((Seq::empty(), j + 1))
        } else {
            adv_items(s, j, Seq::empty())
        }
    }
}

pub open spec fn adv_result_ok(
    r: Option<(OsvAdvisory, usize)>,
    q: Option<(AdvisoryView, int)>,
    lo: int,
    hi: int,
) -> bool {
    match (r, q) {
        (Some(p), Some(t)) => p.0@ == t.0 && p.1 as int == t.1 && lo < p.1 as int <= hi,
        (None, None) => true,
        _ => false,
    }
}

pub open spec fn advs_result_ok(
    r: Option<(Vec<OsvAdvisory>, usize)>,
    q: Option<(Seq<AdvisoryView>, int)>,
    lo: int,
    hi: int,
) -> bool {
    match (r, q) {
        (Some(p), Some(t)) => advs_view(p.0@) == t.0 && p.1 as int == t.1 && lo < p.1 as int <= hi,
        (None, None) => true,
        _ => false,
    }
}

fn adv_members_exec(
    s: &Vec<char>,
    i: usize,
    id: Option<String>,
    summary: Option<String>,
    details: Option<String>,
    severity: Option<Vec<OsvSeverity>>,
) -> (r: Option<(OsvAdvisory, usize)>)
    requires
        i <= s@.len(),
    ensures
        adv_result_ok(
            r,
            adv_members(
                s@,
                i as int,
                opt_view(id),
                opt_view(summary),
                opt_view(details),
                opt_sevs_view(severity),
            ),
            i as int,
            s@.len() as int,
        ),
    decreases s@.len() - i,
{
    let k = match parse_string_exec(s, i) {
        None => {
            return None;
        },
        Some(k) => k,
    };
    let j = skip_ws(s, k.1);
    if !(j < s.len() && s[j] == ':') {
        return None;
    }
    let v0 = skip_ws(s, j + 1);
    let id2: Option<String>;
    let summary2: Option<String>;
    let details2: Option<String>;
    let severity2: Option<Vec<OsvSeverity>>;
    let after: usize;
    if chars_eq_str(&k.0, "id") {
        match parse_string_exec(s, v0) {
            Some(p) => {
                id2 = Some(string_from_chars(&p.0));
                summary2 = summary;
                details2 = details;
                severity2 = severity;
                after = p.1;
            },
            None => {
                return None;
            },
        }
    } else if chars_eq_str(&k.0, "summary") {
        match parse_opt_string_exec(s, v0) {
            Some(p) => {
                id2 = id;
                summary2 = p.0;
                details2 = details;
                severity2 = severity;
                after = p.1;
            },
            None => {
                return None;
            },
        }
    } else if chars_eq_str(&k.0, "details") {
        match parse_opt_string_exec(s, v0) {
            Some(p) => {
                id2 = id;
                summary2 = summary;
                details2 = p.0;
                severity2 = severity;
                after = p.1;
            },
            None => {
                return None;
            },
        }
    } else if chars_eq_str(&k.0, "severity") {
        match parse_sev_array_exec(s, v0) {
            Some(p) => {
                id2 = id;
                summary2 = summary;
                details2 = details;
                severity2 = Some(p.0);
                after = p.1;
            },
            None => {
                return None;
            },
        }
    } else {
        match skip_value_exec(s, v0) {
            Some(e) => {
                id2 = id;
                summary2 = summary;
                details2 = details;
                severity2 = severity;
                after = e;
            },
            None => {
                return None;
            },
        }
    }
    let m = skip_ws(s, after);
    if m < s.len() && s[m] == ',' {
        let nk = skip_ws(s, m + 1);
        if i < nk && nk <= s.len() {
            adv_members_exec(s, nk, id2, summary2, details2, severity2)
        } else {
            None
        }
    } else if m < s.len() && s[m] == '}' {
        match id2 {
            Some(idv) => {
                let sev_vec: Vec<OsvSeverity> = match severity2 {
                    Some(v) => v,
                    None => {
                        let empty: Vec<OsvSeverity> = Vec::new();
                        proof {
                            assert(sevs_view(empty@) =~= Seq::<SeverityView>::empty());
                        }
                        empty
                    },
                };
                let adv = OsvAdvisory {
                    id: idv,
                    summary: summary2,
                    details: details2,
                    severity: sev_vec,
                };
                proof {
                    assert(adv@.severity =~= sevs_view(adv.severity@));
                }
                Some((adv, m + 1))
            },
            None => None,
        }
    } else {
        None
    }
}

fn parse_advisory_exec(s: &Vec<char>, i: usize) -> (r: Option<(OsvAdvisory, usize)>)
    requires
        i <= s@.len(),
    ensures
        adv_result_ok(r, parse_advisory(s@, i as int), i as int, s@.len() as int),
{
    proof {
        reveal(parse_advisory);
    }
    if !(i < s.len() && s[i] == '{') {
        return None;
    }
    let j = skip_ws(s, i + 1);
    if j < s.len() && s[j] == '}' {
        None
    } else {
        adv_members_exec(s, j, None, None, None, None)
    }
}

fn adv_items_exec(s: &Vec<char>, i: usize, acc: Vec<OsvAdvisory>) -> (r: Option<
    (Vec<OsvAdvisory>, usize),
>)
    requires
        i <= s@.len(),
    ensures
        advs_result_ok(r, adv_items(s@, i as int, advs_view(acc@)), i as int, s@.len() as int),
    decreases s@.len() - i,
{
    let p = match parse_advisory_exec(s, i) {
        None => {
            return None;
        },
        Some(p) => p,
    };
    let j = skip_ws(s, p.1);
    if j < s.len() && s[j] == ',' {
        let ni = skip_ws(s, j + 1);
        if i < ni && ni <= s.len() {
            let mut acc2 = acc;
            acc2.push(p.0);
            proof {
                assert(advs_view(acc2@) =~= advs_view(acc@).push(p.0@));
            }
            adv_items_exec(s, ni, acc2)
        } else {
            None
        }
    } else if j < s.len() && s[j] == ']' {
        let mut acc2 = acc;
        acc2.push(p.0);
        proof {
            assert(advs_view(acc2@) =~= advs_view(acc@).push(p.0@));
        }
        Some((acc2, j + 1))
    } else {
        None
    }
}

fn parse_adv_array_exec(s: &Vec<char>, i: usize) -> (r: Option<(Vec<OsvAdvisory>, usize)>)
    requires
        i <= s@.len(),
    ensures
        advs_result_ok(r, parse_adv_array(s@, i as int), i as int, s@.len() as int),
{
    if !(i < s.len() && s[i] == '[') {
        return None;
    }
    let j = skip_ws(s, i + 1);
    if j < s.len() && s[j] == ']' {
        let empty: Vec<OsvAdvisory> = Vec::new();
        proof {
            assert(advs_view(empty@) =~= Seq::<AdvisoryView>::empty());
        }
        Some((empty, j + 1))
    } else {
        let empty: Vec<OsvAdvisory> = Vec::new();
        proof {
            assert(advs_view(empty@) =~= Seq::<AdvisoryView>::empty());
        }
        adv_items_exec(s, j, empty)
    }
}

// ---------------------------------------------------------------------------
// the response object
// ---------------------------------------------------------------------------

/// The members of the response object from the first key at `i`. The `vulns`
/// member may be null (decoded as empty) or an advisory array; every other
/// member is skipped. A response without `vulns` decodes as empty.
pub open spec fn resp_members(s: Seq<char>, i: int, vulns: Option<Seq<AdvisoryView>>) -> Option<
    (Seq<AdvisoryView>, int),
>
    decreases s.len() - i,
{
    match parse_string(s, i) {
        None => None,
        Some(k) => {
            let j = ws_end(s, k.1);
            if !(j < s.len() && s[j] == ':') {
                None
            } else {
                let v0 = ws_end(s, j + 1);
                let step: Option<(Option<Seq<AdvisoryView>>, int)> = if k.0 == "vulns"@ {
                    if is_null_at(s, v0) {
                        Some((Some(Seq::empty()), v0 + 4))
                    } else {
                        match parse_adv_array(s, v0) {
                            Some(p) => Some((Some(p.0), p.1)),
                            None => None,
                        }
                    }
                } else {
                    match skip_value(s, v0) {
                        Some(e) => Some((vulns, e)),
                        None => None,
                    }
                };
                match step {
                    None => None,
                    Some(st) => {
                        let m = ws_end(s, st.1);
                        if m < s.len() && s[m] == ',' {
                            let nk = ws_end(s, m + 1);
                            if i < nk && nk <= s.len() {
                                resp_members(s, nk, st.0)
                            } else {
                                None
                            }
                        } else if m < s.len() && s[m] == '}' {
                            Some(
                                (
                                    match st.0 {
                                        Some(v) => v,
                                        None => Seq::empty(),
                                    },
                                    m + 1,
                                ),
                            )
                        } else {
                            None
                        }
                    },
                }
            }
        },
    }
}

/// The advisories of a whole response document: one JSON object, with
/// nothing but whitespace around it.
pub open spec fn spec_parse_response(s: Seq<char>) -> Option<Seq<AdvisoryView>> {
    let i = ws_end(s, 0);
    if !(i < s.len() && s[i] == '{') {
        None
    } else {
        let j = ws_end(s, i + 1);
        let inner: Option<(Seq<AdvisoryView>, int)> = if j < s.len() && s[j] == '}' {
            Some((Seq::empty(), j + 1))
        } else {
            resp_members(s, j, None)
        };
        match inner {
            None => None,
            Some(p) => {
                if ws_end(s, p.1) == s.len() {
                    Some(p.0)
                } else {
                    None
                }
            },
        }
    }
}

pub open spec fn opt_advs_view(o: Option<Vec<OsvAdvisory>>) -> Option<Seq<AdvisoryView>> {
    match o {
        Some(v) => Some(advs_view(v@)),
        None => None,
    }
}

fn resp_members_exec(s: &Vec<char>, i: usize, vulns: Option<Vec<OsvAdvisory>>) -> (r: Option<
    (Vec<OsvAdvisory>, usize),
>)
    requires
        i <= s@.len(),
    ensures
        advs_result_ok(
            r,
            resp_members(s@, i as int, opt_advs_view(vulns)),
            i as int,
            s@.len() as int,
        ),
    decreases s@.len() - i,
{
    let k = match parse_string_exec(s, i) {
        None => {
            return None;
        },
        Some(k) => k,
    };
    let j = skip_ws(s, k.1);
    if !(j < s.len() && s[j] == ':') {
        return None;
    }
    let v0 = skip_ws(s, j + 1);
    let vulns2: Option<Vec<OsvAdvisory>>;
    let after: usize;
    if chars_eq_str(&k.0, "vulns") {
        if is_null_at_exec(s, v0) {
            let empty: Vec<OsvAdvisory> = Vec::new();
            proof {
                assert(advs_view(empty@) =~= Seq::<AdvisoryView>::empty());
            }
            vulns2 = Some(empty);
            after = v0 + 4;
        } else {
            match parse_adv_array_exec(s, v0) {
                Some(p) => {
                    vulns2 = Some(p.0);
                    after = p.1;
                },
                None => {
                    return None;
                },
            }
        }
    } else {
        match skip_value_exec(s, v0) {
            Some(e) => {
                vulns2 = vulns;
                after = e;
            },
            None => {
                return None;
            },
        }
    }
    let m = skip_ws(s, after);
    if m < s.len() && s[m] == ',' {
        let nk = skip_ws(s, m + 1);
        if i < nk && nk <= s.len() {
            resp_members_exec(s, nk, vulns2)
        } else {
            None
        }
    } else if m < s.len() && s[m] == '}' {
        let out: Vec<OsvAdvisory> = match vulns2 {
            Some(v) => v,
            None => {
                let empty: Vec<OsvAdvisory> = Vec::new();
                proof {
                    assert(advs_view(empty@) =~= Seq::<AdvisoryView>::empty());
                }
                empty
            },
        };
        Some((out, m + 1))
    } else {
        None
    }
}

/// Decodes a response body; `None` when the body is not a JSON object of
/// the shape the decoder accepts.
pub fn decode_response(body: &str) -> (r: Option<OsvResponse>)
    ensures
        match (r, spec_parse_response(body@)) {
            (Some(resp), Some(advs)) => resp@ == advs,
            (None, None) => true,
            _ => false,
        },
{
    let s = chars_of(body);
    let i = skip_ws(&s, 0);
    if !(i < s.len() && s[i] == '{') {
        return None;
    }
    let j = skip_ws(&s, i + 1);
    let inner: Option<(Vec<OsvAdvisory>, usize)> = if j < s.len() && s[j] == '}' {
        let empty: Vec<OsvAdvisory> = Vec::new();
        proof {
            assert(advs_view(empty@) =~= Seq::<AdvisoryView>::empty());
        }
        Some((empty, j + 1))
    } else {
        resp_members_exec(&s, j, None)
    };
    match inner {
        None => None,
        Some(p) => {
            if skip_ws(&s, p.1) == s.len() {
                let resp = OsvResponse { vulns: p.0 };
                proof {
                    assert(resp@ =~= advs_view(resp.vulns@));
                }
                Some(resp)
            } else {
                None
            }
        },
    }
}

// ---------------------------------------------------------------------------
// response handling and errors
// ---------------------------------------------------------------------------

/// What goes wrong after the HTTP exchange produced a status and a body:
/// the service answered outside the 2xx range, or the body did not decode.
#[derive(Clone, Debug, PartialEq)]
pub enum OsvError {
    Service { status: u16, body: String },
    Decode,
}

/// The one-line description of an error.
pub open spec fn spec_message(e: OsvError) -> Seq<char> {
    match e {
        OsvError::Service { status, body } => "OSV error "@ + dec_view(status as nat) + ": "@
            + body@,
        OsvError::Decode => "parsing OSV JSON failed"@,
    }
}

impl OsvError {
    /// Renders the error as one human-readable line.
    pub fn message(&self) -> (r: String)
        ensures
            r@ == spec_message(*self),
    {
        match self {
            OsvError::Service { status, body } => {
                let mut m = String::new();
                m.append("OSV error ");
                let digits = dec_chars(*status as u64);
                let ds = string_from_chars(&digits);
                m.append(ds.as_str());
                m.append(": ");
                m.append(body.as_str());
                proof {
                    assert(m@ =~= spec_message(*self));
                }
                m
            },
            OsvError::Decode => {
                let mut m = String::new();
                m.append("parsing OSV JSON failed");
                proof {
                    assert(m@ =~= spec_message(*self));
                }
                m
            },
        }
    }
}

/// Interprets one completed HTTP exchange: a non-2xx status is a service
/// error carrying the status and the verbatim body; a 2xx body must decode
/// per the response grammar, else the result is a decode error.
pub fn handle_response(status: u16, body: &str) -> (r: Result<OsvResponse, OsvError>)
    ensures
        match r {
            Ok(resp) => 200 <= status < 300 && spec_parse_response(body@) == Some(resp@),
            Err(e) => match e {
                OsvError::Service { status: st, body: b } => !(200 <= status < 300) && st == status
                    && b@ == body@,
                OsvError::Decode => 200 <= status < 300 && spec_parse_response(body@) is None,
            },
        },
{
    if !(200 <= status && status < 300) {
        return Err(OsvError::Service { status, body: String::from_str(body) });
    }
    match decode_response(body) {
        Some(resp) => Ok(resp),
        None => Err(OsvError::Decode),
    }
}

} // verus!


