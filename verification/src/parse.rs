//! The state-file format, reading side: a mathematical definition of what
//! each piece of JSON text parses to, executable parsers proved to return
//! exactly that, and the load-time fallback chain (current shape, then the
//! legacy single-setup shape, then the built-in default).
//!
//! The grammar is the one the writer produces: objects with their members in
//! declaration order, whitespace free between tokens, optional members
//! allowed to be `null` or absent, string escapes `\" \\ \/ \b \f \n \r \t`
//! and `\uXXXX`.
use vstd::prelude::*;

use crate::model::{
    view_opt_string, AllSetupsState, CommentaryState, MatchMeta, OverlayState, PlayerState,
    SpecAll, SpecCommentary, SpecMeta, SpecOverlay, SpecPlayer,
};
use crate::ser::{false_seq, null_seq, true_seq};
use crate::text::push_char;

verus! {

/// JSON whitespace.
pub open spec fn is_ws(c: char) -> bool {
    c == ' ' || c == '\n' || c == '\t' || c == '\r'
}

/// The first index at or after `i` that does not hold whitespace.
pub open spec fn skip_ws(t: Seq<char>, i: int) -> int
    decreases t.len() - i,
{
    if 0 <= i && i < t.len() && is_ws(t[i]) {
        skip_ws(t, i + 1)
    } else {
        i
    }
}

/// A decimal digit.
pub open spec fn is_digit(c: char) -> bool {
    48 <= c as u32 && c as u32 <= 57
}

/// The value of a decimal digit.
pub open spec fn dval(c: char) -> nat {
    (c as u32 - 48) as nat
}

/// The value of a hexadecimal digit, sixteen for anything else.
pub open spec fn hex_v(c: char) -> nat {
    if is_digit(c) {
        dval(c)
    } else if 97 <= c as u32 && c as u32 <= 102 {
        (c as u32 - 87) as nat
    } else if 65 <= c as u32 && c as u32 <= 70 {
        (c as u32 - 55) as nat
    } else {
        16
    }
}

/// A hexadecimal digit.
pub open spec fn is_hex(c: char) -> bool {
    hex_v(c) < 16
}

/// Greedily consumed digits starting at `i`, folded onto `acc`; also the
/// first index past them.
pub open spec fn p_digits(t: Seq<char>, i: int, acc: nat) -> (nat, int)
    decreases t.len() - i,
{
    if 0 <= i && i < t.len() && is_digit(t[i]) {
        p_digits(t, i + 1, acc * 10 + dval(t[i]))
    } else {
        (acc, i)
    }
}

/// A non-negative decimal number: at least one digit, value unbounded.
pub open spec fn p_number(t: Seq<char>, i: int) -> Option<(nat, int)> {
    if 0 <= i && i < t.len() && is_digit(t[i]) {
        Some(p_digits(t, i, 0))
    } else {
        None
    }
}

/// The exact characters of `lit` at `i`.
pub open spec fn p_lit(t: Seq<char>, i: int, lit: Seq<char>) -> Option<int> {
    if 0 <= i && i + lit.len() <= t.len() && t.subrange(i, i + lit.len()) == lit {
        Some(i + lit.len())
    } else {
        None
    }
}

/// The single-character string escapes.
pub open spec fn esc_code(e: char) -> Option<char> {
    if e == '"' {
        Some('"')
    } else if e == '\\' {
        Some('\\')
    } else if e == '/' {
        Some('/')
    } else if e == 'b' {
        Some('\u{8}')
    } else if e == 'f' {
        Some('\u{c}')
    } else if e == 'n' {
        Some('\n')
    } else if e == 'r' {
        Some('\r')
    } else if e == 't' {
        Some('\t')
    } else {
        None
    }
}

/// The rest of a string body starting at `i` (the opening quote already
/// consumed): its unescaped characters and the index past the closing quote.
pub open spec fn p_chars(t: Seq<char>, i: int) -> Option<(Seq<char>, int)>
    decreases t.len() - i,
{
    if !(0 <= i && i < t.len()) {
        None
    } else if t[i] == '"' {
        Some((Seq::empty(), i + 1))
    } else if t[i] == '\\' {
        if i + 1 < t.len() {
            if t[i + 1] == 'u' {
                if i + 6 <= t.len() && is_hex(t[i + 2]) && is_hex(t[i + 3]) && is_hex(t[i + 4])
                    && is_hex(t[i + 5]) {
                    let v = hex_v(t[i + 2]) * 4096 + hex_v(t[i + 3]) * 256 + hex_v(t[i + 4]) * 16
                        + hex_v(t[i + 5]);
                    if v < 0xD800 || v >= 0xE000 {
                        match p_chars(t, i + 6) {
                            Some((rest, j)) => Some((seq![(v as u32) as char] + rest, j)),
                            None => None,
                        }
                    } else {
                        None
                    }
                } else {
                    None
                }
            } else {
                match esc_code(t[i + 1]) {
                    Some(c) => match p_chars(t, i + 2) {
                        Some((rest, j)) => Some((seq![c] + rest, j)),
                        None => None,
                    },
                    None => None,
                }
            }
        } else {
            None
        }
    } else if (t[i] as u32) < 32 {
        None
    } else {
        match p_chars(t, i + 1) {
            Some((rest, j)) => Some((seq![t[i]] + rest, j)),
            None => None,
        }
    }
}

/// A whole JSON string at `i`, quotes included.
pub open spec fn p_string(t: Seq<char>, i: int) -> Option<(Seq<char>, int)> {
    if 0 <= i && i < t.len() && t[i] == '"' {
        p_chars(t, i + 1)
    } else {
        None
    }
}

/// The quoted key `k` standing at `i`.
pub open spec fn key_at(t: Seq<char>, i: int, k: Seq<char>) -> bool {
    &&& 0 <= i
    &&& i + k.len() + 2 <= t.len()
    &&& t[i] == '"'
    &&& t.subrange(i + 1, i + 1 + k.len()) == k
    &&& t[i + 1 + k.len()] == '"'
}

/// The quoted key `k` at `i`, its colon, and any whitespace around the
/// colon; the result points at the member's value.
pub open spec fn p_key_colon(t: Seq<char>, i: int, k: Seq<char>) -> Option<int> {
    if key_at(t, i, k) {
        let a = skip_ws(t, i + k.len() + 2);
        if a < t.len() && t[a] == ':' {
            Some(skip_ws(t, a + 1))
        } else {
            None
        }
    } else {
        None
    }
}

/// An opening brace and what follows it: `(false, j)` with `j` at the
/// closing brace of an empty object, else `(true, j)` with `j` at the first
/// member's key.
pub open spec fn p_obj_open(t: Seq<char>, i: int) -> Option<(bool, int)> {
    if 0 <= i && i < t.len() && t[i] == '{' {
        let j = skip_ws(t, i + 1);
        if j < t.len() && t[j] == '}' {
            Some((false, j))
        } else {
            Some((true, j))
        }
    } else {
        None
    }
}

/// What follows a member's value: a comma (`true`, next key) or the closing
/// brace (`false`, index of the brace).
pub open spec fn p_member_end(t: Seq<char>, i: int) -> Option<(bool, int)> {
    let j = skip_ws(t, i);
    if j < t.len() && t[j] == ',' {
        Some((true, skip_ws(t, j + 1)))
    } else if j < t.len() && t[j] == '}' {
        Some((false, j))
    } else {
        None
    }
}

/// The closing brace, only legal when no further member is announced.
pub open spec fn p_obj_close(t: Seq<char>, more: bool, k: int) -> Option<int> {
    if !more && 0 <= k && k < t.len() && t[k] == '}' {
        Some(k + 1)
    } else {
        None
    }
}

fn is_ws_char(c: char) -> (r: bool)
    ensures
        r == is_ws(c),
{
    c == ' ' || c == '\n' || c == '\t' || c == '\r'
}

fn e_skip_ws(s: &str, i: usize) -> (r: usize)
    requires
        i <= s@.len(),
    ensures
        r as int == skip_ws(s@, i as int),
        i <= r <= s@.len(),
{
    let n = s.unicode_len();
    let mut j = i;
    while j < n && is_ws_char(s.get_char(j))
        invariant
            i <= j <= n,
            n == s@.len(),
            skip_ws(s@, j as int) == skip_ws(s@, i as int),
        decreases n - j,
    {
        j += 1;
    }
    j
}

fn e_lit(s: &str, i: usize, lit: &str) -> (r: Option<usize>)
    requires
        i <= s@.len(),
    ensures
        match r {
            Some(j) => p_lit(s@, i as int, lit@) == Some(j as int) && i <= j <= s@.len(),
            None => p_lit(s@, i as int, lit@) is None,
        },
{
    let n = s.unicode_len();
    let m = lit.unicode_len();
    if n - i < m {
        return None;
    }
    let mut k: usize = 0;
    while k < m
        invariant
            k <= m,
            m == lit@.len(),
            n == s@.len(),
            i + m <= n,
            forall|l: int| 0 <= l < k ==> s@[i + l] == lit@[l],
        decreases m - k,
    {
        if s.get_char(i + k) != lit.get_char(k) {
            proof {
                assert(s@.subrange(i as int, i + m) != lit@) by {
                    assert(s@.subrange(i as int, i + m)[k as int] == s@[i + k]);
                }
            }
            return None;
        }
        k += 1;
    }
    proof {
        assert(s@.subrange(i as int, i + m) =~= lit@);
    }
    Some(i + m)
}

fn e_key_at(s: &str, i: usize, key: &str) -> (r: bool)
    requires
        i <= s@.len(),
    ensures
        r == key_at(s@, i as int, key@),
{
    let n = s.unicode_len();
    if i < n && s.get_char(i) == '"' {
        match e_lit(s, i + 1, key) {
            Some(j) => {
                if j < n && s.get_char(j) == '"' {
                    proof {
                        assert(s@.subrange(i + 1, i + 1 + key@.len()) == key@);
                    }
                    true
                } else {
                    false
                }
            },
            None => false,
        }
    } else {
        false
    }
}

fn e_key_colon(s: &str, i: usize, key: &str) -> (r: Option<usize>)
    requires
        i <= s@.len(),
    ensures
        match r {
            Some(j) => p_key_colon(s@, i as int, key@) == Some(j as int) && j <= s@.len(),
            None => p_key_colon(s@, i as int, key@) is None,
        },
{
    let n = s.unicode_len();
    if !e_key_at(s, i, key) {
        return None;
    }
    let klen = key.unicode_len();
    let a = e_skip_ws(s, i + klen + 2);
    if a < n && s.get_char(a) == ':' {
        Some(e_skip_ws(s, a + 1))
    } else {
        None
    }
}

fn e_obj_open(s: &str, i: usize) -> (r: Option<(bool, usize)>)
    requires
        i <= s@.len(),
    ensures
        match r {
            Some((m, j)) => p_obj_open(s@, i as int) == Some((m, j as int)) && j <= s@.len(),
            None => p_obj_open(s@, i as int) is None,
        },
{
    let n = s.unicode_len();
    if i < n && s.get_char(i) == '{' {
        let j = e_skip_ws(s, i + 1);
        if j < n && s.get_char(j) == '}' {
            Some((false, j))
        } else {
            Some((true, j))
        }
    } else {
        None
    }
}

fn e_member_end(s: &str, i: usize) -> (r: Option<(bool, usize)>)
    requires
        i <= s@.len(),
    ensures
        match r {
            Some((m, j)) => p_member_end(s@, i as int) == Some((m, j as int)) && j <= s@.len(),
            None => p_member_end(s@, i as int) is None,
        },
{
    let n = s.unicode_len();
    let j = e_skip_ws(s, i);
    if j < n && s.get_char(j) == ',' {
        Some((true, e_skip_ws(s, j + 1)))
    } else if j < n && s.get_char(j) == '}' {
        Some((false, j))
    } else {
        None
    }
}

fn e_obj_close(s: &str, more: bool, k: usize) -> (r: Option<usize>)
    requires
        k <= s@.len(),
    ensures
        match r {
            Some(j) => p_obj_close(s@, more, k as int) == Some(j as int) && j <= s@.len(),
            None => p_obj_close(s@, more, k as int) is None,
        },
{
    let n = s.unicode_len();
    if !more && k < n && s.get_char(k) == '}' {
        Some(k + 1)
    } else {
        None
    }
}

fn hex_val(c: char) -> (r: u32)
    ensures
        r as nat == hex_v(c),
{
    let u = c as u32;
    if 48 <= u && u <= 57 {
        u - 48
    } else if 97 <= u && u <= 102 {
        u - 87
    } else if 65 <= u && u <= 70 {
        u - 55
    } else {
        16
    }
}

/// Relies on std's `char::from_u32`: yields the character with that code
/// point, or nothing when the value is a surrogate or past the last code
/// point.
#[verifier::external_body]
fn char_from_u32(v: u32) -> (r: Option<char>)
    ensures
        r is Some <==> (v < 0xD800 || (0xE000 <= v && v <= 0x10FFFF)),
        r matches Some(c) ==> c == v as char,
{
    char::from_u32(v)
}

fn e_chars(s: &str, i: usize) -> (r: Option<(String, usize)>)
    requires
        i <= s@.len(),
    ensures
        match r {
            Some((body, j)) => p_chars(s@, i as int) == Some((body@, j as int)) && j <= s@.len(),
            None => p_chars(s@, i as int) is None,
        },
    decreases s@.len() - i,
{
    let n = s.unicode_len();
    if i >= n {
        return None;
    }
    let c = s.get_char(i);
    if c == '"' {
        let mut body = String::new();
        proof {
            assert(body@ =~= Seq::<char>::empty());
        }
        return Some((body, i + 1));
    }
    if c == '\\' {
        if i + 1 >= n {
            return None;
        }
        let e = s.get_char(i + 1);
        if e == 'u' {
            if n - i < 6 {
                return None;
            }
            let h2 = hex_val(s.get_char(i + 2));
            let h3 = hex_val(s.get_char(i + 3));
            let h4 = hex_val(s.get_char(i + 4));
            let h5 = hex_val(s.get_char(i + 5));
            if h2 >= 16 || h3 >= 16 || h4 >= 16 || h5 >= 16 {
                return None;
            }
            let v = h2 * 4096 + h3 * 256 + h4 * 16 + h5;
            match char_from_u32(v) {
                Some(decoded) => {
                    match e_chars(s, i + 6) {
                        Some((rest, j)) => {
                            let mut body = String::new();
                            push_char(&mut body, decoded);
                            body.append(rest.as_str());
                            proof {
                                assert(body@ =~= seq![decoded] + rest@);
                            }
                            Some((body, j))
                        },
                        None => None,
                    }
                },
                None => None,
            }
        } else {
            let decoded: char;
            if e == '"' {
                decoded = '"';
            } else if e == '\\' {
                decoded = '\\';
            } else if e == '/' {
                decoded = '/';
            } else if e == 'b' {
                decoded = '\u{8}';
            } else if e == 'f' {
                decoded = '\u{c}';
            } else if e == 'n' {
                decoded = '\n';
            } else if e == 'r' {
                decoded = '\r';
            } else if e == 't' {
                decoded = '\t';
            } else {
                return None;
            }
            match e_chars(s, i + 2) {
                Some((rest, j)) => {
                    let mut body = String::new();
                    push_char(&mut body, decoded);
                    body.append(rest.as_str());
                    proof {
                        assert(body@ =~= seq![decoded] + rest@);
                    }
                    Some((body, j))
                },
                None => None,
            }
        }
    } else if (c as u32) < 32 {
        None
    } else {
        match e_chars(s, i + 1) {
            Some((rest, j)) => {
                let mut body = String::new();
                push_char(&mut body, c);
                body.append(rest.as_str());
                proof {
                    assert(body@ =~= seq![c] + rest@);
                }
                Some((body, j))
            },
            None => None,
        }
    }
}

fn e_string(s: &str, i: usize) -> (r: Option<(String, usize)>)
    requires
        i <= s@.len(),
    ensures
        match r {
            Some((body, j)) => p_string(s@, i as int) == Some((body@, j as int)) && j <= s@.len(),
            None => p_string(s@, i as int) is None,
        },
{
    let n = s.unicode_len();
    if i < n && s.get_char(i) == '"' {
        e_chars(s, i + 1)
    } else {
        None
    }
}

fn is_digit_char(c: char) -> (r: bool)
    ensures
        r == is_digit(c),
{
    (c as u32) >= 48 && (c as u32) <= 57
}

fn e_number(s: &str, i: usize, cap: u64) -> (r: Option<(u64, usize)>)
    requires
        i <= s@.len(),
        cap <= 0xFFFF_FFFF,
    ensures
        match r {
            Some((v, j)) => p_number(s@, i as int) == Some((v as nat, j as int)) && v <= cap && j
                <= s@.len(),
            None => (p_number(s@, i as int) matches Some((nv, nj)) ==> nv > cap),
        },
{
    let n = s.unicode_len();
    if !(i < n) {
        return None;
    }
    let c0 = s.get_char(i);
    if !is_digit_char(c0) {
        return None;
    }
    let mut j = i;
    let mut acc: u64 = 0;
    let mut big = false;
    let ghost mut gacc: nat = 0nat;
    while j < n && is_digit_char(s.get_char(j))
        invariant
            i <= j <= n,
            n == s@.len(),
            p_digits(s@, j as int, gacc) == p_digits(s@, i as int, 0),
            big ==> gacc > 0xFFFF_FFFF,
            !big ==> acc as nat == gacc && acc <= 0xFFFF_FFFF,
        decreases n - j,
    {
        let cj = s.get_char(j);
        let d = (cj as u32) - 48;
        proof {
            assert(is_digit(s@[j as int]));
            assert(dval(s@[j as int]) == d as nat);
        }
        if big {
            proof {
                assert(gacc <= gacc * 10) by (nonlinear_arith);
                gacc = gacc * 10 + dval(s@[j as int]);
            }
        } else {
            proof {
                gacc = gacc * 10 + dval(s@[j as int]);
            }
            acc = acc * 10 + (d as u64);
            if acc > 0xFFFF_FFFF {
                big = true;
            }
        }
        j += 1;
    }
    proof {
        assert(p_digits(s@, j as int, gacc) == (gacc, j as int));
        assert(p_number(s@, i as int) == Some((gacc, j as int)));
    }
    if big {
        return None;
    }
    if acc > cap {
        return None;
    }
    Some((acc, j))
}


/// A required string-valued member, then what follows it.
pub open spec fn p_str_member(t: Seq<char>, more: bool, k: int, key: Seq<char>) -> Option<
    (Seq<char>, bool, int),
> {
    if more {
        match p_key_colon(t, k, key) {
            Some(v) => match p_string(t, v) {
                Some((sv, j)) => match p_member_end(t, j) {
                    Some((m2, k2)) => Some((sv, m2, k2)),
                    None => None,
                },
                None => None,
            },
            None => None,
        }
    } else {
        None
    }
}

/// An optional string-valued member: absent or `null` both mean "not set".
pub open spec fn p_opt_str_member(t: Seq<char>, more: bool, k: int, key: Seq<char>) -> Option<
    (Option<Seq<char>>, bool, int),
> {
    if more && key_at(t, k, key) {
        match p_key_colon(t, k, key) {
            Some(v) => match p_lit(t, v, null_seq()) {
                Some(j) => match p_member_end(t, j) {
                    Some((m2, k2)) => Some((None, m2, k2)),
                    None => None,
                },
                None => match p_string(t, v) {
                    Some((sv, j)) => match p_member_end(t, j) {
                        Some((m2, k2)) => Some((Some(sv), m2, k2)),
                        None => None,
                    },
                    None => None,
                },
            },
            None => None,
        }
    } else {
        Some((None, more, k))
    }
}

/// A required number member that must fit in a byte.
pub open spec fn p_u8_member(t: Seq<char>, more: bool, k: int, key: Seq<char>) -> Option<
    (u8, bool, int),
> {
    if more {
        match p_key_colon(t, k, key) {
            Some(v) => match p_number(t, v) {
                Some((n, j)) => if n <= 255 {
                    match p_member_end(t, j) {
                        Some((m2, k2)) => Some((n as u8, m2, k2)),
                        None => None,
                    }
                } else {
                    None
                },
                None => None,
            },
            None => None,
        }
    } else {
        None
    }
}

/// A required number member that must fit in 32 bits.
pub open spec fn p_u32_member(t: Seq<char>, more: bool, k: int, key: Seq<char>) -> Option<
    (u32, bool, int),
> {
    if more {
        match p_key_colon(t, k, key) {
            Some(v) => match p_number(t, v) {
                Some((n, j)) => if n <= 0xFFFF_FFFF {
                    match p_member_end(t, j) {
                        Some((m2, k2)) => Some((n as u32, m2, k2)),
                        None => None,
                    }
                } else {
                    None
                },
                None => None,
            },
            None => None,
        }
    } else {
        None
    }
}

/// An optional byte-sized number member.
pub open spec fn p_opt_u8_member(t: Seq<char>, more: bool, k: int, key: Seq<char>) -> Option<
    (Option<u8>, bool, int),
> {
    if more && key_at(t, k, key) {
        match p_key_colon(t, k, key) {
            Some(v) => match p_lit(t, v, null_seq()) {
                Some(j) => match p_member_end(t, j) {
                    Some((m2, k2)) => Some((None, m2, k2)),
                    None => None,
                },
                None => match p_number(t, v) {
                    Some((n, j)) => if n <= 255 {
                        match p_member_end(t, j) {
                            Some((m2, k2)) => Some((Some(n as u8), m2, k2)),
                            None => None,
                        }
                    } else {
                        None
                    },
                    None => None,
                },
            },
            None => None,
        }
    } else {
        Some((None, more, k))
    }
}

/// An optional 32-bit number member.
pub open spec fn p_opt_u32_member(t: Seq<char>, more: bool, k: int, key: Seq<char>) -> Option<
    (Option<u32>, bool, int),
> {
    if more && key_at(t, k, key) {
        match p_key_colon(t, k, key) {
            Some(v) => match p_lit(t, v, null_seq()) {
                Some(j) => match p_member_end(t, j) {
                    Some((m2, k2)) => Some((None, m2, k2)),
                    None => None,
                },
                None => match p_number(t, v) {
                    Some((n, j)) => if n <= 0xFFFF_FFFF {
                        match p_member_end(t, j) {
                            Some((m2, k2)) => Some((Some(n as u32), m2, k2)),
                            None => None,
                        }
                    } else {
                        None
                    },
                    None => None,
                },
            },
            None => None,
        }
    } else {
        Some((None, more, k))
    }
}

/// An optional boolean member.
pub open spec fn p_opt_bool_member(t: Seq<char>, more: bool, k: int, key: Seq<char>) -> Option<
    (Option<bool>, bool, int),
> {
    if more && key_at(t, k, key) {
        match p_key_colon(t, k, key) {
            Some(v) => match p_lit(t, v, null_seq()) {
                Some(j) => match p_member_end(t, j) {
                    Some((m2, k2)) => Some((None, m2, k2)),
                    None => None,
                },
                None => match p_lit(t, v, true_seq()) {
                    Some(j) => match p_member_end(t, j) {
                        Some((m2, k2)) => Some((Some(true), m2, k2)),
                        None => None,
                    },
                    None => match p_lit(t, v, false_seq()) {
                        Some(j) => match p_member_end(t, j) {
                            Some((m2, k2)) => Some((Some(false), m2, k2)),
                            None => None,
                        },
                        None => None,
                    },
                },
            },
            None => None,
        }
    } else {
        Some((None, more, k))
    }
}

/// One player object at `i`.
pub open spec fn p_player(t: Seq<char>, i: int) -> Option<(SpecPlayer, int)> {
    match p_obj_open(t, i) {
        Some((m0, k0)) => match p_str_member(t, m0, k0, "side"@) {
            Some((side, m1, k1)) => match p_opt_u8_member(t, m1, k1, "port"@) {
                Some((port, m2, k2)) => match p_str_member(t, m2, k2, "tag"@) {
                    Some((tag, m3, k3)) => match p_opt_str_member(t, m3, k3, "sponsor"@) {
                        Some((sponsor, m4, k4)) => match p_opt_str_member(t, m4, k4, "handle"@) {
                            Some((handle, m5, k5)) => match p_str_member(
                                t,
                                m5,
                                k5,
                                "character"@,
                            ) {
                                Some((character, m6, k6)) => match p_str_member(
                                    t,
                                    m6,
                                    k6,
                                    "characterColor"@,
                                ) {
                                    Some((color, m7, k7)) => match p_u32_member(
                                        t,
                                        m7,
                                        k7,
                                        "score"@,
                                    ) {
                                        Some((score, m8, k8)) => match p_opt_str_member(
                                            t,
                                            m8,
                                            k8,
                                            "countryCode"@,
                                        ) {
                                            Some((country, m9, k9)) => match p_obj_close(
                                                t,
                                                m9,
                                                k9,
                                            ) {
                                                Some(j) => Some(
                                                    (
                                                        SpecPlayer {
                                                            side,
                                                            port,
                                                            tag,
                                                            sponsor,
                                                            handle,
                                                            character,
                                                            character_color: color,
                                                            score,
                                                            country_code: country,
                                                        },
                                                        j,
                                                    ),
                                                ),
                                                None => None,
                                            },
                                            None => None,
                                        },
                                        None => None,
                                    },
                                    None => None,
                                },
                                None => None,
                            },
                            None => None,
                        },
                        None => None,
                    },
                    None => None,
                },
                None => None,
            },
            None => None,
        },
        None => None,
    }
}

/// One commentary object at `i`.
pub open spec fn p_commentary(t: Seq<char>, i: int) -> Option<(SpecCommentary, int)> {
    match p_obj_open(t, i) {
        Some((m0, k0)) => match p_str_member(t, m0, k0, "name"@) {
            Some((name, m1, k1)) => match p_opt_str_member(t, m1, k1, "handle"@) {
                Some((handle, m2, k2)) => match p_opt_bool_member(t, m2, k2, "active"@) {
                    Some((active, m3, k3)) => match p_obj_close(t, m3, k3) {
                        Some(j) => Some((SpecCommentary { name, handle, active }, j)),
                        None => None,
                    },
                    None => None,
                },
                None => None,
            },
            None => None,
        },
        None => None,
    }
}

/// One match-metadata object at `i`.
pub open spec fn p_meta(t: Seq<char>, i: int) -> Option<(SpecMeta, int)> {
    match p_obj_open(t, i) {
        Some((m0, k0)) => match p_opt_str_member(t, m0, k0, "tournament"@) {
            Some((tournament, m1, k1)) => match p_str_member(t, m1, k1, "round"@) {
                Some((round, m2, k2)) => match p_u8_member(t, m2, k2, "bestOf"@) {
                    Some((best_of, m3, k3)) => match p_opt_u32_member(t, m3, k3, "gameNumber"@) {
                        Some((game_number, m4, k4)) => match p_opt_str_member(
                            t,
                            m4,
                            k4,
                            "stage"@,
                        ) {
                            Some((stage, m5, k5)) => match p_opt_str_member(t, m5, k5, "notes"@) {
                                Some((notes, m6, k6)) => match p_obj_close(t, m6, k6) {
                                    Some(j) => Some(
                                        (
                                            SpecMeta {
                                                tournament,
                                                round,
                                                best_of,
                                                game_number,
                                                stage,
                                                notes,
                                            },
                                            j,
                                        ),
                                    ),
                                    None => None,
                                },
                                None => None,
                            },
                            None => None,
                        },
                        None => None,
                    },
                    None => None,
                },
                None => None,
            },
            None => None,
        },
        None => None,
    }
}

/// One or more commentary objects separated by commas, ending at `]`.
pub open spec fn p_comm_items(t: Seq<char>, i: int) -> Option<(Seq<SpecCommentary>, int)>
    decreases t.len() - i,
{
    match p_commentary(t, i) {
        Some((c, j)) => {
            let a = skip_ws(t, j);
            if a < t.len() && t[a] == ',' {
                let b = skip_ws(t, a + 1);
                if i < b && b <= t.len() {
                    match p_comm_items(t, b) {
                        Some((rest, e)) => Some((seq![c] + rest, e)),
                        None => None,
                    }
                } else {
                    None
                }
            } else if a < t.len() && t[a] == ']' {
                Some((seq![c], a + 1))
            } else {
                None
            }
        },
        None => None,
    }
}

/// A commentary array at `i`.
pub open spec fn p_comm_array(t: Seq<char>, i: int) -> Option<(Seq<SpecCommentary>, int)> {
    if 0 <= i && i < t.len() && t[i] == '[' {
        let j = skip_ws(t, i + 1);
        if j < t.len() && t[j] == ']' {
            Some((Seq::empty(), j + 1))
        } else {
            p_comm_items(t, j)
        }
    } else {
        None
    }
}

/// A required member holding a player object.
pub open spec fn p_player_member(t: Seq<char>, more: bool, k: int, key: Seq<char>) -> Option<
    (SpecPlayer, bool, int),
> {
    if more {
        match p_key_colon(t, k, key) {
            Some(v) => match p_player(t, v) {
                Some((pl, j)) => match p_member_end(t, j) {
                    Some((m2, k2)) => Some((pl, m2, k2)),
                    None => None,
                },
                None => None,
            },
            None => None,
        }
    } else {
        None
    }
}

/// A required member holding the metadata object.
pub open spec fn p_meta_member(t: Seq<char>, more: bool, k: int, key: Seq<char>) -> Option<
    (SpecMeta, bool, int),
> {
    if more {
        match p_key_colon(t, k, key) {
            Some(v) => match p_meta(t, v) {
                Some((m, j)) => match p_member_end(t, j) {
                    Some((m2, k2)) => Some((m, m2, k2)),
                    None => None,
                },
                None => None,
            },
            None => None,
        }
    } else {
        None
    }
}

/// A required member holding the commentary array.
pub open spec fn p_comm_member(t: Seq<char>, more: bool, k: int, key: Seq<char>) -> Option<
    (Seq<SpecCommentary>, bool, int),
> {
    if more {
        match p_key_colon(t, k, key) {
            Some(v) => match p_comm_array(t, v) {
                Some((cs, j)) => match p_member_end(t, j) {
                    Some((m2, k2)) => Some((cs, m2, k2)),
                    None => None,
                },
                None => None,
            },
            None => None,
        }
    } else {
        None
    }
}

/// One setup object at `i`.
pub open spec fn p_overlay(t: Seq<char>, i: int) -> Option<(SpecOverlay, int)> {
    match p_obj_open(t, i) {
        Some((m0, k0)) => match p_player_member(t, m0, k0, "p1"@) {
            Some((p1, m1, k1)) => match p_player_member(t, m1, k1, "p2"@) {
                Some((p2, m2, k2)) => match p_meta_member(t, m2, k2, "meta"@) {
                    Some((meta, m3, k3)) => match p_comm_member(t, m3, k3, "commentators"@) {
                        Some((commentators, m4, k4)) => match p_obj_close(t, m4, k4) {
                            Some(j) => Some((SpecOverlay { p1, p2, meta, commentators }, j)),
                            None => None,
                        },
                        None => None,
                    },
                    None => None,
                },
                None => None,
            },
            None => None,
        },
        None => None,
    }
}

/// One or more setup objects separated by commas, ending at `]`.
pub open spec fn p_setup_items(t: Seq<char>, i: int) -> Option<(Seq<SpecOverlay>, int)>
    decreases t.len() - i,
{
    match p_overlay(t, i) {
        Some((o, j)) => {
            let a = skip_ws(t, j);
            if a < t.len() && t[a] == ',' {
                let b = skip_ws(t, a + 1);
                if i < b && b <= t.len() {
                    match p_setup_items(t, b) {
                        Some((rest, e)) => Some((seq![o] + rest, e)),
                        None => None,
                    }
                } else {
                    None
                }
            } else if a < t.len() && t[a] == ']' {
                Some((seq![o], a + 1))
            } else {
                None
            }
        },
        None => None,
    }
}

/// The setups array at `i`.
pub open spec fn p_setup_array(t: Seq<char>, i: int) -> Option<(Seq<SpecOverlay>, int)> {
    if 0 <= i && i < t.len() && t[i] == '[' {
        let j = skip_ws(t, i + 1);
        if j < t.len() && t[j] == ']' {
            Some((Seq::empty(), j + 1))
        } else {
            p_setup_items(t, j)
        }
    } else {
        None
    }
}

/// A required member holding the setups array.
pub open spec fn p_setups_member(t: Seq<char>, more: bool, k: int, key: Seq<char>) -> Option<
    (Seq<SpecOverlay>, bool, int),
> {
    if more {
        match p_key_colon(t, k, key) {
            Some(v) => match p_setup_array(t, v) {
                Some((os, j)) => match p_member_end(t, j) {
                    Some((m2, k2)) => Some((os, m2, k2)),
                    None => None,
                },
                None => None,
            },
            None => None,
        }
    } else {
        None
    }
}

/// The whole multi-setup object at `i`.
pub open spec fn p_all(t: Seq<char>, i: int) -> Option<(SpecAll, int)> {
    match p_obj_open(t, i) {
        Some((m0, k0)) => match p_setups_member(t, m0, k0, "setups"@) {
            Some((setups, m1, k1)) => match p_obj_close(t, m1, k1) {
                Some(j) => Some((SpecAll { setups }, j)),
                None => None,
            },
            None => None,
        },
        None => None,
    }
}

/// A whole document holding the multi-setup shape and nothing else.
pub open spec fn p_all_doc(t: Seq<char>) -> Option<SpecAll> {
    match p_all(t, skip_ws(t, 0)) {
        Some((v, j)) => if skip_ws(t, j) == t.len() {
            Some(v)
        } else {
            None
        },
        None => None,
    }
}

/// A whole document holding one bare setup object and nothing else.
pub open spec fn p_overlay_doc(t: Seq<char>) -> Option<SpecOverlay> {
    match p_overlay(t, skip_ws(t, 0)) {
        Some((o, j)) => if skip_ws(t, j) == t.len() {
            Some(o)
        } else {
            None
        },
        None => None,
    }
}

fn e_null(s: &str, i: usize) -> (r: Option<usize>)
    requires
        i <= s@.len(),
    ensures
        match r {
            Some(j) => p_lit(s@, i as int, null_seq()) == Some(j as int) && j <= s@.len(),
            None => p_lit(s@, i as int, null_seq()) is None,
        },
{
    proof {
        reveal_strlit("null");
        assert("null"@ =~= null_seq());
    }
    e_lit(s, i, "null")
}

fn e_true(s: &str, i: usize) -> (r: Option<usize>)
    requires
        i <= s@.len(),
    ensures
        match r {
            Some(j) => p_lit(s@, i as int, true_seq()) == Some(j as int) && j <= s@.len(),
            None => p_lit(s@, i as int, true_seq()) is None,
        },
{
    proof {
        reveal_strlit("true");
        assert("true"@ =~= true_seq());
    }
    e_lit(s, i, "true")
}

fn e_false(s: &str, i: usize) -> (r: Option<usize>)
    requires
        i <= s@.len(),
    ensures
        match r {
            Some(j) => p_lit(s@, i as int, false_seq()) == Some(j as int) && j <= s@.len(),
            None => p_lit(s@, i as int, false_seq()) is None,
        },
{
    proof {
        reveal_strlit("false");
        assert("false"@ =~= false_seq());
    }
    e_lit(s, i, "false")
}

fn em_str(s: &str, more: bool, k: usize, key: &str) -> (r: Option<(String, bool, usize)>)
    requires
        k <= s@.len(),
    ensures
        match r {
            Some((sv, m2, k2)) => p_str_member(s@, more, k as int, key@) == Some(
                (sv@, m2, k2 as int),
            ) && k2 <= s@.len(),
            None => p_str_member(s@, more, k as int, key@) is None,
        },
{
    if !more {
        return None;
    }
    match e_key_colon(s, k, key) {
        Some(v) => match e_string(s, v) {
            Some((sv, j)) => match e_member_end(s, j) {
                Some((m2, k2)) => Some((sv, m2, k2)),
                None => None,
            },
            None => None,
        },
        None => None,
    }
}

fn em_opt_str(s: &str, more: bool, k: usize, key: &str) -> (r: Option<
    (Option<String>, bool, usize),
>)
    requires
        k <= s@.len(),
    ensures
        match r {
            Some((o, m2, k2)) => p_opt_str_member(s@, more, k as int, key@) == Some(
                (view_opt_string(o), m2, k2 as int),
            ) && k2 <= s@.len(),
            None => p_opt_str_member(s@, more, k as int, key@) is None,
        },
{
    if more && e_key_at(s, k, key) {
        match e_key_colon(s, k, key) {
            Some(v) => match e_null(s, v) {
                Some(j) => match e_member_end(s, j) {
                    Some((m2, k2)) => Some((None, m2, k2)),
                    None => None,
                },
                None => match e_string(s, v) {
                    Some((sv, j)) => match e_member_end(s, j) {
                        Some((m2, k2)) => Some((Some(sv), m2, k2)),
                        None => None,
                    },
                    None => None,
                },
            },
            None => None,
        }
    } else {
        Some((None, more, k))
    }
}

fn em_u8(s: &str, more: bool, k: usize, key: &str) -> (r: Option<(u8, bool, usize)>)
    requires
        k <= s@.len(),
    ensures
        match r {
            Some((v, m2, k2)) => p_u8_member(s@, more, k as int, key@) == Some(
                (v, m2, k2 as int),
            ) && k2 <= s@.len(),
            None => p_u8_member(s@, more, k as int, key@) is None,
        },
{
    if !more {
        return None;
    }
    match e_key_colon(s, k, key) {
        Some(v) => match e_number(s, v, 255) {
            Some((n, j)) => match e_member_end(s, j) {
                Some((m2, k2)) => Some((n as u8, m2, k2)),
                None => None,
            },
            None => None,
        },
        None => None,
    }
}

fn em_u32(s: &str, more: bool, k: usize, key: &str) -> (r: Option<(u32, bool, usize)>)
    requires
        k <= s@.len(),
    ensures
        match r {
            Some((v, m2, k2)) => p_u32_member(s@, more, k as int, key@) == Some(
                (v, m2, k2 as int),
            ) && k2 <= s@.len(),
            None => p_u32_member(s@, more, k as int, key@) is None,
        },
{
    if !more {
        return None;
    }
    match e_key_colon(s, k, key) {
        Some(v) => match e_number(s, v, 0xFFFF_FFFF) {
            Some((n, j)) => match e_member_end(s, j) {
                Some((m2, k2)) => Some((n as u32, m2, k2)),
                None => None,
            },
            None => None,
        },
        None => None,
    }
}

fn em_opt_u8(s: &str, more: bool, k: usize, key: &str) -> (r: Option<(Option<u8>, bool, usize)>)
    requires
        k <= s@.len(),
    ensures
        match r {
            Some((o, m2, k2)) => p_opt_u8_member(s@, more, k as int, key@) == Some(
                (o, m2, k2 as int),
            ) && k2 <= s@.len(),
            None => p_opt_u8_member(s@, more, k as int, key@) is None,
        },
{
    if more && e_key_at(s, k, key) {
        match e_key_colon(s, k, key) {
            Some(v) => match e_null(s, v) {
                Some(j) => match e_member_end(s, j) {
                    Some((m2, k2)) => Some((None, m2, k2)),
                    None => None,
                },
                None => match e_number(s, v, 255) {
                    Some((n, j)) => match e_member_end(s, j) {
                        Some((m2, k2)) => Some((Some(n as u8), m2, k2)),
                        None => None,
                    },
                    None => None,
                },
            },
            None => None,
        }
    } else {
        Some((None, more, k))
    }
}

fn em_opt_u32(s: &str, more: bool, k: usize, key: &str) -> (r: Option<(Option<u32>, bool, usize)>)
    requires
        k <= s@.len(),
    ensures
        match r {
            Some((o, m2, k2)) => p_opt_u32_member(s@, more, k as int, key@) == Some(
                (o, m2, k2 as int),
            ) && k2 <= s@.len(),
            None => p_opt_u32_member(s@, more, k as int, key@) is None,
        },
{
    if more && e_key_at(s, k, key) {
        match e_key_colon(s, k, key) {
            Some(v) => match e_null(s, v) {
                Some(j) => match e_member_end(s, j) {
                    Some((m2, k2)) => Some((None, m2, k2)),
                    None => None,
                },
                None => match e_number(s, v, 0xFFFF_FFFF) {
                    Some((n, j)) => match e_member_end(s, j) {
                        Some((m2, k2)) => Some((Some(n as u32), m2, k2)),
                        None => None,
                    },
                    None => None,
                },
            },
            None => None,
        }
    } else {
        Some((None, more, k))
    }
}

fn em_opt_bool(s: &str, more: bool, k: usize, key: &str) -> (r: Option<
    (Option<bool>, bool, usize),
>)
    requires
        k <= s@.len(),
    ensures
        match r {
            Some((o, m2, k2)) => p_opt_bool_member(s@, more, k as int, key@) == Some(
                (o, m2, k2 as int),
            ) && k2 <= s@.len(),
            None => p_opt_bool_member(s@, more, k as int, key@) is None,
        },
{
    if more && e_key_at(s, k, key) {
        match e_key_colon(s, k, key) {
            Some(v) => match e_null(s, v) {
                Some(j) => match e_member_end(s, j) {
                    Some((m2, k2)) => Some((None, m2, k2)),
                    None => None,
                },
                None => match e_true(s, v) {
                    Some(j) => match e_member_end(s, j) {
                        Some((m2, k2)) => Some((Some(true), m2, k2)),
                        None => None,
                    },
                    None => match e_false(s, v) {
                        Some(j) => match e_member_end(s, j) {
                            Some((m2, k2)) => Some((Some(false), m2, k2)),
                            None => None,
                        },
                        None => None,
                    },
                },
            },
            None => None,
        }
    } else {
        Some((None, more, k))
    }
}

fn e_player(s: &str, i: usize) -> (r: Option<(PlayerState, usize)>)
    requires
        i <= s@.len(),
    ensures
        match r {
            Some((pl, j)) => p_player(s@, i as int) == Some((pl@, j as int)) && j <= s@.len(),
            None => p_player(s@, i as int) is None,
        },
{
    let (m0, k0) = match e_obj_open(s, i) {
        Some(x) => x,
        None => {
            return None;
        },
    };
    let (side, m1, k1) = match em_str(s, m0, k0, "side") {
        Some(x) => x,
        None => {
            return None;
        },
    };
    let (port, m2, k2) = match em_opt_u8(s, m1, k1, "port") {
        Some(x) => x,
        None => {
            return None;
        },
    };
    let (tag, m3, k3) = match em_str(s, m2, k2, "tag") {
        Some(x) => x,
        None => {
            return None;
        },
    };
    let (sponsor, m4, k4) = match em_opt_str(s, m3, k3, "sponsor") {
        Some(x) => x,
        None => {
            return None;
        },
    };
    let (handle, m5, k5) = match em_opt_str(s, m4, k4, "handle") {
        Some(x) => x,
        None => {
            return None;
        },
    };
    let (character, m6, k6) = match em_str(s, m5, k5, "character") {
        Some(x) => x,
        None => {
            return None;
        },
    };
    let (color, m7, k7) = match em_str(s, m6, k6, "characterColor") {
        Some(x) => x,
        None => {
            return None;
        },
    };
    let (score, m8, k8) = match em_u32(s, m7, k7, "score") {
        Some(x) => x,
        None => {
            return None;
        },
    };
    let (country, m9, k9) = match em_opt_str(s, m8, k8, "countryCode") {
        Some(x) => x,
        None => {
            return None;
        },
    };
    let j = match e_obj_close(s, m9, k9) {
        Some(x) => x,
        None => {
            return None;
        },
    };
    let pl = PlayerState {
        side,
        port,
        tag,
        sponsor,
        handle,
        character,
        character_color: color,
        score,
        country_code: country,
    };
    Some((pl, j))
}

fn e_commentary(s: &str, i: usize) -> (r: Option<(CommentaryState, usize)>)
    requires
        i <= s@.len(),
    ensures
        match r {
            Some((c, j)) => p_commentary(s@, i as int) == Some((c@, j as int)) && j <= s@.len(),
            None => p_commentary(s@, i as int) is None,
        },
{
    let (m0, k0) = match e_obj_open(s, i) {
        Some(x) => x,
        None => {
            return None;
        },
    };
    let (name, m1, k1) = match em_str(s, m0, k0, "name") {
        Some(x) => x,
        None => {
            return None;
        },
    };
    let (handle, m2, k2) = match em_opt_str(s, m1, k1, "handle") {
        Some(x) => x,
        None => {
            return None;
        },
    };
    let (active, m3, k3) = match em_opt_bool(s, m2, k2, "active") {
        Some(x) => x,
        None => {
            return None;
        },
    };
    let j = match e_obj_close(s, m3, k3) {
        Some(x) => x,
        None => {
            return None;
        },
    };
    Some((CommentaryState { name, handle, active }, j))
}

fn e_meta(s: &str, i: usize) -> (r: Option<(MatchMeta, usize)>)
    requires
        i <= s@.len(),
    ensures
        match r {
            Some((m, j)) => p_meta(s@, i as int) == Some((m@, j as int)) && j <= s@.len(),
            None => p_meta(s@, i as int) is None,
        },
{
    let (m0, k0) = match e_obj_open(s, i) {
        Some(x) => x,
        None => {
            return None;
        },
    };
    let (tournament, m1, k1) = match em_opt_str(s, m0, k0, "tournament") {
        Some(x) => x,
        None => {
            return None;
        },
    };
    let (round, m2, k2) = match em_str(s, m1, k1, "round") {
        Some(x) => x,
        None => {
            return None;
        },
    };
    let (best_of, m3, k3) = match em_u8(s, m2, k2, "bestOf") {
        Some(x) => x,
        None => {
            return None;
        },
    };
    let (game_number, m4, k4) = match em_opt_u32(s, m3, k3, "gameNumber") {
        Some(x) => x,
        None => {
            return None;
        },
    };
    let (stage, m5, k5) = match em_opt_str(s, m4, k4, "stage") {
        Some(x) => x,
        None => {
            return None;
        },
    };
    let (notes, m6, k6) = match em_opt_str(s, m5, k5, "notes") {
        Some(x) => x,
        None => {
            return None;
        },
    };
    let j = match e_obj_close(s, m6, k6) {
        Some(x) => x,
        None => {
            return None;
        },
    };
    Some((MatchMeta { tournament, round, best_of, game_number, stage, notes }, j))
}

fn e_comm_items(s: &str, i: usize) -> (r: Option<(Vec<CommentaryState>, usize)>)
    requires
        i <= s@.len(),
    ensures
        match r {
            Some((cs, j)) => p_comm_items(s@, i as int) == Some(
                (cs@.map_values(|c: CommentaryState| c@), j as int),
            ) && j <= s@.len(),
            None => p_comm_items(s@, i as int) is None,
        },
    decreases s@.len() - i,
{
    let n = s.unicode_len();
    match e_commentary(s, i) {
        Some((c, j)) => {
            let a = e_skip_ws(s, j);
            if a < n && s.get_char(a) == ',' {
                let b = e_skip_ws(s, a + 1);
                if b <= i {
                    return None;
                }
                match e_comm_items(s, b) {
                    Some((rest, e)) => {
                        let ghost rest_view = rest@.map_values(|cc: CommentaryState| cc@);
                        let mut cs = rest;
                        cs.insert(0, c);
                        proof {
                            assert(cs@.map_values(|cc: CommentaryState| cc@) =~= seq![c@]
                                + rest_view);
                        }
                        Some((cs, e))
                    },
                    None => None,
                }
            } else if a < n && s.get_char(a) == ']' {
                let mut cs: Vec<CommentaryState> = Vec::new();
                cs.push(c);
                proof {
                    assert(cs@.map_values(|cc: CommentaryState| cc@) =~= seq![c@]);
                }
                Some((cs, a + 1))
            } else {
                None
            }
        },
        None => None,
    }
}

fn e_comm_array(s: &str, i: usize) -> (r: Option<(Vec<CommentaryState>, usize)>)
    requires
        i <= s@.len(),
    ensures
        match r {
            Some((cs, j)) => p_comm_array(s@, i as int) == Some(
                (cs@.map_values(|c: CommentaryState| c@), j as int),
            ) && j <= s@.len(),
            None => p_comm_array(s@, i as int) is None,
        },
{
    let n = s.unicode_len();
    if i < n && s.get_char(i) == '[' {
        let j = e_skip_ws(s, i + 1);
        if j < n && s.get_char(j) == ']' {
            let cs: Vec<CommentaryState> = Vec::new();
            proof {
                assert(cs@.map_values(|c: CommentaryState| c@) =~= Seq::<SpecCommentary>::empty());
            }
            Some((cs, j + 1))
        } else {
            e_comm_items(s, j)
        }
    } else {
        None
    }
}

#[verifier::rlimit(100)]
fn e_overlay(s: &str, i: usize) -> (r: Option<(OverlayState, usize)>)
    requires
        i <= s@.len(),
    ensures
        match r {
            Some((o, j)) => p_overlay(s@, i as int) == Some((o@, j as int)) && j <= s@.len(),
            None => p_overlay(s@, i as int) is None,
        },
{
    let (m0, k0) = match e_obj_open(s, i) {
        Some(x) => x,
        None => {
            return None;
        },
    };
    if !m0 {
        return None;
    }
    let (p1, m1, k1) = match e_key_colon(s, k0, "p1") {
        Some(v) => match e_player(s, v) {
            Some((pl, j)) => match e_member_end(s, j) {
                Some((m2, k2)) => (pl, m2, k2),
                None => {
                    return None;
                },
            },
            None => {
                return None;
            },
        },
        None => {
            return None;
        },
    };
    if !m1 {
        return None;
    }
    let (p2, m2, k2) = match e_key_colon(s, k1, "p2") {
        Some(v) => match e_player(s, v) {
            Some((pl, j)) => match e_member_end(s, j) {
                Some((mm, kk)) => (pl, mm, kk),
                None => {
                    return None;
                },
            },
            None => {
                return None;
            },
        },
        None => {
            return None;
        },
    };
    if !m2 {
        return None;
    }
    let (meta, m3, k3) = match e_key_colon(s, k2, "meta") {
        Some(v) => match e_meta(s, v) {
            Some((m, j)) => match e_member_end(s, j) {
                Some((mm, kk)) => (m, mm, kk),
                None => {
                    return None;
                },
            },
            None => {
                return None;
            },
        },
        None => {
            return None;
        },
    };
    if !m3 {
        return None;
    }
    let (commentators, m4, k4) = match e_key_colon(s, k3, "commentators") {
        Some(v) => match e_comm_array(s, v) {
            Some((cs, j)) => match e_member_end(s, j) {
                Some((mm, kk)) => (cs, mm, kk),
                None => {
                    return None;
                },
            },
            None => {
                return None;
            },
        },
        None => {
            return None;
        },
    };
    let j = match e_obj_close(s, m4, k4) {
        Some(x) => x,
        None => {
            return None;
        },
    };
    Some((OverlayState { p1, p2, meta, commentators }, j))
}

fn e_setup_items(s: &str, i: usize) -> (r: Option<(Vec<OverlayState>, usize)>)
    requires
        i <= s@.len(),
    ensures
        match r {
            Some((os, j)) => p_setup_items(s@, i as int) == Some(
                (os@.map_values(|o: OverlayState| o@), j as int),
            ) && j <= s@.len(),
            None => p_setup_items(s@, i as int) is None,
        },
    decreases s@.len() - i,
{
    let n = s.unicode_len();
    match e_overlay(s, i) {
        Some((o, j)) => {
            let a = e_skip_ws(s, j);
            if a < n && s.get_char(a) == ',' {
                let b = e_skip_ws(s, a + 1);
                if b <= i {
                    return None;
                }
                match e_setup_items(s, b) {
                    Some((rest, e)) => {
                        let ghost rest_view = rest@.map_values(|oo: OverlayState| oo@);
                        let mut os = rest;
                        os.insert(0, o);
                        proof {
                            assert(os@.map_values(|oo: OverlayState| oo@) =~= seq![o@] + rest_view);
                        }
                        Some((os, e))
                    },
                    None => None,
                }
            } else if a < n && s.get_char(a) == ']' {
                let mut os: Vec<OverlayState> = Vec::new();
                os.push(o);
                proof {
                    assert(os@.map_values(|oo: OverlayState| oo@) =~= seq![o@]);
                }
                Some((os, a + 1))
            } else {
                None
            }
        },
        None => None,
    }
}

fn e_setup_array(s: &str, i: usize) -> (r: Option<(Vec<OverlayState>, usize)>)
    requires
        i <= s@.len(),
    ensures
        match r {
            Some((os, j)) => p_setup_array(s@, i as int) == Some(
                (os@.map_values(|o: OverlayState| o@), j as int),
            ) && j <= s@.len(),
            None => p_setup_array(s@, i as int) is None,
        },
{
    let n = s.unicode_len();
    if i < n && s.get_char(i) == '[' {
        let j = e_skip_ws(s, i + 1);
        if j < n && s.get_char(j) == ']' {
            let os: Vec<OverlayState> = Vec::new();
            proof {
                assert(os@.map_values(|o: OverlayState| o@) =~= Seq::<SpecOverlay>::empty());
            }
            Some((os, j + 1))
        } else {
            e_setup_items(s, j)
        }
    } else {
        None
    }
}

fn e_all(s: &str, i: usize) -> (r: Option<(AllSetupsState, usize)>)
    requires
        i <= s@.len(),
    ensures
        match r {
            Some((v, j)) => p_all(s@, i as int) == Some((v@, j as int)) && j <= s@.len(),
            None => p_all(s@, i as int) is None,
        },
{
    let (m0, k0) = match e_obj_open(s, i) {
        Some(x) => x,
        None => {
            return None;
        },
    };
    if !m0 {
        return None;
    }
    let (setups, m1, k1) = match e_key_colon(s, k0, "setups") {
        Some(v) => match e_setup_array(s, v) {
            Some((os, j)) => match e_member_end(s, j) {
                Some((mm, kk)) => (os, mm, kk),
                None => {
                    return None;
                },
            },
            None => {
                return None;
            },
        },
        None => {
            return None;
        },
    };
    let j = match e_obj_close(s, m1, k1) {
        Some(x) => x,
        None => {
            return None;
        },
    };
    Some((AllSetupsState { setups }, j))
}

/// The multi-setup document shape, applied to whole file text.
pub fn parse_all_doc(s: &str) -> (r: Option<AllSetupsState>)
    ensures
        match r {
            Some(v) => p_all_doc(s@) == Some(v@),
            None => p_all_doc(s@) is None,
        },
{
    let n = s.unicode_len();
    let i = e_skip_ws(s, 0);
    match e_all(s, i) {
        Some((v, j)) => {
            let e2 = e_skip_ws(s, j);
            if e2 == n {
                Some(v)
            } else {
                None
            }
        },
        None => None,
    }
}

/// The legacy single-setup document shape, applied to whole file text.
pub fn parse_overlay_doc(s: &str) -> (r: Option<OverlayState>)
    ensures
        match r {
            Some(o) => p_overlay_doc(s@) == Some(o@),
            None => p_overlay_doc(s@) is None,
        },
{
    let n = s.unicode_len();
    let i = e_skip_ws(s, 0);
    match e_overlay(s, i) {
        Some((o, j)) => {
            let e2 = e_skip_ws(s, j);
            if e2 == n {
                Some(o)
            } else {
                None
            }
        },
        None => None,
    }
}

/// What loading file text yields: the multi-setup shape as it stands; a
/// legacy bare setup in slot one padded with defaults; the built-in default
/// on any parse failure.
pub open spec fn spec_load(t: Seq<char>) -> SpecAll {
    match p_all_doc(t) {
        Some(v) => v,
        None => match p_overlay_doc(t) {
            Some(o) => SpecAll {
                setups: seq![
                    o,
                    crate::model::spec_default_setup(),
                    crate::model::spec_default_setup(),
                    crate::model::spec_default_setup(),
                ],
            },
            None => crate::model::spec_default_state(),
        },
    }
}

proof fn lemma_spec_load_hit(t: Seq<char>, v: SpecAll)
    requires
        p_all_doc(t) == Some(v),
    ensures
        spec_load(t) == v,
{
}

proof fn lemma_spec_load_legacy(t: Seq<char>, o: SpecOverlay)
    requires
        (p_all_doc(t) is None),
        p_overlay_doc(t) == Some(o),
    ensures
        spec_load(t) == (SpecAll {
            setups: seq![
                o,
                crate::model::spec_default_setup(),
                crate::model::spec_default_setup(),
                crate::model::spec_default_setup(),
            ],
        }),
{
}

proof fn lemma_spec_load_miss(t: Seq<char>)
    requires
        (p_all_doc(t) is None),
        (p_overlay_doc(t) is None),
    ensures
        spec_load(t) == crate::model::spec_default_state(),
{
}

/// Turns the text of the state file (or its absence) into a usable state.
/// Never fails: unreadable text falls back to the legacy shape, then to the
/// built-in default.
pub fn load_state(text: Option<&str>) -> (r: AllSetupsState)
    ensures
        text matches Some(t) ==> r@ == spec_load(t@),
        text is None ==> r@ == crate::model::spec_default_state(),
{
    match text {
        None => crate::model::default_state(),
        Some(t) => match parse_all_doc(t) {
            Some(v) => {
                proof {
                    lemma_spec_load_hit(t@, v@);
                }
                v
            },
            None => match parse_overlay_doc(t) {
                Some(o) => {
                    let mut setups: Vec<OverlayState> = Vec::new();
                    setups.push(o);
                    setups.push(crate::model::default_setup());
                    setups.push(crate::model::default_setup());
                    setups.push(crate::model::default_setup());
                    let r = AllSetupsState { setups };
                    proof {
                        lemma_spec_load_legacy(t@, o@);
                        assert(r@.setups =~= spec_load(t@).setups);
                        assert(r@ =~= spec_load(t@));
                    }
                    r
                },
                None => {
                    proof {
                        lemma_spec_load_miss(t@);
                    }
                    crate::model::default_state()
                },
            },
        },
    }
}
} // verus!
