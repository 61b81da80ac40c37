//! The round-trip law: parsing the exact text the writer produces — pretty
//! or compact — yields the original state again. Proved bottom-up over the
//! grammar: whitespace, literals, strings, numbers, members, objects,
//! arrays, and finally the whole document.
use vstd::prelude::*;
use vstd::seq_lib::lemma_concat_associative;

use crate::model::{SpecAll, SpecCommentary, SpecMeta, SpecOverlay, SpecPlayer};
use crate::parse::{
    dval, esc_code, hex_v, is_digit, is_hex, is_ws, key_at, p_chars, p_digits, p_key_colon, p_lit,
    p_member_end, p_number, p_obj_close, p_obj_open, p_string, skip_ws,
};
use crate::ser::{esc_char, false_seq, key_tok, msep, nl, null_seq, ser_chars, ser_opt_string, ser_string, spaces, true_seq};
use crate::text::{spec_digit, spec_udec};

verus! {

/// The characters of `x` stand in `t` at position `i`.
pub open spec fn at(t: Seq<char>, i: int, x: Seq<char>) -> bool {
    &&& 0 <= i
    &&& i + x.len() <= t.len()
    &&& t.subrange(i, i + x.len()) == x
}

/// Splitting a match of a concatenation into matches of its halves.
proof fn lemma_at_split(t: Seq<char>, i: int, x: Seq<char>, y: Seq<char>)
    requires
        at(t, i, x + y),
    ensures
        at(t, i, x),
        at(t, i + x.len(), y),
{
    assert(t.subrange(i, i + x.len()) =~= x) by {
        assert forall|k: int| 0 <= k < x.len() implies t.subrange(i, i + x.len())[k] == x[k] by {
            assert(t.subrange(i, i + (x + y).len())[k] == (x + y)[k]);
        }
    }
    assert(t.subrange(i + x.len(), i + x.len() + y.len()) =~= y) by {
        assert forall|k: int| 0 <= k < y.len() implies t.subrange(
            i + x.len(),
            i + x.len() + y.len(),
        )[k] == y[k] by {
            assert(t.subrange(i, i + (x + y).len())[x.len() + k] == (x + y)[x.len() + k]);
        }
    }
}

/// What a single-character match says about the text.
proof fn lemma_at_char(t: Seq<char>, i: int, c: char)
    requires
        at(t, i, seq![c]),
    ensures
        0 <= i < t.len(),
        t[i] == c,
{
    assert(t.subrange(i, i + 1)[0] == t[i]);
}

/// Every character of `w` is whitespace.
pub open spec fn all_ws(w: Seq<char>) -> bool {
    forall|k: int| 0 <= k < w.len() ==> is_ws(#[trigger] w[k])
}

proof fn lemma_spaces_all_ws(n: nat)
    ensures
        all_ws(spaces(n)),
        spaces(n).len() == n,
    decreases n,
{
    if n > 0 {
        lemma_spaces_all_ws((n - 1) as nat);
        assert forall|k: int| 0 <= k < spaces(n).len() implies is_ws(#[trigger] spaces(n)[k]) by {
            if k < n - 1 {
                assert(spaces(n)[k] == spaces((n - 1) as nat)[k]);
            } else {
                assert(spaces(n)[k] == ' ');
            }
        }
    }
}

proof fn lemma_nl_all_ws(p: bool, ind: nat)
    ensures
        all_ws(nl(p, ind)),
{
    lemma_spaces_all_ws(ind);
    if p {
        assert forall|k: int| 0 <= k < nl(p, ind).len() implies is_ws(#[trigger] nl(p, ind)[k]) by {
            if k == 0 {
                assert(nl(p, ind)[0] == '\n');
            } else {
                assert(nl(p, ind)[k] == spaces(ind)[k - 1]);
            }
        }
    }
}

/// Skipping whitespace over a fully-whitespace match lands exactly past it,
/// provided the next character is not whitespace.
proof fn lemma_skip_ws_over(t: Seq<char>, i: int, w: Seq<char>)
    requires
        at(t, i, w),
        all_ws(w),
        i + w.len() == t.len() || !is_ws(t[i + w.len()]),
    ensures
        skip_ws(t, i) == i + w.len(),
    decreases w.len(),
{
    if w.len() == 0 {
    } else {
        assert(t.subrange(i, i + w.len())[0] == t[i]);
        assert(is_ws(t[i]));
        assert(seq![w[0]] + w.drop_first() =~= w);
        lemma_at_split(t, i, seq![w[0]], w.drop_first());
        assert(at(t, i + 1, w.drop_first()));
        lemma_skip_ws_over(t, i + 1, w.drop_first());
    }
}

/// Skipping whitespace where none stands does nothing.
proof fn lemma_skip_ws_none(t: Seq<char>, i: int)
    requires
        0 <= i <= t.len(),
        i == t.len() || !is_ws(t[i]),
    ensures
        skip_ws(t, i) == i,
{
}

/// A literal standing in the text parses as itself.
proof fn lemma_rt_lit(t: Seq<char>, i: int, lit: Seq<char>)
    requires
        at(t, i, lit),
    ensures
        p_lit(t, i, lit) == Some(i + lit.len()),
{
}

/// Escaping never produces an empty sequence, and its first character is
/// never a quote.
proof fn lemma_esc_shape(c: char)
    ensures
        esc_char(c).len() > 0,
        esc_char(c)[0] != '"',
{
}

proof fn lemma_hex_of_digit(d: nat)
    requires
        d < 16,
    ensures
        hex_v(spec_digit(d)) == d,
        !is_ws(spec_digit(d)),
        spec_digit(d) != '"',
{
}

proof fn lemma_digit_of_digit(d: nat)
    requires
        d < 10,
    ensures
        is_digit(spec_digit(d)),
        dval(spec_digit(d)) == d,
{
}

/// The writer's string body parses back to the original characters. The
/// closing quote is part of the match.
proof fn lemma_rt_chars(t: Seq<char>, i: int, s: Seq<char>)
    requires
        at(t, i, ser_chars(s) + seq!['"']),
    ensures
        p_chars(t, i) == Some((s, i + ser_chars(s).len() + 1)),
    decreases s.len(),
{
    if s.len() == 0 {
        assert(ser_chars(s) + seq!['"'] =~= seq!['"']);
        lemma_at_char(t, i, '"');
        assert(p_chars(t, i) == Some((Seq::<char>::empty(), i + 1)));
        assert(s =~= Seq::<char>::empty());
    } else {
        let c = s[0];
        let rest = s.drop_first();
        lemma_ser_chars_first(s);
        let e = esc_char(c);
        lemma_concat_associative(e, ser_chars(rest), seq!['"']);
        assert(ser_chars(s) + seq!['"'] == e + (ser_chars(rest) + seq!['"']));
        lemma_at_split(t, i, e, ser_chars(rest) + seq!['"']);
        lemma_rt_chars(t, i + e.len(), rest);
        lemma_esc_shape(c);
        if c == '"' {
            assert(seq!['\\'] + seq!['"'] =~= e);
            lemma_at_split(t, i, seq!['\\'], seq!['"']);
            lemma_at_char(t, i, '\\');
            lemma_at_char(t, i + 1, '"');
            assert(p_chars(t, i) == Some((seq![c] + rest, i + e.len() + ser_chars(rest).len() + 1)));
        } else if c == '\\' {
            assert(seq!['\\'] + seq!['\\'] =~= e);
            lemma_at_split(t, i, seq!['\\'], seq!['\\']);
            lemma_at_char(t, i, '\\');
            lemma_at_char(t, i + 1, '\\');
            assert(p_chars(t, i) == Some((seq![c] + rest, i + e.len() + ser_chars(rest).len() + 1)));
        } else if (c as u32) < 32 {
            let v = c as u32;
            let d1 = spec_digit((v / 16) as nat);
            let d2 = spec_digit((v % 16) as nat);
            assert(e == seq!['\\', 'u', '0', '0', d1, d2]);
            assert(at(t, i, seq!['\\', 'u', '0', '0', d1, d2]));
            assert(seq!['\\', 'u', '0', '0', d1] + seq![d2] =~= e);
            lemma_at_split(t, i, seq!['\\', 'u', '0', '0', d1], seq![d2]);
            assert(seq!['\\', 'u', '0', '0'] + seq![d1] =~= seq!['\\', 'u', '0', '0', d1]);
            lemma_at_split(t, i, seq!['\\', 'u', '0', '0'], seq![d1]);
            assert(seq!['\\', 'u', '0'] + seq!['0'] =~= seq!['\\', 'u', '0', '0']);
            lemma_at_split(t, i, seq!['\\', 'u', '0'], seq!['0']);
            assert(seq!['\\', 'u'] + seq!['0'] =~= seq!['\\', 'u', '0']);
            lemma_at_split(t, i, seq!['\\', 'u'], seq!['0']);
            assert(seq!['\\'] + seq!['u'] =~= seq!['\\', 'u']);
            lemma_at_split(t, i, seq!['\\'], seq!['u']);
            lemma_at_char(t, i, '\\');
            lemma_at_char(t, i + 1, 'u');
            lemma_at_char(t, i + 2, '0');
            lemma_at_char(t, i + 3, '0');
            lemma_at_char(t, i + 4, d1);
            lemma_at_char(t, i + 5, d2);
            lemma_hex_of_digit((v / 16) as nat);
            lemma_hex_of_digit((v % 16) as nat);
            assert(hex_v('0') == 0);
            let parsed = hex_v(t[i + 2]) * 4096 + hex_v(t[i + 3]) * 256 + hex_v(t[i + 4]) * 16
                + hex_v(t[i + 5]);
            assert(parsed == (v / 16) * 16 + (v % 16));
            assert(parsed == v);
            assert(parsed < 0xD800);
            vstd::utf8::char_u32_cast(c, parsed as u32);
            assert(((parsed as u32) as char) == c);
            assert(p_chars(t, i) == Some((seq![c] + rest, i + e.len() + ser_chars(rest).len() + 1)));
        } else {
            assert(e == seq![c]);
            lemma_at_char(t, i, c);
            assert(!(t[i] == '"'));
            assert(!(t[i] == '\\'));
            assert(p_chars(t, i) == Some((seq![c] + rest, i + e.len() + ser_chars(rest).len() + 1)));
        }
        assert(seq![c] + rest =~= s);
        assert(ser_chars(s).len() == e.len() + ser_chars(rest).len());
    }
}

/// The writer's escaping, read from the left instead of the right.
proof fn lemma_ser_chars_first(s: Seq<char>)
    requires
        s.len() > 0,
    ensures
        ser_chars(s) == esc_char(s[0]) + ser_chars(s.drop_first()),
        ser_chars(s).len() == esc_char(s[0]).len() + ser_chars(s.drop_first()).len(),
    decreases s.len(),
{
    if s.len() == 1 {
        assert(s.drop_last() =~= Seq::<char>::empty());
        assert(s.drop_first() =~= Seq::<char>::empty());
        assert(s.last() == s[0]);
        assert(Seq::<char>::empty() + esc_char(s[0]) =~= esc_char(s[0]));
        assert(esc_char(s[0]) + Seq::<char>::empty() =~= esc_char(s[0]));
    } else {
        let dl = s.drop_last();
        lemma_ser_chars_first(dl);
        assert(dl[0] == s[0]);
        assert(ser_chars(s) == (esc_char(s[0]) + ser_chars(dl.drop_first())) + esc_char(s.last()));
        lemma_concat_associative(esc_char(s[0]), ser_chars(dl.drop_first()), esc_char(s.last()));
        assert(dl.drop_first() =~= s.drop_first().drop_last());
        assert(s.last() == s.drop_first().last());
        assert(ser_chars(s.drop_first()) == ser_chars(s.drop_first().drop_last()) + esc_char(
            s.drop_first().last(),
        ));
        assert(ser_chars(s) == esc_char(s[0]) + ser_chars(s.drop_first()));
    }
}

/// A whole written string parses back to the original characters.
proof fn lemma_rt_string(t: Seq<char>, i: int, s: Seq<char>)
    requires
        at(t, i, ser_string(s)),
    ensures
        p_string(t, i) == Some((s, i + ser_string(s).len())),
        ser_string(s).len() == ser_chars(s).len() + 2,
{
    lemma_concat_associative(seq!['"'], ser_chars(s), seq!['"']);
    lemma_at_split(t, i, seq!['"'], ser_chars(s) + seq!['"']);
    lemma_at_char(t, i, '"');
    lemma_rt_chars(t, i + 1, s);
}

/// Ten to the `k`.
pub open spec fn pow10(k: nat) -> nat
    decreases k,
{
    if k == 0 {
        1
    } else {
        10 * pow10((k - 1) as nat)
    }
}

proof fn lemma_udec_digits(n: nat)
    ensures
        spec_udec(n).len() > 0,
        forall|k: int| 0 <= k < spec_udec(n).len() ==> is_digit(#[trigger] spec_udec(n)[k]),
    decreases n,
{
    if n < 10 {
        lemma_digit_of_digit(n);
    } else {
        lemma_udec_digits(n / 10);
        lemma_digit_of_digit(n % 10);
        let u = spec_udec(n);
        let u1 = spec_udec(n / 10);
        assert forall|k: int| 0 <= k < u.len() implies is_digit(#[trigger] u[k]) by {
            if k < u1.len() {
                assert(u[k] == u1[k]);
            } else {
                assert(u[k] == spec_digit(n % 10));
            }
        }
    }
}

/// Greedy digit folding over a written number consumes exactly its digits.
proof fn lemma_digits_chunk(t: Seq<char>, i: int, n: nat, acc: nat)
    requires
        at(t, i, spec_udec(n)),
    ensures
        p_digits(t, i, acc) == p_digits(
            t,
            i + spec_udec(n).len(),
            acc * pow10(spec_udec(n).len()) + n,
        ),
    decreases n,
{
    lemma_udec_digits(n);
    if n < 10 {
        lemma_at_char(t, i, spec_digit(n));
        lemma_digit_of_digit(n);
        assert(pow10(0) == 1);
        assert(pow10(1) == 10);
        assert(p_digits(t, i, acc) == p_digits(t, i + 1, acc * 10 + n));
    } else {
        let u1 = spec_udec(n / 10);
        let l1 = u1.len();
        lemma_at_split(t, i, u1, seq![spec_digit(n % 10)]);
        lemma_digits_chunk(t, i, n / 10, acc);
        lemma_at_char(t, i + l1, spec_digit(n % 10));
        lemma_digit_of_digit(n % 10);
        let mid = acc * pow10(l1) + n / 10;
        assert(p_digits(t, i + l1, mid) == p_digits(t, i + l1 + 1, mid * 10 + n % 10));
        assert((acc * pow10(l1) + n / 10) * 10 == acc * pow10(l1) * 10 + (n / 10) * 10)
            by (nonlinear_arith);
        assert(acc * pow10(l1) * 10 == acc * (pow10(l1) * 10)) by (nonlinear_arith);
        assert(pow10(l1 + 1) == pow10(l1) * 10);
        assert(mid * 10 + n % 10 == acc * pow10(l1 + 1) + n);
        assert(spec_udec(n).len() == l1 + 1);
    }
}

/// A written number, followed by something that is not a digit, parses back
/// to its value.
proof fn lemma_rt_number(t: Seq<char>, i: int, n: nat)
    requires
        at(t, i, spec_udec(n)),
        i + spec_udec(n).len() == t.len() || !is_digit(t[i + spec_udec(n).len()]),
    ensures
        p_number(t, i) == Some((n, i + spec_udec(n).len())),
{
    lemma_udec_digits(n);
    assert(t.subrange(i, i + spec_udec(n).len())[0] == t[i]);
    assert(is_digit(t[i]));
    lemma_digits_chunk(t, i, n, 0);
    let e = i + spec_udec(n).len();
    assert(p_digits(t, e, 0 * pow10(spec_udec(n).len()) + n) == (n, e));
}


/// The first character of a match.
proof fn lemma_at_first(t: Seq<char>, i: int, x: Seq<char>)
    requires
        at(t, i, x),
        x.len() > 0,
    ensures
        0 <= i < t.len(),
        t[i] == x[0],
{
    assert(t.subrange(i, i + x.len())[0] == t[i]);
}

/// A literal cannot stand where the text starts with a different character.
proof fn lemma_lit_mismatch(t: Seq<char>, i: int, lit: Seq<char>)
    requires
        0 <= i < t.len(),
        lit.len() > 0,
        t[i] != lit[0],
    ensures
        (p_lit(t, i, lit) is None),
{
    if i + lit.len() <= t.len() && t.subrange(i, i + lit.len()) == lit {
        assert(t.subrange(i, i + lit.len())[0] == t[i]);
    }
}

/// A written key with its colon parses to the position just past it,
/// provided that position does not hold whitespace.
proof fn lemma_rt_key_colon(t: Seq<char>, k: int, key: Seq<char>, p: bool)
    requires
        at(t, k, key_tok(key, p)),
        k + key_tok(key, p).len() == t.len() || !is_ws(t[k + key_tok(key, p).len()]),
    ensures
        key_at(t, k, key),
        p_key_colon(t, k, key) == Some(k + key_tok(key, p).len()),
        key_tok(key, p)[0] == '"',
{
    let q1 = seq!['"'];
    let q2 = q1 + key;
    let q3 = q2 + seq!['"'];
    assert(key_tok(key, p) == q3 + colon_seq(p));
    lemma_at_split(t, k, q3, colon_seq(p));
    lemma_at_split(t, k, q2, seq!['"']);
    lemma_at_split(t, k, q1, key);
    lemma_at_char(t, k, '"');
    lemma_at_char(t, k + 1 + key.len(), '"');
    assert(t.subrange(k + 1, k + 1 + key.len()) == key);
    assert(key_at(t, k, key));
    let a = k + key.len() + 2;
    lemma_at_first(t, a, colon_seq(p));
    lemma_skip_ws_none(t, a);
    assert(t[a] == ':');
    let e = k + key_tok(key, p).len();
    if p {
        assert(colon_seq(p) == seq![':'] + seq![' ']);
        lemma_at_split(t, a, seq![':'], seq![' ']);
        lemma_skip_ws_over(t, a + 1, seq![' ']);
    } else {
        lemma_skip_ws_none(t, a + 1);
    }
    assert((q3 + colon_seq(p))[0] == '"');
}

/// The writer's text between a key and its value, as one sequence.
pub open spec fn colon_seq(p: bool) -> Seq<char> {
    crate::ser::colon(p)
}

/// A written member separator: the member end is recognized and the next
/// member's key follows.
proof fn lemma_member_sep(t: Seq<char>, i: int, key2: Seq<char>, p: bool, ind: nat)
    requires
        at(t, i, msep(key2, p, ind)),
        i + msep(key2, p, ind).len() == t.len() || !is_ws(t[i + msep(key2, p, ind).len()]),
    ensures
        p_member_end(t, i) == Some((true, i + 1 + nl(p, ind).len())),
        key_at(t, i + 1 + nl(p, ind).len(), key2),
        at(t, i + 1 + nl(p, ind).len(), key_tok(key2, p)),
        p_key_colon(t, i + 1 + nl(p, ind).len(), key2) == Some(i + msep(key2, p, ind).len()),
{
    let c1 = seq![','];
    let c2 = c1 + nl(p, ind);
    assert(msep(key2, p, ind) == c2 + key_tok(key2, p));
    lemma_at_split(t, i, c2, key_tok(key2, p));
    lemma_at_split(t, i, c1, nl(p, ind));
    lemma_at_char(t, i, ',');
    lemma_skip_ws_none(t, i);
    let kpos = i + 1 + nl(p, ind).len();
    lemma_nl_all_ws(p, ind);
    lemma_at_first(t, kpos, key_tok(key2, p));
    assert(key_tok(key2, p)[0] == '"') by {
        assert((seq!['"'] + key2 + seq!['"'] + colon_seq(p))[0] == '"');
    }
    lemma_skip_ws_over(t, i + 1, nl(p, ind));
    lemma_rt_key_colon(t, kpos, key2, p);
}

/// The writer's text after an object's last member: the member end reports
/// the closing brace, and closing succeeds.
proof fn lemma_member_close(t: Seq<char>, i: int, p: bool, ind: nat)
    requires
        at(t, i, nl(p, ind) + seq!['}']),
    ensures
        p_member_end(t, i) == Some((false, i + nl(p, ind).len())),
        p_obj_close(t, false, i + nl(p, ind).len()) == Some(i + nl(p, ind).len() + 1),
{
    lemma_at_split(t, i, nl(p, ind), seq!['}']);
    let b = i + nl(p, ind).len();
    lemma_at_char(t, b, '}');
    lemma_nl_all_ws(p, ind);
    lemma_skip_ws_over(t, i, nl(p, ind));
}

/// The writer's object opening: a brace, a line break, and a first key.
proof fn lemma_obj_open(t: Seq<char>, i: int, p: bool, d: nat)
    requires
        at(t, i, seq!['{'] + nl(p, d)),
        i + 1 + nl(p, d).len() < t.len(),
        t[i + 1 + nl(p, d).len()] == '"',
    ensures
        p_obj_open(t, i) == Some((true, i + 1 + nl(p, d).len())),
{
    lemma_at_split(t, i, seq!['{'], nl(p, d));
    lemma_at_char(t, i, '{');
    lemma_nl_all_ws(p, d);
    lemma_skip_ws_over(t, i + 1, nl(p, d));
}

/// Joining adjacent matches into a match of the concatenation.
proof fn lemma_at_join(t: Seq<char>, i: int, x: Seq<char>, y: Seq<char>)
    requires
        at(t, i, x),
        at(t, i + x.len(), y),
    ensures
        at(t, i, x + y),
{
    assert(t.subrange(i, i + (x + y).len()) =~= x + y) by {
        assert forall|k: int| 0 <= k < (x + y).len() implies t.subrange(i, i + (x + y).len())[k]
            == (x + y)[k] by {
            if k < x.len() {
                assert(t.subrange(i, i + x.len())[k] == x[k]);
            } else {
                assert(t.subrange(i + x.len(), i + x.len() + y.len())[k - x.len()] == y[k
                    - x.len()]);
            }
        }
    }
}

/// A written optional string value: `null` for the absent case, a string
/// for the present one, never mistaken for each other.
proof fn lemma_v_opt_str(t: Seq<char>, v: int, o: Option<Seq<char>>)
    requires
        at(t, v, ser_opt_string(o)),
    ensures
        0 <= v < t.len(),
        !is_ws(t[v]),
        o matches Some(s) ==> (p_lit(t, v, null_seq()) is None) && p_string(t, v) == Some(
            (s, v + ser_opt_string(o).len()),
        ),
        (o is None) ==> p_lit(t, v, null_seq()) == Some(v + ser_opt_string(o).len()),
{
    match o {
        Some(s) => {
            lemma_at_first(t, v, ser_opt_string(o));
            assert((seq!['"'] + ser_chars(s) + seq!['"'])[0] == '"');
            lemma_lit_mismatch(t, v, null_seq());
            lemma_rt_string(t, v, s);
        },
        None => {
            lemma_at_first(t, v, ser_opt_string(o));
            lemma_rt_lit(t, v, null_seq());
        },
    }
}

/// A written required string value.
proof fn lemma_v_str(t: Seq<char>, v: int, s: Seq<char>)
    requires
        at(t, v, ser_string(s)),
    ensures
        0 <= v < t.len(),
        t[v] == '"',
        !is_ws(t[v]),
        (p_lit(t, v, null_seq()) is None),
        p_string(t, v) == Some((s, v + ser_string(s).len())),
{
    lemma_at_first(t, v, ser_string(s));
    assert((seq!['"'] + ser_chars(s) + seq!['"'])[0] == '"');
    lemma_lit_mismatch(t, v, null_seq());
    lemma_rt_string(t, v, s);
}

/// A written number value, with whatever follows it not a digit.
proof fn lemma_v_num(t: Seq<char>, v: int, n: nat)
    requires
        at(t, v, spec_udec(n)),
        v + spec_udec(n).len() == t.len() || !is_digit(t[v + spec_udec(n).len()]),
    ensures
        0 <= v < t.len(),
        is_digit(t[v]),
        !is_ws(t[v]),
        (p_lit(t, v, null_seq()) is None),
        p_number(t, v) == Some((n, v + spec_udec(n).len())),
{
    lemma_udec_digits(n);
    lemma_at_first(t, v, spec_udec(n));
    assert(is_digit(spec_udec(n)[0]));
    lemma_lit_mismatch(t, v, null_seq());
    lemma_rt_number(t, v, n);
}

/// A written optional number value that fits in a byte.
proof fn lemma_v_opt_u8(t: Seq<char>, v: int, o: Option<u8>)
    requires
        at(t, v, crate::ser::ser_opt_u8(o)),
        v + crate::ser::ser_opt_u8(o).len() == t.len() || !is_digit(
            t[v + crate::ser::ser_opt_u8(o).len()],
        ),
    ensures
        0 <= v < t.len(),
        !is_ws(t[v]),
        o matches Some(n) ==> (p_lit(t, v, null_seq()) is None) && p_number(t, v) == Some(
            (n as nat, v + crate::ser::ser_opt_u8(o).len()),
        ),
        (o is None) ==> p_lit(t, v, null_seq()) == Some(v + crate::ser::ser_opt_u8(o).len()),
{
    match o {
        Some(n) => {
            lemma_v_num(t, v, n as nat);
        },
        None => {
            lemma_at_first(t, v, crate::ser::ser_opt_u8(o));
            lemma_rt_lit(t, v, null_seq());
        },
    }
}

/// A written optional number value that fits in 32 bits.
proof fn lemma_v_opt_u32(t: Seq<char>, v: int, o: Option<u32>)
    requires
        at(t, v, crate::ser::ser_opt_u32(o)),
        v + crate::ser::ser_opt_u32(o).len() == t.len() || !is_digit(
            t[v + crate::ser::ser_opt_u32(o).len()],
        ),
    ensures
        0 <= v < t.len(),
        !is_ws(t[v]),
        o matches Some(n) ==> (p_lit(t, v, null_seq()) is None) && p_number(t, v) == Some(
            (n as nat, v + crate::ser::ser_opt_u32(o).len()),
        ),
        (o is None) ==> p_lit(t, v, null_seq()) == Some(v + crate::ser::ser_opt_u32(o).len()),
{
    match o {
        Some(n) => {
            lemma_v_num(t, v, n as nat);
        },
        None => {
            lemma_at_first(t, v, crate::ser::ser_opt_u32(o));
            lemma_rt_lit(t, v, null_seq());
        },
    }
}

/// A written optional boolean value.
proof fn lemma_v_opt_bool(t: Seq<char>, v: int, o: Option<bool>)
    requires
        at(t, v, crate::ser::ser_opt_bool(o)),
    ensures
        0 <= v < t.len(),
        !is_ws(t[v]),
        o == Some(true) ==> (p_lit(t, v, null_seq()) is None) && p_lit(t, v, true_seq()) == Some(
            v + crate::ser::ser_opt_bool(o).len(),
        ),
        o == Some(false) ==> (p_lit(t, v, null_seq()) is None) && (p_lit(t, v, true_seq())
            is None) && p_lit(t, v, false_seq()) == Some(v + crate::ser::ser_opt_bool(o).len()),
        (o is None) ==> p_lit(t, v, null_seq()) == Some(v + crate::ser::ser_opt_bool(o).len()),
{
    lemma_at_first(t, v, crate::ser::ser_opt_bool(o));
    match o {
        Some(b) => {
            if b {
                lemma_lit_mismatch(t, v, null_seq());
                lemma_rt_lit(t, v, true_seq());
            } else {
                lemma_lit_mismatch(t, v, null_seq());
                lemma_lit_mismatch(t, v, true_seq());
                lemma_rt_lit(t, v, false_seq());
            }
        },
        None => {
            lemma_rt_lit(t, v, null_seq());
        },
    }
}

/// A required string member, given its key, value, and what follows.
proof fn lemma_m_str(t: Seq<char>, k: int, key: Seq<char>, sv: Seq<char>, p: bool, m2: bool, k2: int)
    requires
        at(t, k, key_tok(key, p)),
        at(t, k + key_tok(key, p).len(), ser_string(sv)),
        p_member_end(t, k + key_tok(key, p).len() + ser_string(sv).len()) == Some((m2, k2)),
    ensures
        crate::parse::p_str_member(t, true, k, key) == Some((sv, m2, k2)),
{
    lemma_v_str(t, k + key_tok(key, p).len(), sv);
    lemma_rt_key_colon(t, k, key, p);
}

/// An optional string member written by the writer (present, as a string or
/// as `null`).
proof fn lemma_m_opt_str(
    t: Seq<char>,
    k: int,
    key: Seq<char>,
    o: Option<Seq<char>>,
    p: bool,
    m2: bool,
    k2: int,
)
    requires
        at(t, k, key_tok(key, p)),
        at(t, k + key_tok(key, p).len(), ser_opt_string(o)),
        p_member_end(t, k + key_tok(key, p).len() + ser_opt_string(o).len()) == Some((m2, k2)),
    ensures
        crate::parse::p_opt_str_member(t, true, k, key) == Some((o, m2, k2)),
{
    lemma_v_opt_str(t, k + key_tok(key, p).len(), o);
    lemma_rt_key_colon(t, k, key, p);
}

/// A required 32-bit number member.
proof fn lemma_m_u32(t: Seq<char>, k: int, key: Seq<char>, n: u32, p: bool, m2: bool, k2: int)
    requires
        at(t, k, key_tok(key, p)),
        at(t, k + key_tok(key, p).len(), spec_udec(n as nat)),
        p_member_end(t, k + key_tok(key, p).len() + spec_udec(n as nat).len()) == Some((m2, k2)),
        k + key_tok(key, p).len() + spec_udec(n as nat).len() == t.len() || !is_digit(
            t[k + key_tok(key, p).len() + spec_udec(n as nat).len()],
        ),
    ensures
        crate::parse::p_u32_member(t, true, k, key) == Some((n, m2, k2)),
{
    lemma_v_num(t, k + key_tok(key, p).len(), n as nat);
    lemma_rt_key_colon(t, k, key, p);
}

/// A required byte-sized number member.
proof fn lemma_m_u8(t: Seq<char>, k: int, key: Seq<char>, n: u8, p: bool, m2: bool, k2: int)
    requires
        at(t, k, key_tok(key, p)),
        at(t, k + key_tok(key, p).len(), spec_udec(n as nat)),
        p_member_end(t, k + key_tok(key, p).len() + spec_udec(n as nat).len()) == Some((m2, k2)),
        k + key_tok(key, p).len() + spec_udec(n as nat).len() == t.len() || !is_digit(
            t[k + key_tok(key, p).len() + spec_udec(n as nat).len()],
        ),
    ensures
        crate::parse::p_u8_member(t, true, k, key) == Some((n, m2, k2)),
{
    lemma_v_num(t, k + key_tok(key, p).len(), n as nat);
    lemma_rt_key_colon(t, k, key, p);
}

/// An optional byte-sized number member.
proof fn lemma_m_opt_u8(t: Seq<char>, k: int, key: Seq<char>, o: Option<u8>, p: bool, m2: bool, k2: int)
    requires
        at(t, k, key_tok(key, p)),
        at(t, k + key_tok(key, p).len(), crate::ser::ser_opt_u8(o)),
        p_member_end(t, k + key_tok(key, p).len() + crate::ser::ser_opt_u8(o).len()) == Some(
            (m2, k2),
        ),
        k + key_tok(key, p).len() + crate::ser::ser_opt_u8(o).len() == t.len() || !is_digit(
            t[k + key_tok(key, p).len() + crate::ser::ser_opt_u8(o).len()],
        ),
    ensures
        crate::parse::p_opt_u8_member(t, true, k, key) == Some((o, m2, k2)),
{
    lemma_v_opt_u8(t, k + key_tok(key, p).len(), o);
    lemma_rt_key_colon(t, k, key, p);
}

/// An optional 32-bit number member.
proof fn lemma_m_opt_u32(
    t: Seq<char>,
    k: int,
    key: Seq<char>,
    o: Option<u32>,
    p: bool,
    m2: bool,
    k2: int,
)
    requires
        at(t, k, key_tok(key, p)),
        at(t, k + key_tok(key, p).len(), crate::ser::ser_opt_u32(o)),
        p_member_end(t, k + key_tok(key, p).len() + crate::ser::ser_opt_u32(o).len()) == Some(
            (m2, k2),
        ),
        k + key_tok(key, p).len() + crate::ser::ser_opt_u32(o).len() == t.len() || !is_digit(
            t[k + key_tok(key, p).len() + crate::ser::ser_opt_u32(o).len()],
        ),
    ensures
        crate::parse::p_opt_u32_member(t, true, k, key) == Some((o, m2, k2)),
{
    lemma_v_opt_u32(t, k + key_tok(key, p).len(), o);
    lemma_rt_key_colon(t, k, key, p);
}

/// An optional boolean member.
proof fn lemma_m_opt_bool(
    t: Seq<char>,
    k: int,
    key: Seq<char>,
    o: Option<bool>,
    p: bool,
    m2: bool,
    k2: int,
)
    requires
        at(t, k, key_tok(key, p)),
        at(t, k + key_tok(key, p).len(), crate::ser::ser_opt_bool(o)),
        p_member_end(t, k + key_tok(key, p).len() + crate::ser::ser_opt_bool(o).len()) == Some(
            (m2, k2),
        ),
    ensures
        crate::parse::p_opt_bool_member(t, true, k, key) == Some((o, m2, k2)),
{
    lemma_v_opt_bool(t, k + key_tok(key, p).len(), o);
    lemma_rt_key_colon(t, k, key, p);
}

/// Where each piece of a written player object stands.
#[verifier::spinoff_prover]
#[verifier::rlimit(100)]
proof fn lemma_rt_player_at(t: Seq<char>, i: int, pl: SpecPlayer, p: bool, ind: nat)
    requires
        at(t, i, crate::ser::ser_player(pl, p, ind)),
    ensures
        at(t, i, seq!['{']),
        at(t, i + 1, nl(p, ind + 2)),
        at(t, i + 1 + nl(p, ind + 2).len(), key_tok("side"@, p)),
        at(t, i + 1 + nl(p, ind + 2).len() + key_tok("side"@, p).len(), ser_string(pl.side)),
        at(t, i + 1 + nl(p, ind + 2).len() + key_tok("side"@, p).len() + ser_string(pl.side).len(), msep("port"@, p, ind + 2)),
        at(t, i + 1 + nl(p, ind + 2).len() + key_tok("side"@, p).len() + ser_string(pl.side).len() + msep("port"@, p, ind + 2).len(), crate::ser::ser_opt_u8(pl.port)),
        at(t, i + 1 + nl(p, ind + 2).len() + key_tok("side"@, p).len() + ser_string(pl.side).len() + msep("port"@, p, ind + 2).len() + crate::ser::ser_opt_u8(pl.port).len(), msep("tag"@, p, ind + 2)),
        at(t, i + 1 + nl(p, ind + 2).len() + key_tok("side"@, p).len() + ser_string(pl.side).len() + msep("port"@, p, ind + 2).len() + crate::ser::ser_opt_u8(pl.port).len() + msep("tag"@, p, ind + 2).len(), ser_string(pl.tag)),
        at(t, i + 1 + nl(p, ind + 2).len() + key_tok("side"@, p).len() + ser_string(pl.side).len() + msep("port"@, p, ind + 2).len() + crate::ser::ser_opt_u8(pl.port).len() + msep("tag"@, p, ind + 2).len() + ser_string(pl.tag).len(), msep("sponsor"@, p, ind + 2)),
        at(t, i + 1 + nl(p, ind + 2).len() + key_tok("side"@, p).len() + ser_string(pl.side).len() + msep("port"@, p, ind + 2).len() + crate::ser::ser_opt_u8(pl.port).len() + msep("tag"@, p, ind + 2).len() + ser_string(pl.tag).len() + msep("sponsor"@, p, ind + 2).len(), ser_opt_string(pl.sponsor)),
        at(t, i + 1 + nl(p, ind + 2).len() + key_tok("side"@, p).len() + ser_string(pl.side).len() + msep("port"@, p, ind + 2).len() + crate::ser::ser_opt_u8(pl.port).len() + msep("tag"@, p, ind + 2).len() + ser_string(pl.tag).len() + msep("sponsor"@, p, ind + 2).len() + ser_opt_string(pl.sponsor).len(), msep("handle"@, p, ind + 2)),
        at(t, i + 1 + nl(p, ind + 2).len() + key_tok("side"@, p).len() + ser_string(pl.side).len() + msep("port"@, p, ind + 2).len() + crate::ser::ser_opt_u8(pl.port).len() + msep("tag"@, p, ind + 2).len() + ser_string(pl.tag).len() + msep("sponsor"@, p, ind + 2).len() + ser_opt_string(pl.sponsor).len() + msep("handle"@, p, ind + 2).len(), ser_opt_string(pl.handle)),
        at(t, i + 1 + nl(p, ind + 2).len() + key_tok("side"@, p).len() + ser_string(pl.side).len() + msep("port"@, p, ind + 2).len() + crate::ser::ser_opt_u8(pl.port).len() + msep("tag"@, p, ind + 2).len() + ser_string(pl.tag).len() + msep("sponsor"@, p, ind + 2).len() + ser_opt_string(pl.sponsor).len() + msep("handle"@, p, ind + 2).len() + ser_opt_string(pl.handle).len(), msep("character"@, p, ind + 2)),
        at(t, i + 1 + nl(p, ind + 2).len() + key_tok("side"@, p).len() + ser_string(pl.side).len() + msep("port"@, p, ind + 2).len() + crate::ser::ser_opt_u8(pl.port).len() + msep("tag"@, p, ind + 2).len() + ser_string(pl.tag).len() + msep("sponsor"@, p, ind + 2).len() + ser_opt_string(pl.sponsor).len() + msep("handle"@, p, ind + 2).len() + ser_opt_string(pl.handle).len() + msep("character"@, p, ind + 2).len(), ser_string(pl.character)),
        at(t, i + 1 + nl(p, ind + 2).len() + key_tok("side"@, p).len() + ser_string(pl.side).len() + msep("port"@, p, ind + 2).len() + crate::ser::ser_opt_u8(pl.port).len() + msep("tag"@, p, ind + 2).len() + ser_string(pl.tag).len() + msep("sponsor"@, p, ind + 2).len() + ser_opt_string(pl.sponsor).len() + msep("handle"@, p, ind + 2).len() + ser_opt_string(pl.handle).len() + msep("character"@, p, ind + 2).len() + ser_string(pl.character).len(), msep("characterColor"@, p, ind + 2)),
        at(t, i + 1 + nl(p, ind + 2).len() + key_tok("side"@, p).len() + ser_string(pl.side).len() + msep("port"@, p, ind + 2).len() + crate::ser::ser_opt_u8(pl.port).len() + msep("tag"@, p, ind + 2).len() + ser_string(pl.tag).len() + msep("sponsor"@, p, ind + 2).len() + ser_opt_string(pl.sponsor).len() + msep("handle"@, p, ind + 2).len() + ser_opt_string(pl.handle).len() + msep("character"@, p, ind + 2).len() + ser_string(pl.character).len() + msep("characterColor"@, p, ind + 2).len(), ser_string(pl.character_color)),
        at(t, i + 1 + nl(p, ind + 2).len() + key_tok("side"@, p).len() + ser_string(pl.side).len() + msep("port"@, p, ind + 2).len() + crate::ser::ser_opt_u8(pl.port).len() + msep("tag"@, p, ind + 2).len() + ser_string(pl.tag).len() + msep("sponsor"@, p, ind + 2).len() + ser_opt_string(pl.sponsor).len() + msep("handle"@, p, ind + 2).len() + ser_opt_string(pl.handle).len() + msep("character"@, p, ind + 2).len() + ser_string(pl.character).len() + msep("characterColor"@, p, ind + 2).len() + ser_string(pl.character_color).len(), msep("score"@, p, ind + 2)),
        at(t, i + 1 + nl(p, ind + 2).len() + key_tok("side"@, p).len() + ser_string(pl.side).len() + msep("port"@, p, ind + 2).len() + crate::ser::ser_opt_u8(pl.port).len() + msep("tag"@, p, ind + 2).len() + ser_string(pl.tag).len() + msep("sponsor"@, p, ind + 2).len() + ser_opt_string(pl.sponsor).len() + msep("handle"@, p, ind + 2).len() + ser_opt_string(pl.handle).len() + msep("character"@, p, ind + 2).len() + ser_string(pl.character).len() + msep("characterColor"@, p, ind + 2).len() + ser_string(pl.character_color).len() + msep("score"@, p, ind + 2).len(), spec_udec(pl.score as nat)),
        at(t, i + 1 + nl(p, ind + 2).len() + key_tok("side"@, p).len() + ser_string(pl.side).len() + msep("port"@, p, ind + 2).len() + crate::ser::ser_opt_u8(pl.port).len() + msep("tag"@, p, ind + 2).len() + ser_string(pl.tag).len() + msep("sponsor"@, p, ind + 2).len() + ser_opt_string(pl.sponsor).len() + msep("handle"@, p, ind + 2).len() + ser_opt_string(pl.handle).len() + msep("character"@, p, ind + 2).len() + ser_string(pl.character).len() + msep("characterColor"@, p, ind + 2).len() + ser_string(pl.character_color).len() + msep("score"@, p, ind + 2).len() + spec_udec(pl.score as nat).len(), msep("countryCode"@, p, ind + 2)),
        at(t, i + 1 + nl(p, ind + 2).len() + key_tok("side"@, p).len() + ser_string(pl.side).len() + msep("port"@, p, ind + 2).len() + crate::ser::ser_opt_u8(pl.port).len() + msep("tag"@, p, ind + 2).len() + ser_string(pl.tag).len() + msep("sponsor"@, p, ind + 2).len() + ser_opt_string(pl.sponsor).len() + msep("handle"@, p, ind + 2).len() + ser_opt_string(pl.handle).len() + msep("character"@, p, ind + 2).len() + ser_string(pl.character).len() + msep("characterColor"@, p, ind + 2).len() + ser_string(pl.character_color).len() + msep("score"@, p, ind + 2).len() + spec_udec(pl.score as nat).len() + msep("countryCode"@, p, ind + 2).len(), ser_opt_string(pl.country_code)),
        at(t, i + 1 + nl(p, ind + 2).len() + key_tok("side"@, p).len() + ser_string(pl.side).len() + msep("port"@, p, ind + 2).len() + crate::ser::ser_opt_u8(pl.port).len() + msep("tag"@, p, ind + 2).len() + ser_string(pl.tag).len() + msep("sponsor"@, p, ind + 2).len() + ser_opt_string(pl.sponsor).len() + msep("handle"@, p, ind + 2).len() + ser_opt_string(pl.handle).len() + msep("character"@, p, ind + 2).len() + ser_string(pl.character).len() + msep("characterColor"@, p, ind + 2).len() + ser_string(pl.character_color).len() + msep("score"@, p, ind + 2).len() + spec_udec(pl.score as nat).len() + msep("countryCode"@, p, ind + 2).len() + ser_opt_string(pl.country_code).len(), nl(p, ind)),
        at(t, i + 1 + nl(p, ind + 2).len() + key_tok("side"@, p).len() + ser_string(pl.side).len() + msep("port"@, p, ind + 2).len() + crate::ser::ser_opt_u8(pl.port).len() + msep("tag"@, p, ind + 2).len() + ser_string(pl.tag).len() + msep("sponsor"@, p, ind + 2).len() + ser_opt_string(pl.sponsor).len() + msep("handle"@, p, ind + 2).len() + ser_opt_string(pl.handle).len() + msep("character"@, p, ind + 2).len() + ser_string(pl.character).len() + msep("characterColor"@, p, ind + 2).len() + ser_string(pl.character_color).len() + msep("score"@, p, ind + 2).len() + spec_udec(pl.score as nat).len() + msep("countryCode"@, p, ind + 2).len() + ser_opt_string(pl.country_code).len() + nl(p, ind).len(), seq!['}']),
{
    let c1 = seq!['{'];
    let c2 = nl(p, ind + 2);
    let c3 = key_tok("side"@, p);
    let c4 = ser_string(pl.side);
    let c5 = msep("port"@, p, ind + 2);
    let c6 = crate::ser::ser_opt_u8(pl.port);
    let c7 = msep("tag"@, p, ind + 2);
    let c8 = ser_string(pl.tag);
    let c9 = msep("sponsor"@, p, ind + 2);
    let c10 = ser_opt_string(pl.sponsor);
    let c11 = msep("handle"@, p, ind + 2);
    let c12 = ser_opt_string(pl.handle);
    let c13 = msep("character"@, p, ind + 2);
    let c14 = ser_string(pl.character);
    let c15 = msep("characterColor"@, p, ind + 2);
    let c16 = ser_string(pl.character_color);
    let c17 = msep("score"@, p, ind + 2);
    let c18 = spec_udec(pl.score as nat);
    let c19 = msep("countryCode"@, p, ind + 2);
    let c20 = ser_opt_string(pl.country_code);
    let c21 = nl(p, ind);
    let c22 = seq!['}'];
    let b2 = c1 + c2;
    let b3 = b2 + c3;
    let b4 = b3 + c4;
    let b5 = b4 + c5;
    let b6 = b5 + c6;
    let b7 = b6 + c7;
    let b8 = b7 + c8;
    let b9 = b8 + c9;
    let b10 = b9 + c10;
    let b11 = b10 + c11;
    let b12 = b11 + c12;
    let b13 = b12 + c13;
    let b14 = b13 + c14;
    let b15 = b14 + c15;
    let b16 = b15 + c16;
    let b17 = b16 + c17;
    let b18 = b17 + c18;
    let b19 = b18 + c19;
    let b20 = b19 + c20;
    let b21 = b20 + c21;
    let b22 = b21 + c22;
    assert(crate::ser::ser_player(pl, p, ind) == b22);
    lemma_at_split(t, i, b21, c22);
    lemma_at_split(t, i, b20, c21);
    lemma_at_split(t, i, b19, c20);
    lemma_at_split(t, i, b18, c19);
    lemma_at_split(t, i, b17, c18);
    lemma_at_split(t, i, b16, c17);
    lemma_at_split(t, i, b15, c16);
    lemma_at_split(t, i, b14, c15);
    lemma_at_split(t, i, b13, c14);
    lemma_at_split(t, i, b12, c13);
    lemma_at_split(t, i, b11, c12);
    lemma_at_split(t, i, b10, c11);
    lemma_at_split(t, i, b9, c10);
    lemma_at_split(t, i, b8, c9);
    lemma_at_split(t, i, b7, c8);
    lemma_at_split(t, i, b6, c7);
    lemma_at_split(t, i, b5, c6);
    lemma_at_split(t, i, b4, c5);
    lemma_at_split(t, i, b3, c4);
    lemma_at_split(t, i, b2, c3);
    lemma_at_split(t, i, c1, c2);
}

/// The first half of a written player object's members.
#[verifier::spinoff_prover]
#[verifier::rlimit(100)]
proof fn lemma_rt_player_front(t: Seq<char>, i: int, pl: SpecPlayer, p: bool, ind: nat)
    requires
        at(t, i, seq!['{']),
        at(t, i + 1, nl(p, ind + 2)),
        at(t, i + 1 + nl(p, ind + 2).len(), key_tok("side"@, p)),
        at(t, i + 1 + nl(p, ind + 2).len() + key_tok("side"@, p).len(), ser_string(pl.side)),
        at(t, i + 1 + nl(p, ind + 2).len() + key_tok("side"@, p).len() + ser_string(pl.side).len(), msep("port"@, p, ind + 2)),
        at(t, i + 1 + nl(p, ind + 2).len() + key_tok("side"@, p).len() + ser_string(pl.side).len() + msep("port"@, p, ind + 2).len(), crate::ser::ser_opt_u8(pl.port)),
        at(t, i + 1 + nl(p, ind + 2).len() + key_tok("side"@, p).len() + ser_string(pl.side).len() + msep("port"@, p, ind + 2).len() + crate::ser::ser_opt_u8(pl.port).len(), msep("tag"@, p, ind + 2)),
        at(t, i + 1 + nl(p, ind + 2).len() + key_tok("side"@, p).len() + ser_string(pl.side).len() + msep("port"@, p, ind + 2).len() + crate::ser::ser_opt_u8(pl.port).len() + msep("tag"@, p, ind + 2).len(), ser_string(pl.tag)),
        at(t, i + 1 + nl(p, ind + 2).len() + key_tok("side"@, p).len() + ser_string(pl.side).len() + msep("port"@, p, ind + 2).len() + crate::ser::ser_opt_u8(pl.port).len() + msep("tag"@, p, ind + 2).len() + ser_string(pl.tag).len(), msep("sponsor"@, p, ind + 2)),
        at(t, i + 1 + nl(p, ind + 2).len() + key_tok("side"@, p).len() + ser_string(pl.side).len() + msep("port"@, p, ind + 2).len() + crate::ser::ser_opt_u8(pl.port).len() + msep("tag"@, p, ind + 2).len() + ser_string(pl.tag).len() + msep("sponsor"@, p, ind + 2).len(), ser_opt_string(pl.sponsor)),
        at(t, i + 1 + nl(p, ind + 2).len() + key_tok("side"@, p).len() + ser_string(pl.side).len() + msep("port"@, p, ind + 2).len() + crate::ser::ser_opt_u8(pl.port).len() + msep("tag"@, p, ind + 2).len() + ser_string(pl.tag).len() + msep("sponsor"@, p, ind + 2).len() + ser_opt_string(pl.sponsor).len(), msep("handle"@, p, ind + 2)),
        at(t, i + 1 + nl(p, ind + 2).len() + key_tok("side"@, p).len() + ser_string(pl.side).len() + msep("port"@, p, ind + 2).len() + crate::ser::ser_opt_u8(pl.port).len() + msep("tag"@, p, ind + 2).len() + ser_string(pl.tag).len() + msep("sponsor"@, p, ind + 2).len() + ser_opt_string(pl.sponsor).len() + msep("handle"@, p, ind + 2).len(), ser_opt_string(pl.handle)),
        at(t, i + 1 + nl(p, ind + 2).len() + key_tok("side"@, p).len() + ser_string(pl.side).len() + msep("port"@, p, ind + 2).len() + crate::ser::ser_opt_u8(pl.port).len() + msep("tag"@, p, ind + 2).len() + ser_string(pl.tag).len() + msep("sponsor"@, p, ind + 2).len() + ser_opt_string(pl.sponsor).len() + msep("handle"@, p, ind + 2).len() + ser_opt_string(pl.handle).len(), msep("character"@, p, ind + 2)),
        at(t, i + 1 + nl(p, ind + 2).len() + key_tok("side"@, p).len() + ser_string(pl.side).len() + msep("port"@, p, ind + 2).len() + crate::ser::ser_opt_u8(pl.port).len() + msep("tag"@, p, ind + 2).len() + ser_string(pl.tag).len() + msep("sponsor"@, p, ind + 2).len() + ser_opt_string(pl.sponsor).len() + msep("handle"@, p, ind + 2).len() + ser_opt_string(pl.handle).len() + msep("character"@, p, ind + 2).len(), ser_string(pl.character)),
        at(t, i + 1 + nl(p, ind + 2).len() + key_tok("side"@, p).len() + ser_string(pl.side).len() + msep("port"@, p, ind + 2).len() + crate::ser::ser_opt_u8(pl.port).len() + msep("tag"@, p, ind + 2).len() + ser_string(pl.tag).len() + msep("sponsor"@, p, ind + 2).len() + ser_opt_string(pl.sponsor).len() + msep("handle"@, p, ind + 2).len() + ser_opt_string(pl.handle).len() + msep("character"@, p, ind + 2).len() + ser_string(pl.character).len(), msep("characterColor"@, p, ind + 2)),
        at(t, i + 1 + nl(p, ind + 2).len() + key_tok("side"@, p).len() + ser_string(pl.side).len() + msep("port"@, p, ind + 2).len() + crate::ser::ser_opt_u8(pl.port).len() + msep("tag"@, p, ind + 2).len() + ser_string(pl.tag).len() + msep("sponsor"@, p, ind + 2).len() + ser_opt_string(pl.sponsor).len() + msep("handle"@, p, ind + 2).len() + ser_opt_string(pl.handle).len() + msep("character"@, p, ind + 2).len() + ser_string(pl.character).len() + msep("characterColor"@, p, ind + 2).len(), ser_string(pl.character_color)),
        at(t, i + 1 + nl(p, ind + 2).len() + key_tok("side"@, p).len() + ser_string(pl.side).len() + msep("port"@, p, ind + 2).len() + crate::ser::ser_opt_u8(pl.port).len() + msep("tag"@, p, ind + 2).len() + ser_string(pl.tag).len() + msep("sponsor"@, p, ind + 2).len() + ser_opt_string(pl.sponsor).len() + msep("handle"@, p, ind + 2).len() + ser_opt_string(pl.handle).len() + msep("character"@, p, ind + 2).len() + ser_string(pl.character).len() + msep("characterColor"@, p, ind + 2).len() + ser_string(pl.character_color).len(), msep("score"@, p, ind + 2)),
        at(t, i + 1 + nl(p, ind + 2).len() + key_tok("side"@, p).len() + ser_string(pl.side).len() + msep("port"@, p, ind + 2).len() + crate::ser::ser_opt_u8(pl.port).len() + msep("tag"@, p, ind + 2).len() + ser_string(pl.tag).len() + msep("sponsor"@, p, ind + 2).len() + ser_opt_string(pl.sponsor).len() + msep("handle"@, p, ind + 2).len() + ser_opt_string(pl.handle).len() + msep("character"@, p, ind + 2).len() + ser_string(pl.character).len() + msep("characterColor"@, p, ind + 2).len() + ser_string(pl.character_color).len() + msep("score"@, p, ind + 2).len(), spec_udec(pl.score as nat)),
        at(t, i + 1 + nl(p, ind + 2).len() + key_tok("side"@, p).len() + ser_string(pl.side).len() + msep("port"@, p, ind + 2).len() + crate::ser::ser_opt_u8(pl.port).len() + msep("tag"@, p, ind + 2).len() + ser_string(pl.tag).len() + msep("sponsor"@, p, ind + 2).len() + ser_opt_string(pl.sponsor).len() + msep("handle"@, p, ind + 2).len() + ser_opt_string(pl.handle).len() + msep("character"@, p, ind + 2).len() + ser_string(pl.character).len() + msep("characterColor"@, p, ind + 2).len() + ser_string(pl.character_color).len() + msep("score"@, p, ind + 2).len() + spec_udec(pl.score as nat).len(), msep("countryCode"@, p, ind + 2)),
        at(t, i + 1 + nl(p, ind + 2).len() + key_tok("side"@, p).len() + ser_string(pl.side).len() + msep("port"@, p, ind + 2).len() + crate::ser::ser_opt_u8(pl.port).len() + msep("tag"@, p, ind + 2).len() + ser_string(pl.tag).len() + msep("sponsor"@, p, ind + 2).len() + ser_opt_string(pl.sponsor).len() + msep("handle"@, p, ind + 2).len() + ser_opt_string(pl.handle).len() + msep("character"@, p, ind + 2).len() + ser_string(pl.character).len() + msep("characterColor"@, p, ind + 2).len() + ser_string(pl.character_color).len() + msep("score"@, p, ind + 2).len() + spec_udec(pl.score as nat).len() + msep("countryCode"@, p, ind + 2).len(), ser_opt_string(pl.country_code)),
        at(t, i + 1 + nl(p, ind + 2).len() + key_tok("side"@, p).len() + ser_string(pl.side).len() + msep("port"@, p, ind + 2).len() + crate::ser::ser_opt_u8(pl.port).len() + msep("tag"@, p, ind + 2).len() + ser_string(pl.tag).len() + msep("sponsor"@, p, ind + 2).len() + ser_opt_string(pl.sponsor).len() + msep("handle"@, p, ind + 2).len() + ser_opt_string(pl.handle).len() + msep("character"@, p, ind + 2).len() + ser_string(pl.character).len() + msep("characterColor"@, p, ind + 2).len() + ser_string(pl.character_color).len() + msep("score"@, p, ind + 2).len() + spec_udec(pl.score as nat).len() + msep("countryCode"@, p, ind + 2).len() + ser_opt_string(pl.country_code).len(), nl(p, ind)),
        at(t, i + 1 + nl(p, ind + 2).len() + key_tok("side"@, p).len() + ser_string(pl.side).len() + msep("port"@, p, ind + 2).len() + crate::ser::ser_opt_u8(pl.port).len() + msep("tag"@, p, ind + 2).len() + ser_string(pl.tag).len() + msep("sponsor"@, p, ind + 2).len() + ser_opt_string(pl.sponsor).len() + msep("handle"@, p, ind + 2).len() + ser_opt_string(pl.handle).len() + msep("character"@, p, ind + 2).len() + ser_string(pl.character).len() + msep("characterColor"@, p, ind + 2).len() + ser_string(pl.character_color).len() + msep("score"@, p, ind + 2).len() + spec_udec(pl.score as nat).len() + msep("countryCode"@, p, ind + 2).len() + ser_opt_string(pl.country_code).len() + nl(p, ind).len(), seq!['}']),
    ensures
        p_obj_open(t, i) == Some((true, i + 1 + nl(p, ind + 2).len())),
        crate::parse::p_str_member(t, true, i + 1 + nl(p, ind + 2).len(), "side"@) == Some((pl.side, true, i + 1 + nl(p, ind + 2).len() + key_tok("side"@, p).len() + ser_string(pl.side).len() + 1 + nl(p, ind + 2).len())),
        crate::parse::p_opt_u8_member(t, true, i + 1 + nl(p, ind + 2).len() + key_tok("side"@, p).len() + ser_string(pl.side).len() + 1 + nl(p, ind + 2).len(), "port"@) == Some((pl.port, true, i + 1 + nl(p, ind + 2).len() + key_tok("side"@, p).len() + ser_string(pl.side).len() + msep("port"@, p, ind + 2).len() + crate::ser::ser_opt_u8(pl.port).len() + 1 + nl(p, ind + 2).len())),
        crate::parse::p_str_member(t, true, i + 1 + nl(p, ind + 2).len() + key_tok("side"@, p).len() + ser_string(pl.side).len() + msep("port"@, p, ind + 2).len() + crate::ser::ser_opt_u8(pl.port).len() + 1 + nl(p, ind + 2).len(), "tag"@) == Some((pl.tag, true, i + 1 + nl(p, ind + 2).len() + key_tok("side"@, p).len() + ser_string(pl.side).len() + msep("port"@, p, ind + 2).len() + crate::ser::ser_opt_u8(pl.port).len() + msep("tag"@, p, ind + 2).len() + ser_string(pl.tag).len() + 1 + nl(p, ind + 2).len())),
        crate::parse::p_opt_str_member(t, true, i + 1 + nl(p, ind + 2).len() + key_tok("side"@, p).len() + ser_string(pl.side).len() + msep("port"@, p, ind + 2).len() + crate::ser::ser_opt_u8(pl.port).len() + msep("tag"@, p, ind + 2).len() + ser_string(pl.tag).len() + 1 + nl(p, ind + 2).len(), "sponsor"@) == Some((pl.sponsor, true, i + 1 + nl(p, ind + 2).len() + key_tok("side"@, p).len() + ser_string(pl.side).len() + msep("port"@, p, ind + 2).len() + crate::ser::ser_opt_u8(pl.port).len() + msep("tag"@, p, ind + 2).len() + ser_string(pl.tag).len() + msep("sponsor"@, p, ind + 2).len() + ser_opt_string(pl.sponsor).len() + 1 + nl(p, ind + 2).len())),
        crate::parse::p_opt_str_member(t, true, i + 1 + nl(p, ind + 2).len() + key_tok("side"@, p).len() + ser_string(pl.side).len() + msep("port"@, p, ind + 2).len() + crate::ser::ser_opt_u8(pl.port).len() + msep("tag"@, p, ind + 2).len() + ser_string(pl.tag).len() + msep("sponsor"@, p, ind + 2).len() + ser_opt_string(pl.sponsor).len() + 1 + nl(p, ind + 2).len(), "handle"@) == Some((pl.handle, true, i + 1 + nl(p, ind + 2).len() + key_tok("side"@, p).len() + ser_string(pl.side).len() + msep("port"@, p, ind + 2).len() + crate::ser::ser_opt_u8(pl.port).len() + msep("tag"@, p, ind + 2).len() + ser_string(pl.tag).len() + msep("sponsor"@, p, ind + 2).len() + ser_opt_string(pl.sponsor).len() + msep("handle"@, p, ind + 2).len() + ser_opt_string(pl.handle).len() + 1 + nl(p, ind + 2).len())),
{
    lemma_at_first(t, i + 1 + nl(p, ind + 2).len() + key_tok("side"@, p).len() + ser_string(pl.side).len() + msep("port"@, p, ind + 2).len() + crate::ser::ser_opt_u8(pl.port).len(), msep("tag"@, p, ind + 2));
    assert(msep("tag"@, p, ind + 2)[0] == ',');
    lemma_v_str(t, i + 1 + nl(p, ind + 2).len() + key_tok("side"@, p).len(), pl.side);
    lemma_v_opt_u8(t, i + 1 + nl(p, ind + 2).len() + key_tok("side"@, p).len() + ser_string(pl.side).len() + msep("port"@, p, ind + 2).len(), pl.port);
    lemma_v_str(t, i + 1 + nl(p, ind + 2).len() + key_tok("side"@, p).len() + ser_string(pl.side).len() + msep("port"@, p, ind + 2).len() + crate::ser::ser_opt_u8(pl.port).len() + msep("tag"@, p, ind + 2).len(), pl.tag);
    lemma_v_opt_str(t, i + 1 + nl(p, ind + 2).len() + key_tok("side"@, p).len() + ser_string(pl.side).len() + msep("port"@, p, ind + 2).len() + crate::ser::ser_opt_u8(pl.port).len() + msep("tag"@, p, ind + 2).len() + ser_string(pl.tag).len() + msep("sponsor"@, p, ind + 2).len(), pl.sponsor);
    lemma_v_opt_str(t, i + 1 + nl(p, ind + 2).len() + key_tok("side"@, p).len() + ser_string(pl.side).len() + msep("port"@, p, ind + 2).len() + crate::ser::ser_opt_u8(pl.port).len() + msep("tag"@, p, ind + 2).len() + ser_string(pl.tag).len() + msep("sponsor"@, p, ind + 2).len() + ser_opt_string(pl.sponsor).len() + msep("handle"@, p, ind + 2).len(), pl.handle);
    lemma_v_str(t, i + 1 + nl(p, ind + 2).len() + key_tok("side"@, p).len() + ser_string(pl.side).len() + msep("port"@, p, ind + 2).len() + crate::ser::ser_opt_u8(pl.port).len() + msep("tag"@, p, ind + 2).len() + ser_string(pl.tag).len() + msep("sponsor"@, p, ind + 2).len() + ser_opt_string(pl.sponsor).len() + msep("handle"@, p, ind + 2).len() + ser_opt_string(pl.handle).len() + msep("character"@, p, ind + 2).len(), pl.character);
    assert(key_tok("side"@, p)[0] == '"');
    lemma_at_join(t, i, seq!['{'], nl(p, ind + 2));
    lemma_obj_open(t, i, p, ind + 2);
    lemma_member_sep(t, i + 1 + nl(p, ind + 2).len() + key_tok("side"@, p).len() + ser_string(pl.side).len(), "port"@, p, ind + 2);
    lemma_member_sep(t, i + 1 + nl(p, ind + 2).len() + key_tok("side"@, p).len() + ser_string(pl.side).len() + msep("port"@, p, ind + 2).len() + crate::ser::ser_opt_u8(pl.port).len(), "tag"@, p, ind + 2);
    lemma_member_sep(t, i + 1 + nl(p, ind + 2).len() + key_tok("side"@, p).len() + ser_string(pl.side).len() + msep("port"@, p, ind + 2).len() + crate::ser::ser_opt_u8(pl.port).len() + msep("tag"@, p, ind + 2).len() + ser_string(pl.tag).len(), "sponsor"@, p, ind + 2);
    lemma_member_sep(t, i + 1 + nl(p, ind + 2).len() + key_tok("side"@, p).len() + ser_string(pl.side).len() + msep("port"@, p, ind + 2).len() + crate::ser::ser_opt_u8(pl.port).len() + msep("tag"@, p, ind + 2).len() + ser_string(pl.tag).len() + msep("sponsor"@, p, ind + 2).len() + ser_opt_string(pl.sponsor).len(), "handle"@, p, ind + 2);
    lemma_member_sep(t, i + 1 + nl(p, ind + 2).len() + key_tok("side"@, p).len() + ser_string(pl.side).len() + msep("port"@, p, ind + 2).len() + crate::ser::ser_opt_u8(pl.port).len() + msep("tag"@, p, ind + 2).len() + ser_string(pl.tag).len() + msep("sponsor"@, p, ind + 2).len() + ser_opt_string(pl.sponsor).len() + msep("handle"@, p, ind + 2).len() + ser_opt_string(pl.handle).len(), "character"@, p, ind + 2);
    lemma_m_str(t, i + 1 + nl(p, ind + 2).len(), "side"@, pl.side, p, true, i + 1 + nl(p, ind + 2).len() + key_tok("side"@, p).len() + ser_string(pl.side).len() + 1 + nl(p, ind + 2).len());
    lemma_m_opt_u8(t, i + 1 + nl(p, ind + 2).len() + key_tok("side"@, p).len() + ser_string(pl.side).len() + 1 + nl(p, ind + 2).len(), "port"@, pl.port, p, true, i + 1 + nl(p, ind + 2).len() + key_tok("side"@, p).len() + ser_string(pl.side).len() + msep("port"@, p, ind + 2).len() + crate::ser::ser_opt_u8(pl.port).len() + 1 + nl(p, ind + 2).len());
    lemma_m_str(t, i + 1 + nl(p, ind + 2).len() + key_tok("side"@, p).len() + ser_string(pl.side).len() + msep("port"@, p, ind + 2).len() + crate::ser::ser_opt_u8(pl.port).len() + 1 + nl(p, ind + 2).len(), "tag"@, pl.tag, p, true, i + 1 + nl(p, ind + 2).len() + key_tok("side"@, p).len() + ser_string(pl.side).len() + msep("port"@, p, ind + 2).len() + crate::ser::ser_opt_u8(pl.port).len() + msep("tag"@, p, ind + 2).len() + ser_string(pl.tag).len() + 1 + nl(p, ind + 2).len());
    lemma_m_opt_str(t, i + 1 + nl(p, ind + 2).len() + key_tok("side"@, p).len() + ser_string(pl.side).len() + msep("port"@, p, ind + 2).len() + crate::ser::ser_opt_u8(pl.port).len() + msep("tag"@, p, ind + 2).len() + ser_string(pl.tag).len() + 1 + nl(p, ind + 2).len(), "sponsor"@, pl.sponsor, p, true, i + 1 + nl(p, ind + 2).len() + key_tok("side"@, p).len() + ser_string(pl.side).len() + msep("port"@, p, ind + 2).len() + crate::ser::ser_opt_u8(pl.port).len() + msep("tag"@, p, ind + 2).len() + ser_string(pl.tag).len() + msep("sponsor"@, p, ind + 2).len() + ser_opt_string(pl.sponsor).len() + 1 + nl(p, ind + 2).len());
    lemma_m_opt_str(t, i + 1 + nl(p, ind + 2).len() + key_tok("side"@, p).len() + ser_string(pl.side).len() + msep("port"@, p, ind + 2).len() + crate::ser::ser_opt_u8(pl.port).len() + msep("tag"@, p, ind + 2).len() + ser_string(pl.tag).len() + msep("sponsor"@, p, ind + 2).len() + ser_opt_string(pl.sponsor).len() + 1 + nl(p, ind + 2).len(), "handle"@, pl.handle, p, true, i + 1 + nl(p, ind + 2).len() + key_tok("side"@, p).len() + ser_string(pl.side).len() + msep("port"@, p, ind + 2).len() + crate::ser::ser_opt_u8(pl.port).len() + msep("tag"@, p, ind + 2).len() + ser_string(pl.tag).len() + msep("sponsor"@, p, ind + 2).len() + ser_opt_string(pl.sponsor).len() + msep("handle"@, p, ind + 2).len() + ser_opt_string(pl.handle).len() + 1 + nl(p, ind + 2).len());
}

/// The second half of a written player object's members.
#[verifier::spinoff_prover]
#[verifier::rlimit(100)]
proof fn lemma_rt_player_back(t: Seq<char>, i: int, pl: SpecPlayer, p: bool, ind: nat)
    requires
        at(t, i, seq!['{']),
        at(t, i + 1, nl(p, ind + 2)),
        at(t, i + 1 + nl(p, ind + 2).len(), key_tok("side"@, p)),
        at(t, i + 1 + nl(p, ind + 2).len() + key_tok("side"@, p).len(), ser_string(pl.side)),
        at(t, i + 1 + nl(p, ind + 2).len() + key_tok("side"@, p).len() + ser_string(pl.side).len(), msep("port"@, p, ind + 2)),
        at(t, i + 1 + nl(p, ind + 2).len() + key_tok("side"@, p).len() + ser_string(pl.side).len() + msep("port"@, p, ind + 2).len(), crate::ser::ser_opt_u8(pl.port)),
        at(t, i + 1 + nl(p, ind + 2).len() + key_tok("side"@, p).len() + ser_string(pl.side).len() + msep("port"@, p, ind + 2).len() + crate::ser::ser_opt_u8(pl.port).len(), msep("tag"@, p, ind + 2)),
        at(t, i + 1 + nl(p, ind + 2).len() + key_tok("side"@, p).len() + ser_string(pl.side).len() + msep("port"@, p, ind + 2).len() + crate::ser::ser_opt_u8(pl.port).len() + msep("tag"@, p, ind + 2).len(), ser_string(pl.tag)),
        at(t, i + 1 + nl(p, ind + 2).len() + key_tok("side"@, p).len() + ser_string(pl.side).len() + msep("port"@, p, ind + 2).len() + crate::ser::ser_opt_u8(pl.port).len() + msep("tag"@, p, ind + 2).len() + ser_string(pl.tag).len(), msep("sponsor"@, p, ind + 2)),
        at(t, i + 1 + nl(p, ind + 2).len() + key_tok("side"@, p).len() + ser_string(pl.side).len() + msep("port"@, p, ind + 2).len() + crate::ser::ser_opt_u8(pl.port).len() + msep("tag"@, p, ind + 2).len() + ser_string(pl.tag).len() + msep("sponsor"@, p, ind + 2).len(), ser_opt_string(pl.sponsor)),
        at(t, i + 1 + nl(p, ind + 2).len() + key_tok("side"@, p).len() + ser_string(pl.side).len() + msep("port"@, p, ind + 2).len() + crate::ser::ser_opt_u8(pl.port).len() + msep("tag"@, p, ind + 2).len() + ser_string(pl.tag).len() + msep("sponsor"@, p, ind + 2).len() + ser_opt_string(pl.sponsor).len(), msep("handle"@, p, ind + 2)),
        at(t, i + 1 + nl(p, ind + 2).len() + key_tok("side"@, p).len() + ser_string(pl.side).len() + msep("port"@, p, ind + 2).len() + crate::ser::ser_opt_u8(pl.port).len() + msep("tag"@, p, ind + 2).len() + ser_string(pl.tag).len() + msep("sponsor"@, p, ind + 2).len() + ser_opt_string(pl.sponsor).len() + msep("handle"@, p, ind + 2).len(), ser_opt_string(pl.handle)),
        at(t, i + 1 + nl(p, ind + 2).len() + key_tok("side"@, p).len() + ser_string(pl.side).len() + msep("port"@, p, ind + 2).len() + crate::ser::ser_opt_u8(pl.port).len() + msep("tag"@, p, ind + 2).len() + ser_string(pl.tag).len() + msep("sponsor"@, p, ind + 2).len() + ser_opt_string(pl.sponsor).len() + msep("handle"@, p, ind + 2).len() + ser_opt_string(pl.handle).len(), msep("character"@, p, ind + 2)),
        at(t, i + 1 + nl(p, ind + 2).len() + key_tok("side"@, p).len() + ser_string(pl.side).len() + msep("port"@, p, ind + 2).len() + crate::ser::ser_opt_u8(pl.port).len() + msep("tag"@, p, ind + 2).len() + ser_string(pl.tag).len() + msep("sponsor"@, p, ind + 2).len() + ser_opt_string(pl.sponsor).len() + msep("handle"@, p, ind + 2).len() + ser_opt_string(pl.handle).len() + msep("character"@, p, ind + 2).len(), ser_string(pl.character)),
        at(t, i + 1 + nl(p, ind + 2).len() + key_tok("side"@, p).len() + ser_string(pl.side).len() + msep("port"@, p, ind + 2).len() + crate::ser::ser_opt_u8(pl.port).len() + msep("tag"@, p, ind + 2).len() + ser_string(pl.tag).len() + msep("sponsor"@, p, ind + 2).len() + ser_opt_string(pl.sponsor).len() + msep("handle"@, p, ind + 2).len() + ser_opt_string(pl.handle).len() + msep("character"@, p, ind + 2).len() + ser_string(pl.character).len(), msep("characterColor"@, p, ind + 2)),
        at(t, i + 1 + nl(p, ind + 2).len() + key_tok("side"@, p).len() + ser_string(pl.side).len() + msep("port"@, p, ind + 2).len() + crate::ser::ser_opt_u8(pl.port).len() + msep("tag"@, p, ind + 2).len() + ser_string(pl.tag).len() + msep("sponsor"@, p, ind + 2).len() + ser_opt_string(pl.sponsor).len() + msep("handle"@, p, ind + 2).len() + ser_opt_string(pl.handle).len() + msep("character"@, p, ind + 2).len() + ser_string(pl.character).len() + msep("characterColor"@, p, ind + 2).len(), ser_string(pl.character_color)),
        at(t, i + 1 + nl(p, ind + 2).len() + key_tok("side"@, p).len() + ser_string(pl.side).len() + msep("port"@, p, ind + 2).len() + crate::ser::ser_opt_u8(pl.port).len() + msep("tag"@, p, ind + 2).len() + ser_string(pl.tag).len() + msep("sponsor"@, p, ind + 2).len() + ser_opt_string(pl.sponsor).len() + msep("handle"@, p, ind + 2).len() + ser_opt_string(pl.handle).len() + msep("character"@, p, ind + 2).len() + ser_string(pl.character).len() + msep("characterColor"@, p, ind + 2).len() + ser_string(pl.character_color).len(), msep("score"@, p, ind + 2)),
        at(t, i + 1 + nl(p, ind + 2).len() + key_tok("side"@, p).len() + ser_string(pl.side).len() + msep("port"@, p, ind + 2).len() + crate::ser::ser_opt_u8(pl.port).len() + msep("tag"@, p, ind + 2).len() + ser_string(pl.tag).len() + msep("sponsor"@, p, ind + 2).len() + ser_opt_string(pl.sponsor).len() + msep("handle"@, p, ind + 2).len() + ser_opt_string(pl.handle).len() + msep("character"@, p, ind + 2).len() + ser_string(pl.character).len() + msep("characterColor"@, p, ind + 2).len() + ser_string(pl.character_color).len() + msep("score"@, p, ind + 2).len(), spec_udec(pl.score as nat)),
        at(t, i + 1 + nl(p, ind + 2).len() + key_tok("side"@, p).len() + ser_string(pl.side).len() + msep("port"@, p, ind + 2).len() + crate::ser::ser_opt_u8(pl.port).len() + msep("tag"@, p, ind + 2).len() + ser_string(pl.tag).len() + msep("sponsor"@, p, ind + 2).len() + ser_opt_string(pl.sponsor).len() + msep("handle"@, p, ind + 2).len() + ser_opt_string(pl.handle).len() + msep("character"@, p, ind + 2).len() + ser_string(pl.character).len() + msep("characterColor"@, p, ind + 2).len() + ser_string(pl.character_color).len() + msep("score"@, p, ind + 2).len() + spec_udec(pl.score as nat).len(), msep("countryCode"@, p, ind + 2)),
        at(t, i + 1 + nl(p, ind + 2).len() + key_tok("side"@, p).len() + ser_string(pl.side).len() + msep("port"@, p, ind + 2).len() + crate::ser::ser_opt_u8(pl.port).len() + msep("tag"@, p, ind + 2).len() + ser_string(pl.tag).len() + msep("sponsor"@, p, ind + 2).len() + ser_opt_string(pl.sponsor).len() + msep("handle"@, p, ind + 2).len() + ser_opt_string(pl.handle).len() + msep("character"@, p, ind + 2).len() + ser_string(pl.character).len() + msep("characterColor"@, p, ind + 2).len() + ser_string(pl.character_color).len() + msep("score"@, p, ind + 2).len() + spec_udec(pl.score as nat).len() + msep("countryCode"@, p, ind + 2).len(), ser_opt_string(pl.country_code)),
        at(t, i + 1 + nl(p, ind + 2).len() + key_tok("side"@, p).len() + ser_string(pl.side).len() + msep("port"@, p, ind + 2).len() + crate::ser::ser_opt_u8(pl.port).len() + msep("tag"@, p, ind + 2).len() + ser_string(pl.tag).len() + msep("sponsor"@, p, ind + 2).len() + ser_opt_string(pl.sponsor).len() + msep("handle"@, p, ind + 2).len() + ser_opt_string(pl.handle).len() + msep("character"@, p, ind + 2).len() + ser_string(pl.character).len() + msep("characterColor"@, p, ind + 2).len() + ser_string(pl.character_color).len() + msep("score"@, p, ind + 2).len() + spec_udec(pl.score as nat).len() + msep("countryCode"@, p, ind + 2).len() + ser_opt_string(pl.country_code).len(), nl(p, ind)),
        at(t, i + 1 + nl(p, ind + 2).len() + key_tok("side"@, p).len() + ser_string(pl.side).len() + msep("port"@, p, ind + 2).len() + crate::ser::ser_opt_u8(pl.port).len() + msep("tag"@, p, ind + 2).len() + ser_string(pl.tag).len() + msep("sponsor"@, p, ind + 2).len() + ser_opt_string(pl.sponsor).len() + msep("handle"@, p, ind + 2).len() + ser_opt_string(pl.handle).len() + msep("character"@, p, ind + 2).len() + ser_string(pl.character).len() + msep("characterColor"@, p, ind + 2).len() + ser_string(pl.character_color).len() + msep("score"@, p, ind + 2).len() + spec_udec(pl.score as nat).len() + msep("countryCode"@, p, ind + 2).len() + ser_opt_string(pl.country_code).len() + nl(p, ind).len(), seq!['}']),
    ensures
        crate::parse::p_str_member(t, true, i + 1 + nl(p, ind + 2).len() + key_tok("side"@, p).len() + ser_string(pl.side).len() + msep("port"@, p, ind + 2).len() + crate::ser::ser_opt_u8(pl.port).len() + msep("tag"@, p, ind + 2).len() + ser_string(pl.tag).len() + msep("sponsor"@, p, ind + 2).len() + ser_opt_string(pl.sponsor).len() + msep("handle"@, p, ind + 2).len() + ser_opt_string(pl.handle).len() + 1 + nl(p, ind + 2).len(), "character"@) == Some((pl.character, true, i + 1 + nl(p, ind + 2).len() + key_tok("side"@, p).len() + ser_string(pl.side).len() + msep("port"@, p, ind + 2).len() + crate::ser::ser_opt_u8(pl.port).len() + msep("tag"@, p, ind + 2).len() + ser_string(pl.tag).len() + msep("sponsor"@, p, ind + 2).len() + ser_opt_string(pl.sponsor).len() + msep("handle"@, p, ind + 2).len() + ser_opt_string(pl.handle).len() + msep("character"@, p, ind + 2).len() + ser_string(pl.character).len() + 1 + nl(p, ind + 2).len())),
        crate::parse::p_str_member(t, true, i + 1 + nl(p, ind + 2).len() + key_tok("side"@, p).len() + ser_string(pl.side).len() + msep("port"@, p, ind + 2).len() + crate::ser::ser_opt_u8(pl.port).len() + msep("tag"@, p, ind + 2).len() + ser_string(pl.tag).len() + msep("sponsor"@, p, ind + 2).len() + ser_opt_string(pl.sponsor).len() + msep("handle"@, p, ind + 2).len() + ser_opt_string(pl.handle).len() + msep("character"@, p, ind + 2).len() + ser_string(pl.character).len() + 1 + nl(p, ind + 2).len(), "characterColor"@) == Some((pl.character_color, true, i + 1 + nl(p, ind + 2).len() + key_tok("side"@, p).len() + ser_string(pl.side).len() + msep("port"@, p, ind + 2).len() + crate::ser::ser_opt_u8(pl.port).len() + msep("tag"@, p, ind + 2).len() + ser_string(pl.tag).len() + msep("sponsor"@, p, ind + 2).len() + ser_opt_string(pl.sponsor).len() + msep("handle"@, p, ind + 2).len() + ser_opt_string(pl.handle).len() + msep("character"@, p, ind + 2).len() + ser_string(pl.character).len() + msep("characterColor"@, p, ind + 2).len() + ser_string(pl.character_color).len() + 1 + nl(p, ind + 2).len())),
        crate::parse::p_u32_member(t, true, i + 1 + nl(p, ind + 2).len() + key_tok("side"@, p).len() + ser_string(pl.side).len() + msep("port"@, p, ind + 2).len() + crate::ser::ser_opt_u8(pl.port).len() + msep("tag"@, p, ind + 2).len() + ser_string(pl.tag).len() + msep("sponsor"@, p, ind + 2).len() + ser_opt_string(pl.sponsor).len() + msep("handle"@, p, ind + 2).len() + ser_opt_string(pl.handle).len() + msep("character"@, p, ind + 2).len() + ser_string(pl.character).len() + msep("characterColor"@, p, ind + 2).len() + ser_string(pl.character_color).len() + 1 + nl(p, ind + 2).len(), "score"@) == Some((pl.score, true, i + 1 + nl(p, ind + 2).len() + key_tok("side"@, p).len() + ser_string(pl.side).len() + msep("port"@, p, ind + 2).len() + crate::ser::ser_opt_u8(pl.port).len() + msep("tag"@, p, ind + 2).len() + ser_string(pl.tag).len() + msep("sponsor"@, p, ind + 2).len() + ser_opt_string(pl.sponsor).len() + msep("handle"@, p, ind + 2).len() + ser_opt_string(pl.handle).len() + msep("character"@, p, ind + 2).len() + ser_string(pl.character).len() + msep("characterColor"@, p, ind + 2).len() + ser_string(pl.character_color).len() + msep("score"@, p, ind + 2).len() + spec_udec(pl.score as nat).len() + 1 + nl(p, ind + 2).len())),
        crate::parse::p_opt_str_member(t, true, i + 1 + nl(p, ind + 2).len() + key_tok("side"@, p).len() + ser_string(pl.side).len() + msep("port"@, p, ind + 2).len() + crate::ser::ser_opt_u8(pl.port).len() + msep("tag"@, p, ind + 2).len() + ser_string(pl.tag).len() + msep("sponsor"@, p, ind + 2).len() + ser_opt_string(pl.sponsor).len() + msep("handle"@, p, ind + 2).len() + ser_opt_string(pl.handle).len() + msep("character"@, p, ind + 2).len() + ser_string(pl.character).len() + msep("characterColor"@, p, ind + 2).len() + ser_string(pl.character_color).len() + msep("score"@, p, ind + 2).len() + spec_udec(pl.score as nat).len() + 1 + nl(p, ind + 2).len(), "countryCode"@) == Some((pl.country_code, false, i + 1 + nl(p, ind + 2).len() + key_tok("side"@, p).len() + ser_string(pl.side).len() + msep("port"@, p, ind + 2).len() + crate::ser::ser_opt_u8(pl.port).len() + msep("tag"@, p, ind + 2).len() + ser_string(pl.tag).len() + msep("sponsor"@, p, ind + 2).len() + ser_opt_string(pl.sponsor).len() + msep("handle"@, p, ind + 2).len() + ser_opt_string(pl.handle).len() + msep("character"@, p, ind + 2).len() + ser_string(pl.character).len() + msep("characterColor"@, p, ind + 2).len() + ser_string(pl.character_color).len() + msep("score"@, p, ind + 2).len() + spec_udec(pl.score as nat).len() + msep("countryCode"@, p, ind + 2).len() + ser_opt_string(pl.country_code).len() + nl(p, ind).len())),
        crate::parse::p_obj_close(t, false, i + 1 + nl(p, ind + 2).len() + key_tok("side"@, p).len() + ser_string(pl.side).len() + msep("port"@, p, ind + 2).len() + crate::ser::ser_opt_u8(pl.port).len() + msep("tag"@, p, ind + 2).len() + ser_string(pl.tag).len() + msep("sponsor"@, p, ind + 2).len() + ser_opt_string(pl.sponsor).len() + msep("handle"@, p, ind + 2).len() + ser_opt_string(pl.handle).len() + msep("character"@, p, ind + 2).len() + ser_string(pl.character).len() + msep("characterColor"@, p, ind + 2).len() + ser_string(pl.character_color).len() + msep("score"@, p, ind + 2).len() + spec_udec(pl.score as nat).len() + msep("countryCode"@, p, ind + 2).len() + ser_opt_string(pl.country_code).len() + nl(p, ind).len()) == Some(i + 1 + nl(p, ind + 2).len() + key_tok("side"@, p).len() + ser_string(pl.side).len() + msep("port"@, p, ind + 2).len() + crate::ser::ser_opt_u8(pl.port).len() + msep("tag"@, p, ind + 2).len() + ser_string(pl.tag).len() + msep("sponsor"@, p, ind + 2).len() + ser_opt_string(pl.sponsor).len() + msep("handle"@, p, ind + 2).len() + ser_opt_string(pl.handle).len() + msep("character"@, p, ind + 2).len() + ser_string(pl.character).len() + msep("characterColor"@, p, ind + 2).len() + ser_string(pl.character_color).len() + msep("score"@, p, ind + 2).len() + spec_udec(pl.score as nat).len() + msep("countryCode"@, p, ind + 2).len() + ser_opt_string(pl.country_code).len() + nl(p, ind).len() + 1),
{
    lemma_at_first(t, i + 1 + nl(p, ind + 2).len() + key_tok("side"@, p).len() + ser_string(pl.side).len() + msep("port"@, p, ind + 2).len() + crate::ser::ser_opt_u8(pl.port).len() + msep("tag"@, p, ind + 2).len() + ser_string(pl.tag).len() + msep("sponsor"@, p, ind + 2).len() + ser_opt_string(pl.sponsor).len() + msep("handle"@, p, ind + 2).len() + ser_opt_string(pl.handle).len() + msep("character"@, p, ind + 2).len() + ser_string(pl.character).len() + msep("characterColor"@, p, ind + 2).len() + ser_string(pl.character_color).len() + msep("score"@, p, ind + 2).len() + spec_udec(pl.score as nat).len(), msep("countryCode"@, p, ind + 2));
    assert(msep("countryCode"@, p, ind + 2)[0] == ',');
    lemma_v_str(t, i + 1 + nl(p, ind + 2).len() + key_tok("side"@, p).len() + ser_string(pl.side).len() + msep("port"@, p, ind + 2).len() + crate::ser::ser_opt_u8(pl.port).len() + msep("tag"@, p, ind + 2).len() + ser_string(pl.tag).len() + msep("sponsor"@, p, ind + 2).len() + ser_opt_string(pl.sponsor).len() + msep("handle"@, p, ind + 2).len() + ser_opt_string(pl.handle).len() + msep("character"@, p, ind + 2).len(), pl.character);
    lemma_v_str(t, i + 1 + nl(p, ind + 2).len() + key_tok("side"@, p).len() + ser_string(pl.side).len() + msep("port"@, p, ind + 2).len() + crate::ser::ser_opt_u8(pl.port).len() + msep("tag"@, p, ind + 2).len() + ser_string(pl.tag).len() + msep("sponsor"@, p, ind + 2).len() + ser_opt_string(pl.sponsor).len() + msep("handle"@, p, ind + 2).len() + ser_opt_string(pl.handle).len() + msep("character"@, p, ind + 2).len() + ser_string(pl.character).len() + msep("characterColor"@, p, ind + 2).len(), pl.character_color);
    lemma_v_num(t, i + 1 + nl(p, ind + 2).len() + key_tok("side"@, p).len() + ser_string(pl.side).len() + msep("port"@, p, ind + 2).len() + crate::ser::ser_opt_u8(pl.port).len() + msep("tag"@, p, ind + 2).len() + ser_string(pl.tag).len() + msep("sponsor"@, p, ind + 2).len() + ser_opt_string(pl.sponsor).len() + msep("handle"@, p, ind + 2).len() + ser_opt_string(pl.handle).len() + msep("character"@, p, ind + 2).len() + ser_string(pl.character).len() + msep("characterColor"@, p, ind + 2).len() + ser_string(pl.character_color).len() + msep("score"@, p, ind + 2).len(), pl.score as nat);
    lemma_v_opt_str(t, i + 1 + nl(p, ind + 2).len() + key_tok("side"@, p).len() + ser_string(pl.side).len() + msep("port"@, p, ind + 2).len() + crate::ser::ser_opt_u8(pl.port).len() + msep("tag"@, p, ind + 2).len() + ser_string(pl.tag).len() + msep("sponsor"@, p, ind + 2).len() + ser_opt_string(pl.sponsor).len() + msep("handle"@, p, ind + 2).len() + ser_opt_string(pl.handle).len() + msep("character"@, p, ind + 2).len() + ser_string(pl.character).len() + msep("characterColor"@, p, ind + 2).len() + ser_string(pl.character_color).len() + msep("score"@, p, ind + 2).len() + spec_udec(pl.score as nat).len() + msep("countryCode"@, p, ind + 2).len(), pl.country_code);
    lemma_member_sep(t, i + 1 + nl(p, ind + 2).len() + key_tok("side"@, p).len() + ser_string(pl.side).len() + msep("port"@, p, ind + 2).len() + crate::ser::ser_opt_u8(pl.port).len() + msep("tag"@, p, ind + 2).len() + ser_string(pl.tag).len() + msep("sponsor"@, p, ind + 2).len() + ser_opt_string(pl.sponsor).len() + msep("handle"@, p, ind + 2).len() + ser_opt_string(pl.handle).len(), "character"@, p, ind + 2);
    lemma_member_sep(t, i + 1 + nl(p, ind + 2).len() + key_tok("side"@, p).len() + ser_string(pl.side).len() + msep("port"@, p, ind + 2).len() + crate::ser::ser_opt_u8(pl.port).len() + msep("tag"@, p, ind + 2).len() + ser_string(pl.tag).len() + msep("sponsor"@, p, ind + 2).len() + ser_opt_string(pl.sponsor).len() + msep("handle"@, p, ind + 2).len() + ser_opt_string(pl.handle).len() + msep("character"@, p, ind + 2).len() + ser_string(pl.character).len(), "characterColor"@, p, ind + 2);
    lemma_member_sep(t, i + 1 + nl(p, ind + 2).len() + key_tok("side"@, p).len() + ser_string(pl.side).len() + msep("port"@, p, ind + 2).len() + crate::ser::ser_opt_u8(pl.port).len() + msep("tag"@, p, ind + 2).len() + ser_string(pl.tag).len() + msep("sponsor"@, p, ind + 2).len() + ser_opt_string(pl.sponsor).len() + msep("handle"@, p, ind + 2).len() + ser_opt_string(pl.handle).len() + msep("character"@, p, ind + 2).len() + ser_string(pl.character).len() + msep("characterColor"@, p, ind + 2).len() + ser_string(pl.character_color).len(), "score"@, p, ind + 2);
    lemma_member_sep(t, i + 1 + nl(p, ind + 2).len() + key_tok("side"@, p).len() + ser_string(pl.side).len() + msep("port"@, p, ind + 2).len() + crate::ser::ser_opt_u8(pl.port).len() + msep("tag"@, p, ind + 2).len() + ser_string(pl.tag).len() + msep("sponsor"@, p, ind + 2).len() + ser_opt_string(pl.sponsor).len() + msep("handle"@, p, ind + 2).len() + ser_opt_string(pl.handle).len() + msep("character"@, p, ind + 2).len() + ser_string(pl.character).len() + msep("characterColor"@, p, ind + 2).len() + ser_string(pl.character_color).len() + msep("score"@, p, ind + 2).len() + spec_udec(pl.score as nat).len(), "countryCode"@, p, ind + 2);
    lemma_at_join(t, i + 1 + nl(p, ind + 2).len() + key_tok("side"@, p).len() + ser_string(pl.side).len() + msep("port"@, p, ind + 2).len() + crate::ser::ser_opt_u8(pl.port).len() + msep("tag"@, p, ind + 2).len() + ser_string(pl.tag).len() + msep("sponsor"@, p, ind + 2).len() + ser_opt_string(pl.sponsor).len() + msep("handle"@, p, ind + 2).len() + ser_opt_string(pl.handle).len() + msep("character"@, p, ind + 2).len() + ser_string(pl.character).len() + msep("characterColor"@, p, ind + 2).len() + ser_string(pl.character_color).len() + msep("score"@, p, ind + 2).len() + spec_udec(pl.score as nat).len() + msep("countryCode"@, p, ind + 2).len() + ser_opt_string(pl.country_code).len(), nl(p, ind), seq!['}']);
    lemma_member_close(t, i + 1 + nl(p, ind + 2).len() + key_tok("side"@, p).len() + ser_string(pl.side).len() + msep("port"@, p, ind + 2).len() + crate::ser::ser_opt_u8(pl.port).len() + msep("tag"@, p, ind + 2).len() + ser_string(pl.tag).len() + msep("sponsor"@, p, ind + 2).len() + ser_opt_string(pl.sponsor).len() + msep("handle"@, p, ind + 2).len() + ser_opt_string(pl.handle).len() + msep("character"@, p, ind + 2).len() + ser_string(pl.character).len() + msep("characterColor"@, p, ind + 2).len() + ser_string(pl.character_color).len() + msep("score"@, p, ind + 2).len() + spec_udec(pl.score as nat).len() + msep("countryCode"@, p, ind + 2).len() + ser_opt_string(pl.country_code).len(), p, ind);
    lemma_m_str(t, i + 1 + nl(p, ind + 2).len() + key_tok("side"@, p).len() + ser_string(pl.side).len() + msep("port"@, p, ind + 2).len() + crate::ser::ser_opt_u8(pl.port).len() + msep("tag"@, p, ind + 2).len() + ser_string(pl.tag).len() + msep("sponsor"@, p, ind + 2).len() + ser_opt_string(pl.sponsor).len() + msep("handle"@, p, ind + 2).len() + ser_opt_string(pl.handle).len() + 1 + nl(p, ind + 2).len(), "character"@, pl.character, p, true, i + 1 + nl(p, ind + 2).len() + key_tok("side"@, p).len() + ser_string(pl.side).len() + msep("port"@, p, ind + 2).len() + crate::ser::ser_opt_u8(pl.port).len() + msep("tag"@, p, ind + 2).len() + ser_string(pl.tag).len() + msep("sponsor"@, p, ind + 2).len() + ser_opt_string(pl.sponsor).len() + msep("handle"@, p, ind + 2).len() + ser_opt_string(pl.handle).len() + msep("character"@, p, ind + 2).len() + ser_string(pl.character).len() + 1 + nl(p, ind + 2).len());
    lemma_m_str(t, i + 1 + nl(p, ind + 2).len() + key_tok("side"@, p).len() + ser_string(pl.side).len() + msep("port"@, p, ind + 2).len() + crate::ser::ser_opt_u8(pl.port).len() + msep("tag"@, p, ind + 2).len() + ser_string(pl.tag).len() + msep("sponsor"@, p, ind + 2).len() + ser_opt_string(pl.sponsor).len() + msep("handle"@, p, ind + 2).len() + ser_opt_string(pl.handle).len() + msep("character"@, p, ind + 2).len() + ser_string(pl.character).len() + 1 + nl(p, ind + 2).len(), "characterColor"@, pl.character_color, p, true, i + 1 + nl(p, ind + 2).len() + key_tok("side"@, p).len() + ser_string(pl.side).len() + msep("port"@, p, ind + 2).len() + crate::ser::ser_opt_u8(pl.port).len() + msep("tag"@, p, ind + 2).len() + ser_string(pl.tag).len() + msep("sponsor"@, p, ind + 2).len() + ser_opt_string(pl.sponsor).len() + msep("handle"@, p, ind + 2).len() + ser_opt_string(pl.handle).len() + msep("character"@, p, ind + 2).len() + ser_string(pl.character).len() + msep("characterColor"@, p, ind + 2).len() + ser_string(pl.character_color).len() + 1 + nl(p, ind + 2).len());
    lemma_m_u32(t, i + 1 + nl(p, ind + 2).len() + key_tok("side"@, p).len() + ser_string(pl.side).len() + msep("port"@, p, ind + 2).len() + crate::ser::ser_opt_u8(pl.port).len() + msep("tag"@, p, ind + 2).len() + ser_string(pl.tag).len() + msep("sponsor"@, p, ind + 2).len() + ser_opt_string(pl.sponsor).len() + msep("handle"@, p, ind + 2).len() + ser_opt_string(pl.handle).len() + msep("character"@, p, ind + 2).len() + ser_string(pl.character).len() + msep("characterColor"@, p, ind + 2).len() + ser_string(pl.character_color).len() + 1 + nl(p, ind + 2).len(), "score"@, pl.score, p, true, i + 1 + nl(p, ind + 2).len() + key_tok("side"@, p).len() + ser_string(pl.side).len() + msep("port"@, p, ind + 2).len() + crate::ser::ser_opt_u8(pl.port).len() + msep("tag"@, p, ind + 2).len() + ser_string(pl.tag).len() + msep("sponsor"@, p, ind + 2).len() + ser_opt_string(pl.sponsor).len() + msep("handle"@, p, ind + 2).len() + ser_opt_string(pl.handle).len() + msep("character"@, p, ind + 2).len() + ser_string(pl.character).len() + msep("characterColor"@, p, ind + 2).len() + ser_string(pl.character_color).len() + msep("score"@, p, ind + 2).len() + spec_udec(pl.score as nat).len() + 1 + nl(p, ind + 2).len());
    lemma_m_opt_str(t, i + 1 + nl(p, ind + 2).len() + key_tok("side"@, p).len() + ser_string(pl.side).len() + msep("port"@, p, ind + 2).len() + crate::ser::ser_opt_u8(pl.port).len() + msep("tag"@, p, ind + 2).len() + ser_string(pl.tag).len() + msep("sponsor"@, p, ind + 2).len() + ser_opt_string(pl.sponsor).len() + msep("handle"@, p, ind + 2).len() + ser_opt_string(pl.handle).len() + msep("character"@, p, ind + 2).len() + ser_string(pl.character).len() + msep("characterColor"@, p, ind + 2).len() + ser_string(pl.character_color).len() + msep("score"@, p, ind + 2).len() + spec_udec(pl.score as nat).len() + 1 + nl(p, ind + 2).len(), "countryCode"@, pl.country_code, p, false, i + 1 + nl(p, ind + 2).len() + key_tok("side"@, p).len() + ser_string(pl.side).len() + msep("port"@, p, ind + 2).len() + crate::ser::ser_opt_u8(pl.port).len() + msep("tag"@, p, ind + 2).len() + ser_string(pl.tag).len() + msep("sponsor"@, p, ind + 2).len() + ser_opt_string(pl.sponsor).len() + msep("handle"@, p, ind + 2).len() + ser_opt_string(pl.handle).len() + msep("character"@, p, ind + 2).len() + ser_string(pl.character).len() + msep("characterColor"@, p, ind + 2).len() + ser_string(pl.character_color).len() + msep("score"@, p, ind + 2).len() + spec_udec(pl.score as nat).len() + msep("countryCode"@, p, ind + 2).len() + ser_opt_string(pl.country_code).len() + nl(p, ind).len());
}

/// A written player object parses back to the same player.
#[verifier::spinoff_prover]
#[verifier::rlimit(100)]
proof fn lemma_rt_player(t: Seq<char>, i: int, pl: SpecPlayer, p: bool, ind: nat)
    requires
        at(t, i, crate::ser::ser_player(pl, p, ind)),
    ensures
        crate::parse::p_player(t, i) == Some((pl, i + crate::ser::ser_player(pl, p, ind).len())),
{
    lemma_rt_player_at(t, i, pl, p, ind);
    lemma_rt_player_front(t, i, pl, p, ind);
    lemma_rt_player_back(t, i, pl, p, ind);
    assert(crate::parse::p_player(t, i) == Some(
        (
            SpecPlayer {
                side: pl.side,
                port: pl.port,
                tag: pl.tag,
                sponsor: pl.sponsor,
                handle: pl.handle,
                character: pl.character,
                character_color: pl.character_color,
                score: pl.score,
                country_code: pl.country_code,
            },
            i + 1 + nl(p, ind + 2).len() + key_tok("side"@, p).len() + ser_string(pl.side).len() + msep("port"@, p, ind + 2).len() + crate::ser::ser_opt_u8(pl.port).len() + msep("tag"@, p, ind + 2).len() + ser_string(pl.tag).len() + msep("sponsor"@, p, ind + 2).len() + ser_opt_string(pl.sponsor).len() + msep("handle"@, p, ind + 2).len() + ser_opt_string(pl.handle).len() + msep("character"@, p, ind + 2).len() + ser_string(pl.character).len() + msep("characterColor"@, p, ind + 2).len() + ser_string(pl.character_color).len() + msep("score"@, p, ind + 2).len() + spec_udec(pl.score as nat).len() + msep("countryCode"@, p, ind + 2).len() + ser_opt_string(pl.country_code).len() + nl(p, ind).len() + 1,
        ),
    ));
    assert(SpecPlayer {
        side: pl.side,
        port: pl.port,
        tag: pl.tag,
        sponsor: pl.sponsor,
        handle: pl.handle,
        character: pl.character,
        character_color: pl.character_color,
        score: pl.score,
        country_code: pl.country_code,
    } =~= pl);
    assert(i + 1 + nl(p, ind + 2).len() + key_tok("side"@, p).len() + ser_string(pl.side).len() + msep("port"@, p, ind + 2).len() + crate::ser::ser_opt_u8(pl.port).len() + msep("tag"@, p, ind + 2).len() + ser_string(pl.tag).len() + msep("sponsor"@, p, ind + 2).len() + ser_opt_string(pl.sponsor).len() + msep("handle"@, p, ind + 2).len() + ser_opt_string(pl.handle).len() + msep("character"@, p, ind + 2).len() + ser_string(pl.character).len() + msep("characterColor"@, p, ind + 2).len() + ser_string(pl.character_color).len() + msep("score"@, p, ind + 2).len() + spec_udec(pl.score as nat).len() + msep("countryCode"@, p, ind + 2).len() + ser_opt_string(pl.country_code).len() + nl(p, ind).len() + 1 == i + crate::ser::ser_player(pl, p, ind).len());
}


/// Where each piece of a written commentary object stands.
#[verifier::spinoff_prover]
#[verifier::rlimit(100)]
proof fn lemma_rt_commentary_at(t: Seq<char>, i: int, c: SpecCommentary, p: bool, ind: nat)
    requires
        at(t, i, crate::ser::ser_commentary(c, p, ind)),
    ensures
        at(t, i, seq!['{']),
        at(t, i + 1, nl(p, ind + 2)),
        at(t, i + 1 + nl(p, ind + 2).len(), key_tok("name"@, p)),
        at(t, i + 1 + nl(p, ind + 2).len() + key_tok("name"@, p).len(), ser_string(c.name)),
        at(t, i + 1 + nl(p, ind + 2).len() + key_tok("name"@, p).len() + ser_string(c.name).len(), msep("handle"@, p, ind + 2)),
        at(t, i + 1 + nl(p, ind + 2).len() + key_tok("name"@, p).len() + ser_string(c.name).len() + msep("handle"@, p, ind + 2).len(), ser_opt_string(c.handle)),
        at(t, i + 1 + nl(p, ind + 2).len() + key_tok("name"@, p).len() + ser_string(c.name).len() + msep("handle"@, p, ind + 2).len() + ser_opt_string(c.handle).len(), msep("active"@, p, ind + 2)),
        at(t, i + 1 + nl(p, ind + 2).len() + key_tok("name"@, p).len() + ser_string(c.name).len() + msep("handle"@, p, ind + 2).len() + ser_opt_string(c.handle).len() + msep("active"@, p, ind + 2).len(), crate::ser::ser_opt_bool(c.active)),
        at(t, i + 1 + nl(p, ind + 2).len() + key_tok("name"@, p).len() + ser_string(c.name).len() + msep("handle"@, p, ind + 2).len() + ser_opt_string(c.handle).len() + msep("active"@, p, ind + 2).len() + crate::ser::ser_opt_bool(c.active).len(), nl(p, ind)),
        at(t, i + 1 + nl(p, ind + 2).len() + key_tok("name"@, p).len() + ser_string(c.name).len() + msep("handle"@, p, ind + 2).len() + ser_opt_string(c.handle).len() + msep("active"@, p, ind + 2).len() + crate::ser::ser_opt_bool(c.active).len() + nl(p, ind).len(), seq!['}']),
{
    let c1 = seq!['{'];
    let c2 = nl(p, ind + 2);
    let c3 = key_tok("name"@, p);
    let c4 = ser_string(c.name);
    let c5 = msep("handle"@, p, ind + 2);
    let c6 = ser_opt_string(c.handle);
    let c7 = msep("active"@, p, ind + 2);
    let c8 = crate::ser::ser_opt_bool(c.active);
    let c9 = nl(p, ind);
    let c10 = seq!['}'];
    let b2 = c1 + c2;
    let b3 = b2 + c3;
    let b4 = b3 + c4;
    let b5 = b4 + c5;
    let b6 = b5 + c6;
    let b7 = b6 + c7;
    let b8 = b7 + c8;
    let b9 = b8 + c9;
    let b10 = b9 + c10;
    assert(crate::ser::ser_commentary(c, p, ind) == b10);
    lemma_at_split(t, i, b9, c10);
    lemma_at_split(t, i, b8, c9);
    lemma_at_split(t, i, b7, c8);
    lemma_at_split(t, i, b6, c7);
    lemma_at_split(t, i, b5, c6);
    lemma_at_split(t, i, b4, c5);
    lemma_at_split(t, i, b3, c4);
    lemma_at_split(t, i, b2, c3);
    lemma_at_split(t, i, c1, c2);
}

/// Part of the member chain of a written commentary object.
#[verifier::spinoff_prover]
#[verifier::rlimit(100)]
proof fn lemma_rt_commentary_front(t: Seq<char>, i: int, c: SpecCommentary, p: bool, ind: nat)
    requires
        at(t, i, seq!['{']),
        at(t, i + 1, nl(p, ind + 2)),
        at(t, i + 1 + nl(p, ind + 2).len(), key_tok("name"@, p)),
        at(t, i + 1 + nl(p, ind + 2).len() + key_tok("name"@, p).len(), ser_string(c.name)),
        at(t, i + 1 + nl(p, ind + 2).len() + key_tok("name"@, p).len() + ser_string(c.name).len(), msep("handle"@, p, ind + 2)),
        at(t, i + 1 + nl(p, ind + 2).len() + key_tok("name"@, p).len() + ser_string(c.name).len() + msep("handle"@, p, ind + 2).len(), ser_opt_string(c.handle)),
        at(t, i + 1 + nl(p, ind + 2).len() + key_tok("name"@, p).len() + ser_string(c.name).len() + msep("handle"@, p, ind + 2).len() + ser_opt_string(c.handle).len(), msep("active"@, p, ind + 2)),
        at(t, i + 1 + nl(p, ind + 2).len() + key_tok("name"@, p).len() + ser_string(c.name).len() + msep("handle"@, p, ind + 2).len() + ser_opt_string(c.handle).len() + msep("active"@, p, ind + 2).len(), crate::ser::ser_opt_bool(c.active)),
        at(t, i + 1 + nl(p, ind + 2).len() + key_tok("name"@, p).len() + ser_string(c.name).len() + msep("handle"@, p, ind + 2).len() + ser_opt_string(c.handle).len() + msep("active"@, p, ind + 2).len() + crate::ser::ser_opt_bool(c.active).len(), nl(p, ind)),
        at(t, i + 1 + nl(p, ind + 2).len() + key_tok("name"@, p).len() + ser_string(c.name).len() + msep("handle"@, p, ind + 2).len() + ser_opt_string(c.handle).len() + msep("active"@, p, ind + 2).len() + crate::ser::ser_opt_bool(c.active).len() + nl(p, ind).len(), seq!['}']),
    ensures
        p_obj_open(t, i) == Some((true, i + 1 + nl(p, ind + 2).len())),
        crate::parse::p_str_member(t, true, i + 1 + nl(p, ind + 2).len(), "name"@) == Some((c.name, true, i + 1 + nl(p, ind + 2).len() + key_tok("name"@, p).len() + ser_string(c.name).len() + 1 + nl(p, ind + 2).len())),
        crate::parse::p_opt_str_member(t, true, i + 1 + nl(p, ind + 2).len() + key_tok("name"@, p).len() + ser_string(c.name).len() + 1 + nl(p, ind + 2).len(), "handle"@) == Some((c.handle, true, i + 1 + nl(p, ind + 2).len() + key_tok("name"@, p).len() + ser_string(c.name).len() + msep("handle"@, p, ind + 2).len() + ser_opt_string(c.handle).len() + 1 + nl(p, ind + 2).len())),
{
    lemma_v_str(t, i + 1 + nl(p, ind + 2).len() + key_tok("name"@, p).len(), c.name);
    lemma_v_opt_str(t, i + 1 + nl(p, ind + 2).len() + key_tok("name"@, p).len() + ser_string(c.name).len() + msep("handle"@, p, ind + 2).len(), c.handle);
    lemma_v_opt_bool(t, i + 1 + nl(p, ind + 2).len() + key_tok("name"@, p).len() + ser_string(c.name).len() + msep("handle"@, p, ind + 2).len() + ser_opt_string(c.handle).len() + msep("active"@, p, ind + 2).len(), c.active);
    assert(key_tok("name"@, p)[0] == '"');
    lemma_at_join(t, i, seq!['{'], nl(p, ind + 2));
    lemma_obj_open(t, i, p, ind + 2);
    lemma_member_sep(t, i + 1 + nl(p, ind + 2).len() + key_tok("name"@, p).len() + ser_string(c.name).len(), "handle"@, p, ind + 2);
    lemma_member_sep(t, i + 1 + nl(p, ind + 2).len() + key_tok("name"@, p).len() + ser_string(c.name).len() + msep("handle"@, p, ind + 2).len() + ser_opt_string(c.handle).len(), "active"@, p, ind + 2);
    lemma_m_str(t, i + 1 + nl(p, ind + 2).len(), "name"@, c.name, p, true, i + 1 + nl(p, ind + 2).len() + key_tok("name"@, p).len() + ser_string(c.name).len() + 1 + nl(p, ind + 2).len());
    lemma_m_opt_str(t, i + 1 + nl(p, ind + 2).len() + key_tok("name"@, p).len() + ser_string(c.name).len() + 1 + nl(p, ind + 2).len(), "handle"@, c.handle, p, true, i + 1 + nl(p, ind + 2).len() + key_tok("name"@, p).len() + ser_string(c.name).len() + msep("handle"@, p, ind + 2).len() + ser_opt_string(c.handle).len() + 1 + nl(p, ind + 2).len());
}

/// Part of the member chain of a written commentary object.
#[verifier::spinoff_prover]
#[verifier::rlimit(100)]
proof fn lemma_rt_commentary_back(t: Seq<char>, i: int, c: SpecCommentary, p: bool, ind: nat)
    requires
        at(t, i, seq!['{']),
        at(t, i + 1, nl(p, ind + 2)),
        at(t, i + 1 + nl(p, ind + 2).len(), key_tok("name"@, p)),
        at(t, i + 1 + nl(p, ind + 2).len() + key_tok("name"@, p).len(), ser_string(c.name)),
        at(t, i + 1 + nl(p, ind + 2).len() + key_tok("name"@, p).len() + ser_string(c.name).len(), msep("handle"@, p, ind + 2)),
        at(t, i + 1 + nl(p, ind + 2).len() + key_tok("name"@, p).len() + ser_string(c.name).len() + msep("handle"@, p, ind + 2).len(), ser_opt_string(c.handle)),
        at(t, i + 1 + nl(p, ind + 2).len() + key_tok("name"@, p).len() + ser_string(c.name).len() + msep("handle"@, p, ind + 2).len() + ser_opt_string(c.handle).len(), msep("active"@, p, ind + 2)),
        at(t, i + 1 + nl(p, ind + 2).len() + key_tok("name"@, p).len() + ser_string(c.name).len() + msep("handle"@, p, ind + 2).len() + ser_opt_string(c.handle).len() + msep("active"@, p, ind + 2).len(), crate::ser::ser_opt_bool(c.active)),
        at(t, i + 1 + nl(p, ind + 2).len() + key_tok("name"@, p).len() + ser_string(c.name).len() + msep("handle"@, p, ind + 2).len() + ser_opt_string(c.handle).len() + msep("active"@, p, ind + 2).len() + crate::ser::ser_opt_bool(c.active).len(), nl(p, ind)),
        at(t, i + 1 + nl(p, ind + 2).len() + key_tok("name"@, p).len() + ser_string(c.name).len() + msep("handle"@, p, ind + 2).len() + ser_opt_string(c.handle).len() + msep("active"@, p, ind + 2).len() + crate::ser::ser_opt_bool(c.active).len() + nl(p, ind).len(), seq!['}']),
    ensures
        crate::parse::p_opt_bool_member(t, true, i + 1 + nl(p, ind + 2).len() + key_tok("name"@, p).len() + ser_string(c.name).len() + msep("handle"@, p, ind + 2).len() + ser_opt_string(c.handle).len() + 1 + nl(p, ind + 2).len(), "active"@) == Some((c.active, false, i + 1 + nl(p, ind + 2).len() + key_tok("name"@, p).len() + ser_string(c.name).len() + msep("handle"@, p, ind + 2).len() + ser_opt_string(c.handle).len() + msep("active"@, p, ind + 2).len() + crate::ser::ser_opt_bool(c.active).len() + nl(p, ind).len())),
        crate::parse::p_obj_close(t, false, i + 1 + nl(p, ind + 2).len() + key_tok("name"@, p).len() + ser_string(c.name).len() + msep("handle"@, p, ind + 2).len() + ser_opt_string(c.handle).len() + msep("active"@, p, ind + 2).len() + crate::ser::ser_opt_bool(c.active).len() + nl(p, ind).len()) == Some(i + 1 + nl(p, ind + 2).len() + key_tok("name"@, p).len() + ser_string(c.name).len() + msep("handle"@, p, ind + 2).len() + ser_opt_string(c.handle).len() + msep("active"@, p, ind + 2).len() + crate::ser::ser_opt_bool(c.active).len() + nl(p, ind).len() + 1),
{
    lemma_v_opt_bool(t, i + 1 + nl(p, ind + 2).len() + key_tok("name"@, p).len() + ser_string(c.name).len() + msep("handle"@, p, ind + 2).len() + ser_opt_string(c.handle).len() + msep("active"@, p, ind + 2).len(), c.active);
    lemma_member_sep(t, i + 1 + nl(p, ind + 2).len() + key_tok("name"@, p).len() + ser_string(c.name).len() + msep("handle"@, p, ind + 2).len() + ser_opt_string(c.handle).len(), "active"@, p, ind + 2);
    lemma_at_join(t, i + 1 + nl(p, ind + 2).len() + key_tok("name"@, p).len() + ser_string(c.name).len() + msep("handle"@, p, ind + 2).len() + ser_opt_string(c.handle).len() + msep("active"@, p, ind + 2).len() + crate::ser::ser_opt_bool(c.active).len(), nl(p, ind), seq!['}']);
    lemma_member_close(t, i + 1 + nl(p, ind + 2).len() + key_tok("name"@, p).len() + ser_string(c.name).len() + msep("handle"@, p, ind + 2).len() + ser_opt_string(c.handle).len() + msep("active"@, p, ind + 2).len() + crate::ser::ser_opt_bool(c.active).len(), p, ind);
    lemma_m_opt_bool(t, i + 1 + nl(p, ind + 2).len() + key_tok("name"@, p).len() + ser_string(c.name).len() + msep("handle"@, p, ind + 2).len() + ser_opt_string(c.handle).len() + 1 + nl(p, ind + 2).len(), "active"@, c.active, p, false, i + 1 + nl(p, ind + 2).len() + key_tok("name"@, p).len() + ser_string(c.name).len() + msep("handle"@, p, ind + 2).len() + ser_opt_string(c.handle).len() + msep("active"@, p, ind + 2).len() + crate::ser::ser_opt_bool(c.active).len() + nl(p, ind).len());
}

/// A written commentary object parses back to the same value.
#[verifier::spinoff_prover]
#[verifier::rlimit(100)]
proof fn lemma_rt_commentary(t: Seq<char>, i: int, c: SpecCommentary, p: bool, ind: nat)
    requires
        at(t, i, crate::ser::ser_commentary(c, p, ind)),
    ensures
        crate::parse::p_commentary(t, i) == Some((c, i + crate::ser::ser_commentary(c, p, ind).len())),
{
    lemma_rt_commentary_at(t, i, c, p, ind);
    lemma_rt_commentary_front(t, i, c, p, ind);
    lemma_rt_commentary_back(t, i, c, p, ind);
    assert(crate::parse::p_commentary(t, i) == Some(
        (
            SpecCommentary {
                name: c.name,
                handle: c.handle,
                active: c.active,
            },
            i + 1 + nl(p, ind + 2).len() + key_tok("name"@, p).len() + ser_string(c.name).len() + msep("handle"@, p, ind + 2).len() + ser_opt_string(c.handle).len() + msep("active"@, p, ind + 2).len() + crate::ser::ser_opt_bool(c.active).len() + nl(p, ind).len() + 1,
        ),
    ));
    assert(SpecCommentary {
        name: c.name,
        handle: c.handle,
        active: c.active,
    } =~= c);
    assert(i + 1 + nl(p, ind + 2).len() + key_tok("name"@, p).len() + ser_string(c.name).len() + msep("handle"@, p, ind + 2).len() + ser_opt_string(c.handle).len() + msep("active"@, p, ind + 2).len() + crate::ser::ser_opt_bool(c.active).len() + nl(p, ind).len() + 1 == i + crate::ser::ser_commentary(c, p, ind).len());
}

/// Where each piece of a written meta object stands.
#[verifier::spinoff_prover]
#[verifier::rlimit(100)]
proof fn lemma_rt_meta_at(t: Seq<char>, i: int, m: SpecMeta, p: bool, ind: nat)
    requires
        at(t, i, crate::ser::ser_meta(m, p, ind)),
    ensures
        at(t, i, seq!['{']),
        at(t, i + 1, nl(p, ind + 2)),
        at(t, i + 1 + nl(p, ind + 2).len(), key_tok("tournament"@, p)),
        at(t, i + 1 + nl(p, ind + 2).len() + key_tok("tournament"@, p).len(), ser_opt_string(m.tournament)),
        at(t, i + 1 + nl(p, ind + 2).len() + key_tok("tournament"@, p).len() + ser_opt_string(m.tournament).len(), msep("round"@, p, ind + 2)),
        at(t, i + 1 + nl(p, ind + 2).len() + key_tok("tournament"@, p).len() + ser_opt_string(m.tournament).len() + msep("round"@, p, ind + 2).len(), ser_string(m.round)),
        at(t, i + 1 + nl(p, ind + 2).len() + key_tok("tournament"@, p).len() + ser_opt_string(m.tournament).len() + msep("round"@, p, ind + 2).len() + ser_string(m.round).len(), msep("bestOf"@, p, ind + 2)),
        at(t, i + 1 + nl(p, ind + 2).len() + key_tok("tournament"@, p).len() + ser_opt_string(m.tournament).len() + msep("round"@, p, ind + 2).len() + ser_string(m.round).len() + msep("bestOf"@, p, ind + 2).len(), spec_udec(m.best_of as nat)),
        at(t, i + 1 + nl(p, ind + 2).len() + key_tok("tournament"@, p).len() + ser_opt_string(m.tournament).len() + msep("round"@, p, ind + 2).len() + ser_string(m.round).len() + msep("bestOf"@, p, ind + 2).len() + spec_udec(m.best_of as nat).len(), msep("gameNumber"@, p, ind + 2)),
        at(t, i + 1 + nl(p, ind + 2).len() + key_tok("tournament"@, p).len() + ser_opt_string(m.tournament).len() + msep("round"@, p, ind + 2).len() + ser_string(m.round).len() + msep("bestOf"@, p, ind + 2).len() + spec_udec(m.best_of as nat).len() + msep("gameNumber"@, p, ind + 2).len(), crate::ser::ser_opt_u32(m.game_number)),
        at(t, i + 1 + nl(p, ind + 2).len() + key_tok("tournament"@, p).len() + ser_opt_string(m.tournament).len() + msep("round"@, p, ind + 2).len() + ser_string(m.round).len() + msep("bestOf"@, p, ind + 2).len() + spec_udec(m.best_of as nat).len() + msep("gameNumber"@, p, ind + 2).len() + crate::ser::ser_opt_u32(m.game_number).len(), msep("stage"@, p, ind + 2)),
        at(t, i + 1 + nl(p, ind + 2).len() + key_tok("tournament"@, p).len() + ser_opt_string(m.tournament).len() + msep("round"@, p, ind + 2).len() + ser_string(m.round).len() + msep("bestOf"@, p, ind + 2).len() + spec_udec(m.best_of as nat).len() + msep("gameNumber"@, p, ind + 2).len() + crate::ser::ser_opt_u32(m.game_number).len() + msep("stage"@, p, ind + 2).len(), ser_opt_string(m.stage)),
        at(t, i + 1 + nl(p, ind + 2).len() + key_tok("tournament"@, p).len() + ser_opt_string(m.tournament).len() + msep("round"@, p, ind + 2).len() + ser_string(m.round).len() + msep("bestOf"@, p, ind + 2).len() + spec_udec(m.best_of as nat).len() + msep("gameNumber"@, p, ind + 2).len() + crate::ser::ser_opt_u32(m.game_number).len() + msep("stage"@, p, ind + 2).len() + ser_opt_string(m.stage).len(), msep("notes"@, p, ind + 2)),
        at(t, i + 1 + nl(p, ind + 2).len() + key_tok("tournament"@, p).len() + ser_opt_string(m.tournament).len() + msep("round"@, p, ind + 2).len() + ser_string(m.round).len() + msep("bestOf"@, p, ind + 2).len() + spec_udec(m.best_of as nat).len() + msep("gameNumber"@, p, ind + 2).len() + crate::ser::ser_opt_u32(m.game_number).len() + msep("stage"@, p, ind + 2).len() + ser_opt_string(m.stage).len() + msep("notes"@, p, ind + 2).len(), ser_opt_string(m.notes)),
        at(t, i + 1 + nl(p, ind + 2).len() + key_tok("tournament"@, p).len() + ser_opt_string(m.tournament).len() + msep("round"@, p, ind + 2).len() + ser_string(m.round).len() + msep("bestOf"@, p, ind + 2).len() + spec_udec(m.best_of as nat).len() + msep("gameNumber"@, p, ind + 2).len() + crate::ser::ser_opt_u32(m.game_number).len() + msep("stage"@, p, ind + 2).len() + ser_opt_string(m.stage).len() + msep("notes"@, p, ind + 2).len() + ser_opt_string(m.notes).len(), nl(p, ind)),
        at(t, i + 1 + nl(p, ind + 2).len() + key_tok("tournament"@, p).len() + ser_opt_string(m.tournament).len() + msep("round"@, p, ind + 2).len() + ser_string(m.round).len() + msep("bestOf"@, p, ind + 2).len() + spec_udec(m.best_of as nat).len() + msep("gameNumber"@, p, ind + 2).len() + crate::ser::ser_opt_u32(m.game_number).len() + msep("stage"@, p, ind + 2).len() + ser_opt_string(m.stage).len() + msep("notes"@, p, ind + 2).len() + ser_opt_string(m.notes).len() + nl(p, ind).len(), seq!['}']),
{
    let c1 = seq!['{'];
    let c2 = nl(p, ind + 2);
    let c3 = key_tok("tournament"@, p);
    let c4 = ser_opt_string(m.tournament);
    let c5 = msep("round"@, p, ind + 2);
    let c6 = ser_string(m.round);
    let c7 = msep("bestOf"@, p, ind + 2);
    let c8 = spec_udec(m.best_of as nat);
    let c9 = msep("gameNumber"@, p, ind + 2);
    let c10 = crate::ser::ser_opt_u32(m.game_number);
    let c11 = msep("stage"@, p, ind + 2);
    let c12 = ser_opt_string(m.stage);
    let c13 = msep("notes"@, p, ind + 2);
    let c14 = ser_opt_string(m.notes);
    let c15 = nl(p, ind);
    let c16 = seq!['}'];
    let b2 = c1 + c2;
    let b3 = b2 + c3;
    let b4 = b3 + c4;
    let b5 = b4 + c5;
    let b6 = b5 + c6;
    let b7 = b6 + c7;
    let b8 = b7 + c8;
    let b9 = b8 + c9;
    let b10 = b9 + c10;
    let b11 = b10 + c11;
    let b12 = b11 + c12;
    let b13 = b12 + c13;
    let b14 = b13 + c14;
    let b15 = b14 + c15;
    let b16 = b15 + c16;
    assert(crate::ser::ser_meta(m, p, ind) == b16);
    lemma_at_split(t, i, b15, c16);
    lemma_at_split(t, i, b14, c15);
    lemma_at_split(t, i, b13, c14);
    lemma_at_split(t, i, b12, c13);
    lemma_at_split(t, i, b11, c12);
    lemma_at_split(t, i, b10, c11);
    lemma_at_split(t, i, b9, c10);
    lemma_at_split(t, i, b8, c9);
    lemma_at_split(t, i, b7, c8);
    lemma_at_split(t, i, b6, c7);
    lemma_at_split(t, i, b5, c6);
    lemma_at_split(t, i, b4, c5);
    lemma_at_split(t, i, b3, c4);
    lemma_at_split(t, i, b2, c3);
    lemma_at_split(t, i, c1, c2);
}

/// Part of the member chain of a written meta object.
#[verifier::spinoff_prover]
#[verifier::rlimit(100)]
proof fn lemma_rt_meta_front(t: Seq<char>, i: int, m: SpecMeta, p: bool, ind: nat)
    requires
        at(t, i, seq!['{']),
        at(t, i + 1, nl(p, ind + 2)),
        at(t, i + 1 + nl(p, ind + 2).len(), key_tok("tournament"@, p)),
        at(t, i + 1 + nl(p, ind + 2).len() + key_tok("tournament"@, p).len(), ser_opt_string(m.tournament)),
        at(t, i + 1 + nl(p, ind + 2).len() + key_tok("tournament"@, p).len() + ser_opt_string(m.tournament).len(), msep("round"@, p, ind + 2)),
        at(t, i + 1 + nl(p, ind + 2).len() + key_tok("tournament"@, p).len() + ser_opt_string(m.tournament).len() + msep("round"@, p, ind + 2).len(), ser_string(m.round)),
        at(t, i + 1 + nl(p, ind + 2).len() + key_tok("tournament"@, p).len() + ser_opt_string(m.tournament).len() + msep("round"@, p, ind + 2).len() + ser_string(m.round).len(), msep("bestOf"@, p, ind + 2)),
        at(t, i + 1 + nl(p, ind + 2).len() + key_tok("tournament"@, p).len() + ser_opt_string(m.tournament).len() + msep("round"@, p, ind + 2).len() + ser_string(m.round).len() + msep("bestOf"@, p, ind + 2).len(), spec_udec(m.best_of as nat)),
        at(t, i + 1 + nl(p, ind + 2).len() + key_tok("tournament"@, p).len() + ser_opt_string(m.tournament).len() + msep("round"@, p, ind + 2).len() + ser_string(m.round).len() + msep("bestOf"@, p, ind + 2).len() + spec_udec(m.best_of as nat).len(), msep("gameNumber"@, p, ind + 2)),
        at(t, i + 1 + nl(p, ind + 2).len() + key_tok("tournament"@, p).len() + ser_opt_string(m.tournament).len() + msep("round"@, p, ind + 2).len() + ser_string(m.round).len() + msep("bestOf"@, p, ind + 2).len() + spec_udec(m.best_of as nat).len() + msep("gameNumber"@, p, ind + 2).len(), crate::ser::ser_opt_u32(m.game_number)),
        at(t, i + 1 + nl(p, ind + 2).len() + key_tok("tournament"@, p).len() + ser_opt_string(m.tournament).len() + msep("round"@, p, ind + 2).len() + ser_string(m.round).len() + msep("bestOf"@, p, ind + 2).len() + spec_udec(m.best_of as nat).len() + msep("gameNumber"@, p, ind + 2).len() + crate::ser::ser_opt_u32(m.game_number).len(), msep("stage"@, p, ind + 2)),
        at(t, i + 1 + nl(p, ind + 2).len() + key_tok("tournament"@, p).len() + ser_opt_string(m.tournament).len() + msep("round"@, p, ind + 2).len() + ser_string(m.round).len() + msep("bestOf"@, p, ind + 2).len() + spec_udec(m.best_of as nat).len() + msep("gameNumber"@, p, ind + 2).len() + crate::ser::ser_opt_u32(m.game_number).len() + msep("stage"@, p, ind + 2).len(), ser_opt_string(m.stage)),
        at(t, i + 1 + nl(p, ind + 2).len() + key_tok("tournament"@, p).len() + ser_opt_string(m.tournament).len() + msep("round"@, p, ind + 2).len() + ser_string(m.round).len() + msep("bestOf"@, p, ind + 2).len() + spec_udec(m.best_of as nat).len() + msep("gameNumber"@, p, ind + 2).len() + crate::ser::ser_opt_u32(m.game_number).len() + msep("stage"@, p, ind + 2).len() + ser_opt_string(m.stage).len(), msep("notes"@, p, ind + 2)),
        at(t, i + 1 + nl(p, ind + 2).len() + key_tok("tournament"@, p).len() + ser_opt_string(m.tournament).len() + msep("round"@, p, ind + 2).len() + ser_string(m.round).len() + msep("bestOf"@, p, ind + 2).len() + spec_udec(m.best_of as nat).len() + msep("gameNumber"@, p, ind + 2).len() + crate::ser::ser_opt_u32(m.game_number).len() + msep("stage"@, p, ind + 2).len() + ser_opt_string(m.stage).len() + msep("notes"@, p, ind + 2).len(), ser_opt_string(m.notes)),
        at(t, i + 1 + nl(p, ind + 2).len() + key_tok("tournament"@, p).len() + ser_opt_string(m.tournament).len() + msep("round"@, p, ind + 2).len() + ser_string(m.round).len() + msep("bestOf"@, p, ind + 2).len() + spec_udec(m.best_of as nat).len() + msep("gameNumber"@, p, ind + 2).len() + crate::ser::ser_opt_u32(m.game_number).len() + msep("stage"@, p, ind + 2).len() + ser_opt_string(m.stage).len() + msep("notes"@, p, ind + 2).len() + ser_opt_string(m.notes).len(), nl(p, ind)),
        at(t, i + 1 + nl(p, ind + 2).len() + key_tok("tournament"@, p).len() + ser_opt_string(m.tournament).len() + msep("round"@, p, ind + 2).len() + ser_string(m.round).len() + msep("bestOf"@, p, ind + 2).len() + spec_udec(m.best_of as nat).len() + msep("gameNumber"@, p, ind + 2).len() + crate::ser::ser_opt_u32(m.game_number).len() + msep("stage"@, p, ind + 2).len() + ser_opt_string(m.stage).len() + msep("notes"@, p, ind + 2).len() + ser_opt_string(m.notes).len() + nl(p, ind).len(), seq!['}']),
    ensures
        p_obj_open(t, i) == Some((true, i + 1 + nl(p, ind + 2).len())),
        crate::parse::p_opt_str_member(t, true, i + 1 + nl(p, ind + 2).len(), "tournament"@) == Some((m.tournament, true, i + 1 + nl(p, ind + 2).len() + key_tok("tournament"@, p).len() + ser_opt_string(m.tournament).len() + 1 + nl(p, ind + 2).len())),
        crate::parse::p_str_member(t, true, i + 1 + nl(p, ind + 2).len() + key_tok("tournament"@, p).len() + ser_opt_string(m.tournament).len() + 1 + nl(p, ind + 2).len(), "round"@) == Some((m.round, true, i + 1 + nl(p, ind + 2).len() + key_tok("tournament"@, p).len() + ser_opt_string(m.tournament).len() + msep("round"@, p, ind + 2).len() + ser_string(m.round).len() + 1 + nl(p, ind + 2).len())),
        crate::parse::p_u8_member(t, true, i + 1 + nl(p, ind + 2).len() + key_tok("tournament"@, p).len() + ser_opt_string(m.tournament).len() + msep("round"@, p, ind + 2).len() + ser_string(m.round).len() + 1 + nl(p, ind + 2).len(), "bestOf"@) == Some((m.best_of, true, i + 1 + nl(p, ind + 2).len() + key_tok("tournament"@, p).len() + ser_opt_string(m.tournament).len() + msep("round"@, p, ind + 2).len() + ser_string(m.round).len() + msep("bestOf"@, p, ind + 2).len() + spec_udec(m.best_of as nat).len() + 1 + nl(p, ind + 2).len())),
{
    lemma_at_first(t, i + 1 + nl(p, ind + 2).len() + key_tok("tournament"@, p).len() + ser_opt_string(m.tournament).len() + msep("round"@, p, ind + 2).len() + ser_string(m.round).len() + msep("bestOf"@, p, ind + 2).len() + spec_udec(m.best_of as nat).len(), msep("gameNumber"@, p, ind + 2));
    assert(msep("gameNumber"@, p, ind + 2)[0] == ',');
    lemma_v_opt_str(t, i + 1 + nl(p, ind + 2).len() + key_tok("tournament"@, p).len(), m.tournament);
    lemma_v_str(t, i + 1 + nl(p, ind + 2).len() + key_tok("tournament"@, p).len() + ser_opt_string(m.tournament).len() + msep("round"@, p, ind + 2).len(), m.round);
    lemma_v_num(t, i + 1 + nl(p, ind + 2).len() + key_tok("tournament"@, p).len() + ser_opt_string(m.tournament).len() + msep("round"@, p, ind + 2).len() + ser_string(m.round).len() + msep("bestOf"@, p, ind + 2).len(), m.best_of as nat);
    lemma_at_first(t, i + 1 + nl(p, ind + 2).len() + key_tok("tournament"@, p).len() + ser_opt_string(m.tournament).len() + msep("round"@, p, ind + 2).len() + ser_string(m.round).len() + msep("bestOf"@, p, ind + 2).len() + spec_udec(m.best_of as nat).len() + msep("gameNumber"@, p, ind + 2).len() + crate::ser::ser_opt_u32(m.game_number).len(), msep("stage"@, p, ind + 2));
    assert(msep("stage"@, p, ind + 2)[0] == ',');
    lemma_v_opt_u32(t, i + 1 + nl(p, ind + 2).len() + key_tok("tournament"@, p).len() + ser_opt_string(m.tournament).len() + msep("round"@, p, ind + 2).len() + ser_string(m.round).len() + msep("bestOf"@, p, ind + 2).len() + spec_udec(m.best_of as nat).len() + msep("gameNumber"@, p, ind + 2).len(), m.game_number);
    assert(key_tok("tournament"@, p)[0] == '"');
    lemma_at_join(t, i, seq!['{'], nl(p, ind + 2));
    lemma_obj_open(t, i, p, ind + 2);
    lemma_member_sep(t, i + 1 + nl(p, ind + 2).len() + key_tok("tournament"@, p).len() + ser_opt_string(m.tournament).len(), "round"@, p, ind + 2);
    lemma_member_sep(t, i + 1 + nl(p, ind + 2).len() + key_tok("tournament"@, p).len() + ser_opt_string(m.tournament).len() + msep("round"@, p, ind + 2).len() + ser_string(m.round).len(), "bestOf"@, p, ind + 2);
    lemma_member_sep(t, i + 1 + nl(p, ind + 2).len() + key_tok("tournament"@, p).len() + ser_opt_string(m.tournament).len() + msep("round"@, p, ind + 2).len() + ser_string(m.round).len() + msep("bestOf"@, p, ind + 2).len() + spec_udec(m.best_of as nat).len(), "gameNumber"@, p, ind + 2);
    lemma_m_opt_str(t, i + 1 + nl(p, ind + 2).len(), "tournament"@, m.tournament, p, true, i + 1 + nl(p, ind + 2).len() + key_tok("tournament"@, p).len() + ser_opt_string(m.tournament).len() + 1 + nl(p, ind + 2).len());
    lemma_m_str(t, i + 1 + nl(p, ind + 2).len() + key_tok("tournament"@, p).len() + ser_opt_string(m.tournament).len() + 1 + nl(p, ind + 2).len(), "round"@, m.round, p, true, i + 1 + nl(p, ind + 2).len() + key_tok("tournament"@, p).len() + ser_opt_string(m.tournament).len() + msep("round"@, p, ind + 2).len() + ser_string(m.round).len() + 1 + nl(p, ind + 2).len());
    lemma_m_u8(t, i + 1 + nl(p, ind + 2).len() + key_tok("tournament"@, p).len() + ser_opt_string(m.tournament).len() + msep("round"@, p, ind + 2).len() + ser_string(m.round).len() + 1 + nl(p, ind + 2).len(), "bestOf"@, m.best_of, p, true, i + 1 + nl(p, ind + 2).len() + key_tok("tournament"@, p).len() + ser_opt_string(m.tournament).len() + msep("round"@, p, ind + 2).len() + ser_string(m.round).len() + msep("bestOf"@, p, ind + 2).len() + spec_udec(m.best_of as nat).len() + 1 + nl(p, ind + 2).len());
}

/// Part of the member chain of a written meta object.
#[verifier::spinoff_prover]
#[verifier::rlimit(100)]
proof fn lemma_rt_meta_back(t: Seq<char>, i: int, m: SpecMeta, p: bool, ind: nat)
    requires
        at(t, i, seq!['{']),
        at(t, i + 1, nl(p, ind + 2)),
        at(t, i + 1 + nl(p, ind + 2).len(), key_tok("tournament"@, p)),
        at(t, i + 1 + nl(p, ind + 2).len() + key_tok("tournament"@, p).len(), ser_opt_string(m.tournament)),
        at(t, i + 1 + nl(p, ind + 2).len() + key_tok("tournament"@, p).len() + ser_opt_string(m.tournament).len(), msep("round"@, p, ind + 2)),
        at(t, i + 1 + nl(p, ind + 2).len() + key_tok("tournament"@, p).len() + ser_opt_string(m.tournament).len() + msep("round"@, p, ind + 2).len(), ser_string(m.round)),
        at(t, i + 1 + nl(p, ind + 2).len() + key_tok("tournament"@, p).len() + ser_opt_string(m.tournament).len() + msep("round"@, p, ind + 2).len() + ser_string(m.round).len(), msep("bestOf"@, p, ind + 2)),
        at(t, i + 1 + nl(p, ind + 2).len() + key_tok("tournament"@, p).len() + ser_opt_string(m.tournament).len() + msep("round"@, p, ind + 2).len() + ser_string(m.round).len() + msep("bestOf"@, p, ind + 2).len(), spec_udec(m.best_of as nat)),
        at(t, i + 1 + nl(p, ind + 2).len() + key_tok("tournament"@, p).len() + ser_opt_string(m.tournament).len() + msep("round"@, p, ind + 2).len() + ser_string(m.round).len() + msep("bestOf"@, p, ind + 2).len() + spec_udec(m.best_of as nat).len(), msep("gameNumber"@, p, ind + 2)),
        at(t, i + 1 + nl(p, ind + 2).len() + key_tok("tournament"@, p).len() + ser_opt_string(m.tournament).len() + msep("round"@, p, ind + 2).len() + ser_string(m.round).len() + msep("bestOf"@, p, ind + 2).len() + spec_udec(m.best_of as nat).len() + msep("gameNumber"@, p, ind + 2).len(), crate::ser::ser_opt_u32(m.game_number)),
        at(t, i + 1 + nl(p, ind + 2).len() + key_tok("tournament"@, p).len() + ser_opt_string(m.tournament).len() + msep("round"@, p, ind + 2).len() + ser_string(m.round).len() + msep("bestOf"@, p, ind + 2).len() + spec_udec(m.best_of as nat).len() + msep("gameNumber"@, p, ind + 2).len() + crate::ser::ser_opt_u32(m.game_number).len(), msep("stage"@, p, ind + 2)),
        at(t, i + 1 + nl(p, ind + 2).len() + key_tok("tournament"@, p).len() + ser_opt_string(m.tournament).len() + msep("round"@, p, ind + 2).len() + ser_string(m.round).len() + msep("bestOf"@, p, ind + 2).len() + spec_udec(m.best_of as nat).len() + msep("gameNumber"@, p, ind + 2).len() + crate::ser::ser_opt_u32(m.game_number).len() + msep("stage"@, p, ind + 2).len(), ser_opt_string(m.stage)),
        at(t, i + 1 + nl(p, ind + 2).len() + key_tok("tournament"@, p).len() + ser_opt_string(m.tournament).len() + msep("round"@, p, ind + 2).len() + ser_string(m.round).len() + msep("bestOf"@, p, ind + 2).len() + spec_udec(m.best_of as nat).len() + msep("gameNumber"@, p, ind + 2).len() + crate::ser::ser_opt_u32(m.game_number).len() + msep("stage"@, p, ind + 2).len() + ser_opt_string(m.stage).len(), msep("notes"@, p, ind + 2)),
        at(t, i + 1 + nl(p, ind + 2).len() + key_tok("tournament"@, p).len() + ser_opt_string(m.tournament).len() + msep("round"@, p, ind + 2).len() + ser_string(m.round).len() + msep("bestOf"@, p, ind + 2).len() + spec_udec(m.best_of as nat).len() + msep("gameNumber"@, p, ind + 2).len() + crate::ser::ser_opt_u32(m.game_number).len() + msep("stage"@, p, ind + 2).len() + ser_opt_string(m.stage).len() + msep("notes"@, p, ind + 2).len(), ser_opt_string(m.notes)),
        at(t, i + 1 + nl(p, ind + 2).len() + key_tok("tournament"@, p).len() + ser_opt_string(m.tournament).len() + msep("round"@, p, ind + 2).len() + ser_string(m.round).len() + msep("bestOf"@, p, ind + 2).len() + spec_udec(m.best_of as nat).len() + msep("gameNumber"@, p, ind + 2).len() + crate::ser::ser_opt_u32(m.game_number).len() + msep("stage"@, p, ind + 2).len() + ser_opt_string(m.stage).len() + msep("notes"@, p, ind + 2).len() + ser_opt_string(m.notes).len(), nl(p, ind)),
        at(t, i + 1 + nl(p, ind + 2).len() + key_tok("tournament"@, p).len() + ser_opt_string(m.tournament).len() + msep("round"@, p, ind + 2).len() + ser_string(m.round).len() + msep("bestOf"@, p, ind + 2).len() + spec_udec(m.best_of as nat).len() + msep("gameNumber"@, p, ind + 2).len() + crate::ser::ser_opt_u32(m.game_number).len() + msep("stage"@, p, ind + 2).len() + ser_opt_string(m.stage).len() + msep("notes"@, p, ind + 2).len() + ser_opt_string(m.notes).len() + nl(p, ind).len(), seq!['}']),
    ensures
        crate::parse::p_opt_u32_member(t, true, i + 1 + nl(p, ind + 2).len() + key_tok("tournament"@, p).len() + ser_opt_string(m.tournament).len() + msep("round"@, p, ind + 2).len() + ser_string(m.round).len() + msep("bestOf"@, p, ind + 2).len() + spec_udec(m.best_of as nat).len() + 1 + nl(p, ind + 2).len(), "gameNumber"@) == Some((m.game_number, true, i + 1 + nl(p, ind + 2).len() + key_tok("tournament"@, p).len() + ser_opt_string(m.tournament).len() + msep("round"@, p, ind + 2).len() + ser_string(m.round).len() + msep("bestOf"@, p, ind + 2).len() + spec_udec(m.best_of as nat).len() + msep("gameNumber"@, p, ind + 2).len() + crate::ser::ser_opt_u32(m.game_number).len() + 1 + nl(p, ind + 2).len())),
        crate::parse::p_opt_str_member(t, true, i + 1 + nl(p, ind + 2).len() + key_tok("tournament"@, p).len() + ser_opt_string(m.tournament).len() + msep("round"@, p, ind + 2).len() + ser_string(m.round).len() + msep("bestOf"@, p, ind + 2).len() + spec_udec(m.best_of as nat).len() + msep("gameNumber"@, p, ind + 2).len() + crate::ser::ser_opt_u32(m.game_number).len() + 1 + nl(p, ind + 2).len(), "stage"@) == Some((m.stage, true, i + 1 + nl(p, ind + 2).len() + key_tok("tournament"@, p).len() + ser_opt_string(m.tournament).len() + msep("round"@, p, ind + 2).len() + ser_string(m.round).len() + msep("bestOf"@, p, ind + 2).len() + spec_udec(m.best_of as nat).len() + msep("gameNumber"@, p, ind + 2).len() + crate::ser::ser_opt_u32(m.game_number).len() + msep("stage"@, p, ind + 2).len() + ser_opt_string(m.stage).len() + 1 + nl(p, ind + 2).len())),
        crate::parse::p_opt_str_member(t, true, i + 1 + nl(p, ind + 2).len() + key_tok("tournament"@, p).len() + ser_opt_string(m.tournament).len() + msep("round"@, p, ind + 2).len() + ser_string(m.round).len() + msep("bestOf"@, p, ind + 2).len() + spec_udec(m.best_of as nat).len() + msep("gameNumber"@, p, ind + 2).len() + crate::ser::ser_opt_u32(m.game_number).len() + msep("stage"@, p, ind + 2).len() + ser_opt_string(m.stage).len() + 1 + nl(p, ind + 2).len(), "notes"@) == Some((m.notes, false, i + 1 + nl(p, ind + 2).len() + key_tok("tournament"@, p).len() + ser_opt_string(m.tournament).len() + msep("round"@, p, ind + 2).len() + ser_string(m.round).len() + msep("bestOf"@, p, ind + 2).len() + spec_udec(m.best_of as nat).len() + msep("gameNumber"@, p, ind + 2).len() + crate::ser::ser_opt_u32(m.game_number).len() + msep("stage"@, p, ind + 2).len() + ser_opt_string(m.stage).len() + msep("notes"@, p, ind + 2).len() + ser_opt_string(m.notes).len() + nl(p, ind).len())),
        crate::parse::p_obj_close(t, false, i + 1 + nl(p, ind + 2).len() + key_tok("tournament"@, p).len() + ser_opt_string(m.tournament).len() + msep("round"@, p, ind + 2).len() + ser_string(m.round).len() + msep("bestOf"@, p, ind + 2).len() + spec_udec(m.best_of as nat).len() + msep("gameNumber"@, p, ind + 2).len() + crate::ser::ser_opt_u32(m.game_number).len() + msep("stage"@, p, ind + 2).len() + ser_opt_string(m.stage).len() + msep("notes"@, p, ind + 2).len() + ser_opt_string(m.notes).len() + nl(p, ind).len()) == Some(i + 1 + nl(p, ind + 2).len() + key_tok("tournament"@, p).len() + ser_opt_string(m.tournament).len() + msep("round"@, p, ind + 2).len() + ser_string(m.round).len() + msep("bestOf"@, p, ind + 2).len() + spec_udec(m.best_of as nat).len() + msep("gameNumber"@, p, ind + 2).len() + crate::ser::ser_opt_u32(m.game_number).len() + msep("stage"@, p, ind + 2).len() + ser_opt_string(m.stage).len() + msep("notes"@, p, ind + 2).len() + ser_opt_string(m.notes).len() + nl(p, ind).len() + 1),
{
    lemma_at_first(t, i + 1 + nl(p, ind + 2).len() + key_tok("tournament"@, p).len() + ser_opt_string(m.tournament).len() + msep("round"@, p, ind + 2).len() + ser_string(m.round).len() + msep("bestOf"@, p, ind + 2).len() + spec_udec(m.best_of as nat).len() + msep("gameNumber"@, p, ind + 2).len() + crate::ser::ser_opt_u32(m.game_number).len(), msep("stage"@, p, ind + 2));
    assert(msep("stage"@, p, ind + 2)[0] == ',');
    lemma_v_opt_u32(t, i + 1 + nl(p, ind + 2).len() + key_tok("tournament"@, p).len() + ser_opt_string(m.tournament).len() + msep("round"@, p, ind + 2).len() + ser_string(m.round).len() + msep("bestOf"@, p, ind + 2).len() + spec_udec(m.best_of as nat).len() + msep("gameNumber"@, p, ind + 2).len(), m.game_number);
    lemma_v_opt_str(t, i + 1 + nl(p, ind + 2).len() + key_tok("tournament"@, p).len() + ser_opt_string(m.tournament).len() + msep("round"@, p, ind + 2).len() + ser_string(m.round).len() + msep("bestOf"@, p, ind + 2).len() + spec_udec(m.best_of as nat).len() + msep("gameNumber"@, p, ind + 2).len() + crate::ser::ser_opt_u32(m.game_number).len() + msep("stage"@, p, ind + 2).len(), m.stage);
    lemma_v_opt_str(t, i + 1 + nl(p, ind + 2).len() + key_tok("tournament"@, p).len() + ser_opt_string(m.tournament).len() + msep("round"@, p, ind + 2).len() + ser_string(m.round).len() + msep("bestOf"@, p, ind + 2).len() + spec_udec(m.best_of as nat).len() + msep("gameNumber"@, p, ind + 2).len() + crate::ser::ser_opt_u32(m.game_number).len() + msep("stage"@, p, ind + 2).len() + ser_opt_string(m.stage).len() + msep("notes"@, p, ind + 2).len(), m.notes);
    lemma_member_sep(t, i + 1 + nl(p, ind + 2).len() + key_tok("tournament"@, p).len() + ser_opt_string(m.tournament).len() + msep("round"@, p, ind + 2).len() + ser_string(m.round).len() + msep("bestOf"@, p, ind + 2).len() + spec_udec(m.best_of as nat).len(), "gameNumber"@, p, ind + 2);
    lemma_member_sep(t, i + 1 + nl(p, ind + 2).len() + key_tok("tournament"@, p).len() + ser_opt_string(m.tournament).len() + msep("round"@, p, ind + 2).len() + ser_string(m.round).len() + msep("bestOf"@, p, ind + 2).len() + spec_udec(m.best_of as nat).len() + msep("gameNumber"@, p, ind + 2).len() + crate::ser::ser_opt_u32(m.game_number).len(), "stage"@, p, ind + 2);
    lemma_member_sep(t, i + 1 + nl(p, ind + 2).len() + key_tok("tournament"@, p).len() + ser_opt_string(m.tournament).len() + msep("round"@, p, ind + 2).len() + ser_string(m.round).len() + msep("bestOf"@, p, ind + 2).len() + spec_udec(m.best_of as nat).len() + msep("gameNumber"@, p, ind + 2).len() + crate::ser::ser_opt_u32(m.game_number).len() + msep("stage"@, p, ind + 2).len() + ser_opt_string(m.stage).len(), "notes"@, p, ind + 2);
    lemma_at_join(t, i + 1 + nl(p, ind + 2).len() + key_tok("tournament"@, p).len() + ser_opt_string(m.tournament).len() + msep("round"@, p, ind + 2).len() + ser_string(m.round).len() + msep("bestOf"@, p, ind + 2).len() + spec_udec(m.best_of as nat).len() + msep("gameNumber"@, p, ind + 2).len() + crate::ser::ser_opt_u32(m.game_number).len() + msep("stage"@, p, ind + 2).len() + ser_opt_string(m.stage).len() + msep("notes"@, p, ind + 2).len() + ser_opt_string(m.notes).len(), nl(p, ind), seq!['}']);
    lemma_member_close(t, i + 1 + nl(p, ind + 2).len() + key_tok("tournament"@, p).len() + ser_opt_string(m.tournament).len() + msep("round"@, p, ind + 2).len() + ser_string(m.round).len() + msep("bestOf"@, p, ind + 2).len() + spec_udec(m.best_of as nat).len() + msep("gameNumber"@, p, ind + 2).len() + crate::ser::ser_opt_u32(m.game_number).len() + msep("stage"@, p, ind + 2).len() + ser_opt_string(m.stage).len() + msep("notes"@, p, ind + 2).len() + ser_opt_string(m.notes).len(), p, ind);
    lemma_m_opt_u32(t, i + 1 + nl(p, ind + 2).len() + key_tok("tournament"@, p).len() + ser_opt_string(m.tournament).len() + msep("round"@, p, ind + 2).len() + ser_string(m.round).len() + msep("bestOf"@, p, ind + 2).len() + spec_udec(m.best_of as nat).len() + 1 + nl(p, ind + 2).len(), "gameNumber"@, m.game_number, p, true, i + 1 + nl(p, ind + 2).len() + key_tok("tournament"@, p).len() + ser_opt_string(m.tournament).len() + msep("round"@, p, ind + 2).len() + ser_string(m.round).len() + msep("bestOf"@, p, ind + 2).len() + spec_udec(m.best_of as nat).len() + msep("gameNumber"@, p, ind + 2).len() + crate::ser::ser_opt_u32(m.game_number).len() + 1 + nl(p, ind + 2).len());
    lemma_m_opt_str(t, i + 1 + nl(p, ind + 2).len() + key_tok("tournament"@, p).len() + ser_opt_string(m.tournament).len() + msep("round"@, p, ind + 2).len() + ser_string(m.round).len() + msep("bestOf"@, p, ind + 2).len() + spec_udec(m.best_of as nat).len() + msep("gameNumber"@, p, ind + 2).len() + crate::ser::ser_opt_u32(m.game_number).len() + 1 + nl(p, ind + 2).len(), "stage"@, m.stage, p, true, i + 1 + nl(p, ind + 2).len() + key_tok("tournament"@, p).len() + ser_opt_string(m.tournament).len() + msep("round"@, p, ind + 2).len() + ser_string(m.round).len() + msep("bestOf"@, p, ind + 2).len() + spec_udec(m.best_of as nat).len() + msep("gameNumber"@, p, ind + 2).len() + crate::ser::ser_opt_u32(m.game_number).len() + msep("stage"@, p, ind + 2).len() + ser_opt_string(m.stage).len() + 1 + nl(p, ind + 2).len());
    lemma_m_opt_str(t, i + 1 + nl(p, ind + 2).len() + key_tok("tournament"@, p).len() + ser_opt_string(m.tournament).len() + msep("round"@, p, ind + 2).len() + ser_string(m.round).len() + msep("bestOf"@, p, ind + 2).len() + spec_udec(m.best_of as nat).len() + msep("gameNumber"@, p, ind + 2).len() + crate::ser::ser_opt_u32(m.game_number).len() + msep("stage"@, p, ind + 2).len() + ser_opt_string(m.stage).len() + 1 + nl(p, ind + 2).len(), "notes"@, m.notes, p, false, i + 1 + nl(p, ind + 2).len() + key_tok("tournament"@, p).len() + ser_opt_string(m.tournament).len() + msep("round"@, p, ind + 2).len() + ser_string(m.round).len() + msep("bestOf"@, p, ind + 2).len() + spec_udec(m.best_of as nat).len() + msep("gameNumber"@, p, ind + 2).len() + crate::ser::ser_opt_u32(m.game_number).len() + msep("stage"@, p, ind + 2).len() + ser_opt_string(m.stage).len() + msep("notes"@, p, ind + 2).len() + ser_opt_string(m.notes).len() + nl(p, ind).len());
}

/// A written meta object parses back to the same value.
#[verifier::spinoff_prover]
#[verifier::rlimit(100)]
proof fn lemma_rt_meta(t: Seq<char>, i: int, m: SpecMeta, p: bool, ind: nat)
    requires
        at(t, i, crate::ser::ser_meta(m, p, ind)),
    ensures
        crate::parse::p_meta(t, i) == Some((m, i + crate::ser::ser_meta(m, p, ind).len())),
{
    lemma_rt_meta_at(t, i, m, p, ind);
    lemma_rt_meta_front(t, i, m, p, ind);
    lemma_rt_meta_back(t, i, m, p, ind);
    assert(crate::parse::p_meta(t, i) == Some(
        (
            SpecMeta {
                tournament: m.tournament,
                round: m.round,
                best_of: m.best_of,
                game_number: m.game_number,
                stage: m.stage,
                notes: m.notes,
            },
            i + 1 + nl(p, ind + 2).len() + key_tok("tournament"@, p).len() + ser_opt_string(m.tournament).len() + msep("round"@, p, ind + 2).len() + ser_string(m.round).len() + msep("bestOf"@, p, ind + 2).len() + spec_udec(m.best_of as nat).len() + msep("gameNumber"@, p, ind + 2).len() + crate::ser::ser_opt_u32(m.game_number).len() + msep("stage"@, p, ind + 2).len() + ser_opt_string(m.stage).len() + msep("notes"@, p, ind + 2).len() + ser_opt_string(m.notes).len() + nl(p, ind).len() + 1,
        ),
    ));
    assert(SpecMeta {
        tournament: m.tournament,
        round: m.round,
        best_of: m.best_of,
        game_number: m.game_number,
        stage: m.stage,
        notes: m.notes,
    } =~= m);
    assert(i + 1 + nl(p, ind + 2).len() + key_tok("tournament"@, p).len() + ser_opt_string(m.tournament).len() + msep("round"@, p, ind + 2).len() + ser_string(m.round).len() + msep("bestOf"@, p, ind + 2).len() + spec_udec(m.best_of as nat).len() + msep("gameNumber"@, p, ind + 2).len() + crate::ser::ser_opt_u32(m.game_number).len() + msep("stage"@, p, ind + 2).len() + ser_opt_string(m.stage).len() + msep("notes"@, p, ind + 2).len() + ser_opt_string(m.notes).len() + nl(p, ind).len() + 1 == i + crate::ser::ser_meta(m, p, ind).len());
}

/// The first element of a written element list, read from the left.
#[verifier::spinoff_prover]
#[verifier::rlimit(100)]
proof fn lemma_comm_items_left(cs: Seq<SpecCommentary>, p: bool, d: nat)
    requires
        cs.len() > 1,
    ensures
        crate::ser::ser_comm_items(cs, p, d) == crate::ser::ser_commentary(cs[0], p, d)
            + seq![','] + nl(p, d) + crate::ser::ser_comm_items(cs.drop_first(), p, d),
    decreases cs.len(),
{
    if cs.len() == 2 {
        assert(cs.drop_last()[0] == cs[0]);
        assert(cs.drop_last().len() == 1);
        assert(cs.drop_first().len() == 1);
        assert(cs.drop_first()[0] == cs.last());
        assert(crate::ser::ser_comm_items(cs.drop_last(), p, d) == crate::ser::ser_commentary(
            cs[0],
            p,
            d,
        ));
        assert(crate::ser::ser_comm_items(cs.drop_first(), p, d) == crate::ser::ser_commentary(
            cs.last(),
            p,
            d,
        ));
        assert(crate::ser::ser_comm_items(cs, p, d) == crate::ser::ser_comm_items(
            cs.drop_last(),
            p,
            d,
        ) + seq![','] + nl(p, d) + crate::ser::ser_commentary(cs.last(), p, d));
    } else {
        let dl = cs.drop_last();
        lemma_comm_items_left(dl, p, d);
        assert(dl[0] == cs[0]);
        let a = crate::ser::ser_commentary(cs[0], p, d);
        let mid = seq![','] + nl(p, d);
        let idfdl = crate::ser::ser_comm_items(dl.drop_first(), p, d);
        // regroup: ((a + , + nl + items(dl.df)) + , + nl + comm(last))
        //       == a + , + nl + ((items(dl.df) + , + nl + comm(last)))
        assert(dl.drop_first() =~= cs.drop_first().drop_last());
        assert(cs.drop_first().last() == cs.last());
        assert(cs.drop_first().len() > 1);
        let tail = crate::ser::ser_comm_items(cs.drop_first(), p, d);
        assert(tail == idfdl + seq![','] + nl(p, d) + crate::ser::ser_commentary(cs.last(), p, d));
        let x1 = a + seq![','];
        let x2 = x1 + nl(p, d);
        lemma_concat_associative(x2, idfdl, seq![',']);
        lemma_concat_associative(x2, idfdl + seq![','], nl(p, d));
        lemma_concat_associative(
            x2,
            idfdl + seq![','] + nl(p, d),
            crate::ser::ser_commentary(cs.last(), p, d),
        );
        assert(crate::ser::ser_comm_items(dl, p, d) == x2 + idfdl);
        assert(crate::ser::ser_comm_items(cs, p, d) == ((x2 + idfdl) + seq![',']) + nl(p, d)
            + crate::ser::ser_commentary(cs.last(), p, d));
        assert(crate::ser::ser_comm_items(cs, p, d) == x2 + tail);
    }
}

/// The first character of any written element list is an opening brace.
proof fn lemma_comm_items_open(cs: Seq<SpecCommentary>, p: bool, d: nat)
    requires
        cs.len() > 0,
    ensures
        crate::ser::ser_comm_items(cs, p, d).len() > 0,
        crate::ser::ser_comm_items(cs, p, d)[0] == '{',
    decreases cs.len(),
{
    if cs.len() == 1 {
        assert(crate::ser::ser_commentary(cs[0], p, d)[0] == '{');
    } else {
        lemma_comm_items_open(cs.drop_last(), p, d);
    }
}

/// A written element list followed by the closing bracket parses back.
#[verifier::spinoff_prover]
#[verifier::rlimit(100)]
proof fn lemma_rt_comm_items(t: Seq<char>, i: int, cs: Seq<SpecCommentary>, p: bool, ind: nat)
    requires
        cs.len() > 0,
        at(
            t,
            i,
            crate::ser::ser_comm_items(cs, p, ind + 2) + nl(p, ind) + seq![']'],
        ),
    ensures
        crate::parse::p_comm_items(t, i) == Some(
            (cs, i + crate::ser::ser_comm_items(cs, p, ind + 2).len() + nl(p, ind).len() + 1),
        ),
    decreases cs.len(),
{
    let items = crate::ser::ser_comm_items(cs, p, ind + 2);
    lemma_at_split(t, i, items + nl(p, ind), seq![']']);
    lemma_at_split(t, i, items, nl(p, ind));
    lemma_at_char(t, i + items.len() + nl(p, ind).len(), ']');
    if cs.len() == 1 {
        assert(items == crate::ser::ser_commentary(cs[0], p, ind + 2));
        lemma_rt_commentary(t, i, cs[0], p, ind + 2);
        let j = i + items.len();
        lemma_nl_all_ws(p, ind);
        lemma_skip_ws_over(t, j, nl(p, ind));
        assert(seq![cs[0]] =~= cs);
    } else {
        lemma_comm_items_left(cs, p, ind + 2);
        let a = crate::ser::ser_commentary(cs[0], p, ind + 2);
        let idf = crate::ser::ser_comm_items(cs.drop_first(), p, ind + 2);
        assert(items == a + seq![','] + nl(p, ind + 2) + idf);
        lemma_at_split(t, i, a + seq![','] + nl(p, ind + 2), idf);
        lemma_at_split(t, i, a + seq![','], nl(p, ind + 2));
        lemma_at_split(t, i, a, seq![',']);
        lemma_rt_commentary(t, i, cs[0], p, ind + 2);
        let j = i + a.len();
        lemma_at_char(t, j, ',');
        lemma_skip_ws_none(t, j);
        let b = j + 1 + nl(p, ind + 2).len();
        lemma_comm_items_open(cs.drop_first(), p, ind + 2);
        lemma_at_first(t, b, idf);
        lemma_nl_all_ws(p, ind + 2);
        lemma_skip_ws_over(t, j + 1, nl(p, ind + 2));
        lemma_at_join(t, b, idf, nl(p, ind));
        lemma_at_join(t, b, idf + nl(p, ind), seq![']']);
        lemma_rt_comm_items(t, b, cs.drop_first(), p, ind);
        assert(seq![cs[0]] + cs.drop_first() =~= cs);
    }
}

/// A written commentary array parses back to the same elements.
#[verifier::spinoff_prover]
#[verifier::rlimit(100)]
proof fn lemma_rt_comm_array(t: Seq<char>, i: int, cs: Seq<SpecCommentary>, p: bool, ind: nat)
    requires
        at(t, i, crate::ser::ser_comm_array(cs, p, ind)),
    ensures
        crate::parse::p_comm_array(t, i) == Some(
            (cs, i + crate::ser::ser_comm_array(cs, p, ind).len()),
        ),
{
    if cs.len() == 0 {
        assert(crate::ser::ser_comm_array(cs, p, ind) =~= seq!['['] + seq![']']);
        lemma_at_split(t, i, seq!['['], seq![']']);
        lemma_at_char(t, i, '[');
        lemma_at_char(t, i + 1, ']');
        lemma_skip_ws_none(t, i + 1);
        assert(Seq::<SpecCommentary>::empty() =~= cs);
    } else {
        let items = crate::ser::ser_comm_items(cs, p, ind + 2);
        let whole = crate::ser::ser_comm_array(cs, p, ind);
        assert(whole == seq!['['] + nl(p, ind + 2) + items + nl(p, ind) + seq![']']);
        lemma_at_split(t, i, seq!['['] + nl(p, ind + 2) + items + nl(p, ind), seq![']']);
        lemma_at_split(t, i, seq!['['] + nl(p, ind + 2) + items, nl(p, ind));
        lemma_at_split(t, i, seq!['['] + nl(p, ind + 2), items);
        lemma_at_split(t, i, seq!['['], nl(p, ind + 2));
        lemma_at_char(t, i, '[');
        let b = i + 1 + nl(p, ind + 2).len();
        lemma_comm_items_open(cs, p, ind + 2);
        lemma_at_first(t, b, items);
        lemma_nl_all_ws(p, ind + 2);
        lemma_skip_ws_over(t, i + 1, nl(p, ind + 2));
        lemma_at_join(t, b, items, nl(p, ind));
        lemma_at_join(t, b, items + nl(p, ind), seq![']']);
        lemma_rt_comm_items(t, b, cs, p, ind);
    }
}

/// A written player object opens with its brace.
proof fn lemma_player_open(t: Seq<char>, v: int, pl: SpecPlayer, p: bool, ind: nat)
    requires
        at(t, v, crate::ser::ser_player(pl, p, ind)),
    ensures
        0 <= v < t.len(),
        t[v] == '{',
{
    assert(crate::ser::ser_player(pl, p, ind)[0] == '{');
    lemma_at_first(t, v, crate::ser::ser_player(pl, p, ind));
}

/// A written metadata object opens with its brace.
proof fn lemma_meta_open(t: Seq<char>, v: int, m: SpecMeta, p: bool, ind: nat)
    requires
        at(t, v, crate::ser::ser_meta(m, p, ind)),
    ensures
        0 <= v < t.len(),
        t[v] == '{',
{
    assert(crate::ser::ser_meta(m, p, ind)[0] == '{');
    lemma_at_first(t, v, crate::ser::ser_meta(m, p, ind));
}

/// A member holding a player object.
proof fn lemma_m_player(t: Seq<char>, k: int, key: Seq<char>, pl: SpecPlayer, p: bool, ind: nat, m2: bool, k2: int)
    requires
        at(t, k, key_tok(key, p)),
        at(t, k + key_tok(key, p).len(), crate::ser::ser_player(pl, p, ind)),
        p_member_end(t, k + key_tok(key, p).len() + crate::ser::ser_player(pl, p, ind).len())
            == Some((m2, k2)),
    ensures
        crate::parse::p_player_member(t, true, k, key) == Some((pl, m2, k2)),
{
    let v = k + key_tok(key, p).len();
    lemma_rt_player(t, v, pl, p, ind);
    lemma_player_open(t, v, pl, p, ind);
    lemma_rt_key_colon(t, k, key, p);
}

/// A member holding the metadata object.
proof fn lemma_m_meta(t: Seq<char>, k: int, key: Seq<char>, m: SpecMeta, p: bool, ind: nat, m2: bool, k2: int)
    requires
        at(t, k, key_tok(key, p)),
        at(t, k + key_tok(key, p).len(), crate::ser::ser_meta(m, p, ind)),
        p_member_end(t, k + key_tok(key, p).len() + crate::ser::ser_meta(m, p, ind).len())
            == Some((m2, k2)),
    ensures
        crate::parse::p_meta_member(t, true, k, key) == Some((m, m2, k2)),
{
    let v = k + key_tok(key, p).len();
    lemma_rt_meta(t, v, m, p, ind);
    lemma_meta_open(t, v, m, p, ind);
    lemma_rt_key_colon(t, k, key, p);
}

/// A written array opens with its bracket.
proof fn lemma_comm_array_open(t: Seq<char>, v: int, cs: Seq<SpecCommentary>, p: bool, ind: nat)
    requires
        at(t, v, crate::ser::ser_comm_array(cs, p, ind)),
    ensures
        0 <= v < t.len(),
        t[v] == '[',
{
    assert(crate::ser::ser_comm_array(cs, p, ind)[0] == '[');
    lemma_at_first(t, v, crate::ser::ser_comm_array(cs, p, ind));
}

/// A member holding the commentary array.
proof fn lemma_m_comm_array(t: Seq<char>, k: int, key: Seq<char>, cs: Seq<SpecCommentary>, p: bool, ind: nat, m2: bool, k2: int)
    requires
        at(t, k, key_tok(key, p)),
        at(t, k + key_tok(key, p).len(), crate::ser::ser_comm_array(cs, p, ind)),
        p_member_end(t, k + key_tok(key, p).len() + crate::ser::ser_comm_array(cs, p, ind).len())
            == Some((m2, k2)),
    ensures
        crate::parse::p_comm_member(t, true, k, key) == Some((cs, m2, k2)),
{
    let v = k + key_tok(key, p).len();
    lemma_rt_comm_array(t, v, cs, p, ind);
    lemma_comm_array_open(t, v, cs, p, ind);
    lemma_rt_key_colon(t, k, key, p);
}

/// Where each piece of a written setup object stands.
#[verifier::spinoff_prover]
#[verifier::rlimit(100)]
proof fn lemma_rt_overlay_at(t: Seq<char>, i: int, o: SpecOverlay, p: bool, ind: nat)
    requires
        at(t, i, crate::ser::ser_overlay(o, p, ind)),
    ensures
        at(t, i, seq!['{']),
        at(t, i + 1, nl(p, ind + 2)),
        at(t, i + 1 + nl(p, ind + 2).len(), key_tok("p1"@, p)),
        at(t, i + 1 + nl(p, ind + 2).len() + key_tok("p1"@, p).len(), crate::ser::ser_player(o.p1, p, ind + 2)),
        at(t, i + 1 + nl(p, ind + 2).len() + key_tok("p1"@, p).len() + crate::ser::ser_player(o.p1, p, ind + 2).len(), msep("p2"@, p, ind + 2)),
        at(t, i + 1 + nl(p, ind + 2).len() + key_tok("p1"@, p).len() + crate::ser::ser_player(o.p1, p, ind + 2).len() + msep("p2"@, p, ind + 2).len(), crate::ser::ser_player(o.p2, p, ind + 2)),
        at(t, i + 1 + nl(p, ind + 2).len() + key_tok("p1"@, p).len() + crate::ser::ser_player(o.p1, p, ind + 2).len() + msep("p2"@, p, ind + 2).len() + crate::ser::ser_player(o.p2, p, ind + 2).len(), msep("meta"@, p, ind + 2)),
        at(t, i + 1 + nl(p, ind + 2).len() + key_tok("p1"@, p).len() + crate::ser::ser_player(o.p1, p, ind + 2).len() + msep("p2"@, p, ind + 2).len() + crate::ser::ser_player(o.p2, p, ind + 2).len() + msep("meta"@, p, ind + 2).len(), crate::ser::ser_meta(o.meta, p, ind + 2)),
        at(t, i + 1 + nl(p, ind + 2).len() + key_tok("p1"@, p).len() + crate::ser::ser_player(o.p1, p, ind + 2).len() + msep("p2"@, p, ind + 2).len() + crate::ser::ser_player(o.p2, p, ind + 2).len() + msep("meta"@, p, ind + 2).len() + crate::ser::ser_meta(o.meta, p, ind + 2).len(), msep("commentators"@, p, ind + 2)),
        at(t, i + 1 + nl(p, ind + 2).len() + key_tok("p1"@, p).len() + crate::ser::ser_player(o.p1, p, ind + 2).len() + msep("p2"@, p, ind + 2).len() + crate::ser::ser_player(o.p2, p, ind + 2).len() + msep("meta"@, p, ind + 2).len() + crate::ser::ser_meta(o.meta, p, ind + 2).len() + msep("commentators"@, p, ind + 2).len(), crate::ser::ser_comm_array(o.commentators, p, ind + 2)),
        at(t, i + 1 + nl(p, ind + 2).len() + key_tok("p1"@, p).len() + crate::ser::ser_player(o.p1, p, ind + 2).len() + msep("p2"@, p, ind + 2).len() + crate::ser::ser_player(o.p2, p, ind + 2).len() + msep("meta"@, p, ind + 2).len() + crate::ser::ser_meta(o.meta, p, ind + 2).len() + msep("commentators"@, p, ind + 2).len() + crate::ser::ser_comm_array(o.commentators, p, ind + 2).len(), nl(p, ind)),
        at(t, i + 1 + nl(p, ind + 2).len() + key_tok("p1"@, p).len() + crate::ser::ser_player(o.p1, p, ind + 2).len() + msep("p2"@, p, ind + 2).len() + crate::ser::ser_player(o.p2, p, ind + 2).len() + msep("meta"@, p, ind + 2).len() + crate::ser::ser_meta(o.meta, p, ind + 2).len() + msep("commentators"@, p, ind + 2).len() + crate::ser::ser_comm_array(o.commentators, p, ind + 2).len() + nl(p, ind).len(), seq!['}']),
{
    reveal(crate::ser::ser_overlay);
    let c1 = seq!['{'];
    let c2 = nl(p, ind + 2);
    let c3 = key_tok("p1"@, p);
    let c4 = crate::ser::ser_player(o.p1, p, ind + 2);
    let c5 = msep("p2"@, p, ind + 2);
    let c6 = crate::ser::ser_player(o.p2, p, ind + 2);
    let c7 = msep("meta"@, p, ind + 2);
    let c8 = crate::ser::ser_meta(o.meta, p, ind + 2);
    let c9 = msep("commentators"@, p, ind + 2);
    let c10 = crate::ser::ser_comm_array(o.commentators, p, ind + 2);
    let c11 = nl(p, ind);
    let c12 = seq!['}'];
    let b2 = c1 + c2;
    let b3 = b2 + c3;
    let b4 = b3 + c4;
    let b5 = b4 + c5;
    let b6 = b5 + c6;
    let b7 = b6 + c7;
    let b8 = b7 + c8;
    let b9 = b8 + c9;
    let b10 = b9 + c10;
    let b11 = b10 + c11;
    let b12 = b11 + c12;
    assert(crate::ser::ser_overlay(o, p, ind) == b12);
    lemma_at_split(t, i, b11, c12);
    lemma_at_split(t, i, b10, c11);
    lemma_at_split(t, i, b9, c10);
    lemma_at_split(t, i, b8, c9);
    lemma_at_split(t, i, b7, c8);
    lemma_at_split(t, i, b6, c7);
    lemma_at_split(t, i, b5, c6);
    lemma_at_split(t, i, b4, c5);
    lemma_at_split(t, i, b3, c4);
    lemma_at_split(t, i, b2, c3);
    lemma_at_split(t, i, c1, c2);
}

/// The first members of a written setup object.
#[verifier::spinoff_prover]
#[verifier::rlimit(100)]
proof fn lemma_rt_overlay_front(t: Seq<char>, i: int, o: SpecOverlay, p: bool, ind: nat)
    requires
        at(t, i, seq!['{']),
        at(t, i + 1, nl(p, ind + 2)),
        at(t, i + 1 + nl(p, ind + 2).len(), key_tok("p1"@, p)),
        at(t, i + 1 + nl(p, ind + 2).len() + key_tok("p1"@, p).len(), crate::ser::ser_player(o.p1, p, ind + 2)),
        at(t, i + 1 + nl(p, ind + 2).len() + key_tok("p1"@, p).len() + crate::ser::ser_player(o.p1, p, ind + 2).len(), msep("p2"@, p, ind + 2)),
        at(t, i + 1 + nl(p, ind + 2).len() + key_tok("p1"@, p).len() + crate::ser::ser_player(o.p1, p, ind + 2).len() + msep("p2"@, p, ind + 2).len(), crate::ser::ser_player(o.p2, p, ind + 2)),
        at(t, i + 1 + nl(p, ind + 2).len() + key_tok("p1"@, p).len() + crate::ser::ser_player(o.p1, p, ind + 2).len() + msep("p2"@, p, ind + 2).len() + crate::ser::ser_player(o.p2, p, ind + 2).len(), msep("meta"@, p, ind + 2)),
        at(t, i + 1 + nl(p, ind + 2).len() + key_tok("p1"@, p).len() + crate::ser::ser_player(o.p1, p, ind + 2).len() + msep("p2"@, p, ind + 2).len() + crate::ser::ser_player(o.p2, p, ind + 2).len() + msep("meta"@, p, ind + 2).len(), crate::ser::ser_meta(o.meta, p, ind + 2)),
        at(t, i + 1 + nl(p, ind + 2).len() + key_tok("p1"@, p).len() + crate::ser::ser_player(o.p1, p, ind + 2).len() + msep("p2"@, p, ind + 2).len() + crate::ser::ser_player(o.p2, p, ind + 2).len() + msep("meta"@, p, ind + 2).len() + crate::ser::ser_meta(o.meta, p, ind + 2).len(), msep("commentators"@, p, ind + 2)),
        at(t, i + 1 + nl(p, ind + 2).len() + key_tok("p1"@, p).len() + crate::ser::ser_player(o.p1, p, ind + 2).len() + msep("p2"@, p, ind + 2).len() + crate::ser::ser_player(o.p2, p, ind + 2).len() + msep("meta"@, p, ind + 2).len() + crate::ser::ser_meta(o.meta, p, ind + 2).len() + msep("commentators"@, p, ind + 2).len(), crate::ser::ser_comm_array(o.commentators, p, ind + 2)),
        at(t, i + 1 + nl(p, ind + 2).len() + key_tok("p1"@, p).len() + crate::ser::ser_player(o.p1, p, ind + 2).len() + msep("p2"@, p, ind + 2).len() + crate::ser::ser_player(o.p2, p, ind + 2).len() + msep("meta"@, p, ind + 2).len() + crate::ser::ser_meta(o.meta, p, ind + 2).len() + msep("commentators"@, p, ind + 2).len() + crate::ser::ser_comm_array(o.commentators, p, ind + 2).len(), nl(p, ind)),
        at(t, i + 1 + nl(p, ind + 2).len() + key_tok("p1"@, p).len() + crate::ser::ser_player(o.p1, p, ind + 2).len() + msep("p2"@, p, ind + 2).len() + crate::ser::ser_player(o.p2, p, ind + 2).len() + msep("meta"@, p, ind + 2).len() + crate::ser::ser_meta(o.meta, p, ind + 2).len() + msep("commentators"@, p, ind + 2).len() + crate::ser::ser_comm_array(o.commentators, p, ind + 2).len() + nl(p, ind).len(), seq!['}']),
    ensures
        p_obj_open(t, i) == Some((true, i + 1 + nl(p, ind + 2).len())),
        crate::parse::p_player_member(t, true, i + 1 + nl(p, ind + 2).len(), "p1"@) == Some((o.p1, true, i + 1 + nl(p, ind + 2).len() + key_tok("p1"@, p).len() + crate::ser::ser_player(o.p1, p, ind + 2).len() + 1 + nl(p, ind + 2).len())),
        crate::parse::p_player_member(t, true, i + 1 + nl(p, ind + 2).len() + key_tok("p1"@, p).len() + crate::ser::ser_player(o.p1, p, ind + 2).len() + 1 + nl(p, ind + 2).len(), "p2"@) == Some((o.p2, true, i + 1 + nl(p, ind + 2).len() + key_tok("p1"@, p).len() + crate::ser::ser_player(o.p1, p, ind + 2).len() + msep("p2"@, p, ind + 2).len() + crate::ser::ser_player(o.p2, p, ind + 2).len() + 1 + nl(p, ind + 2).len())),
{
    lemma_player_open(t, i + 1 + nl(p, ind + 2).len() + key_tok("p1"@, p).len(), o.p1, p, ind + 2);
    lemma_player_open(t, i + 1 + nl(p, ind + 2).len() + key_tok("p1"@, p).len() + crate::ser::ser_player(o.p1, p, ind + 2).len() + msep("p2"@, p, ind + 2).len(), o.p2, p, ind + 2);
    lemma_meta_open(t, i + 1 + nl(p, ind + 2).len() + key_tok("p1"@, p).len() + crate::ser::ser_player(o.p1, p, ind + 2).len() + msep("p2"@, p, ind + 2).len() + crate::ser::ser_player(o.p2, p, ind + 2).len() + msep("meta"@, p, ind + 2).len(), o.meta, p, ind + 2);
    assert(key_tok("p1"@, p)[0] == '"');
    lemma_at_join(t, i, seq!['{'], nl(p, ind + 2));
    lemma_obj_open(t, i, p, ind + 2);
    lemma_member_sep(t, i + 1 + nl(p, ind + 2).len() + key_tok("p1"@, p).len() + crate::ser::ser_player(o.p1, p, ind + 2).len(), "p2"@, p, ind + 2);
    lemma_member_sep(t, i + 1 + nl(p, ind + 2).len() + key_tok("p1"@, p).len() + crate::ser::ser_player(o.p1, p, ind + 2).len() + msep("p2"@, p, ind + 2).len() + crate::ser::ser_player(o.p2, p, ind + 2).len(), "meta"@, p, ind + 2);
    lemma_m_player(t, i + 1 + nl(p, ind + 2).len(), "p1"@, o.p1, p, ind + 2, true, i + 1 + nl(p, ind + 2).len() + key_tok("p1"@, p).len() + crate::ser::ser_player(o.p1, p, ind + 2).len() + 1 + nl(p, ind + 2).len());
    lemma_m_player(t, i + 1 + nl(p, ind + 2).len() + key_tok("p1"@, p).len() + crate::ser::ser_player(o.p1, p, ind + 2).len() + 1 + nl(p, ind + 2).len(), "p2"@, o.p2, p, ind + 2, true, i + 1 + nl(p, ind + 2).len() + key_tok("p1"@, p).len() + crate::ser::ser_player(o.p1, p, ind + 2).len() + msep("p2"@, p, ind + 2).len() + crate::ser::ser_player(o.p2, p, ind + 2).len() + 1 + nl(p, ind + 2).len());
}

/// The last members of a written setup object.
#[verifier::spinoff_prover]
#[verifier::rlimit(100)]
proof fn lemma_rt_overlay_back(t: Seq<char>, i: int, o: SpecOverlay, p: bool, ind: nat)
    requires
        at(t, i, seq!['{']),
        at(t, i + 1, nl(p, ind + 2)),
        at(t, i + 1 + nl(p, ind + 2).len(), key_tok("p1"@, p)),
        at(t, i + 1 + nl(p, ind + 2).len() + key_tok("p1"@, p).len(), crate::ser::ser_player(o.p1, p, ind + 2)),
        at(t, i + 1 + nl(p, ind + 2).len() + key_tok("p1"@, p).len() + crate::ser::ser_player(o.p1, p, ind + 2).len(), msep("p2"@, p, ind + 2)),
        at(t, i + 1 + nl(p, ind + 2).len() + key_tok("p1"@, p).len() + crate::ser::ser_player(o.p1, p, ind + 2).len() + msep("p2"@, p, ind + 2).len(), crate::ser::ser_player(o.p2, p, ind + 2)),
        at(t, i + 1 + nl(p, ind + 2).len() + key_tok("p1"@, p).len() + crate::ser::ser_player(o.p1, p, ind + 2).len() + msep("p2"@, p, ind + 2).len() + crate::ser::ser_player(o.p2, p, ind + 2).len(), msep("meta"@, p, ind + 2)),
        at(t, i + 1 + nl(p, ind + 2).len() + key_tok("p1"@, p).len() + crate::ser::ser_player(o.p1, p, ind + 2).len() + msep("p2"@, p, ind + 2).len() + crate::ser::ser_player(o.p2, p, ind + 2).len() + msep("meta"@, p, ind + 2).len(), crate::ser::ser_meta(o.meta, p, ind + 2)),
        at(t, i + 1 + nl(p, ind + 2).len() + key_tok("p1"@, p).len() + crate::ser::ser_player(o.p1, p, ind + 2).len() + msep("p2"@, p, ind + 2).len() + crate::ser::ser_player(o.p2, p, ind + 2).len() + msep("meta"@, p, ind + 2).len() + crate::ser::ser_meta(o.meta, p, ind + 2).len(), msep("commentators"@, p, ind + 2)),
        at(t, i + 1 + nl(p, ind + 2).len() + key_tok("p1"@, p).len() + crate::ser::ser_player(o.p1, p, ind + 2).len() + msep("p2"@, p, ind + 2).len() + crate::ser::ser_player(o.p2, p, ind + 2).len() + msep("meta"@, p, ind + 2).len() + crate::ser::ser_meta(o.meta, p, ind + 2).len() + msep("commentators"@, p, ind + 2).len(), crate::ser::ser_comm_array(o.commentators, p, ind + 2)),
        at(t, i + 1 + nl(p, ind + 2).len() + key_tok("p1"@, p).len() + crate::ser::ser_player(o.p1, p, ind + 2).len() + msep("p2"@, p, ind + 2).len() + crate::ser::ser_player(o.p2, p, ind + 2).len() + msep("meta"@, p, ind + 2).len() + crate::ser::ser_meta(o.meta, p, ind + 2).len() + msep("commentators"@, p, ind + 2).len() + crate::ser::ser_comm_array(o.commentators, p, ind + 2).len(), nl(p, ind)),
        at(t, i + 1 + nl(p, ind + 2).len() + key_tok("p1"@, p).len() + crate::ser::ser_player(o.p1, p, ind + 2).len() + msep("p2"@, p, ind + 2).len() + crate::ser::ser_player(o.p2, p, ind + 2).len() + msep("meta"@, p, ind + 2).len() + crate::ser::ser_meta(o.meta, p, ind + 2).len() + msep("commentators"@, p, ind + 2).len() + crate::ser::ser_comm_array(o.commentators, p, ind + 2).len() + nl(p, ind).len(), seq!['}']),
    ensures
        crate::parse::p_meta_member(t, true, i + 1 + nl(p, ind + 2).len() + key_tok("p1"@, p).len() + crate::ser::ser_player(o.p1, p, ind + 2).len() + msep("p2"@, p, ind + 2).len() + crate::ser::ser_player(o.p2, p, ind + 2).len() + 1 + nl(p, ind + 2).len(), "meta"@) == Some((o.meta, true, i + 1 + nl(p, ind + 2).len() + key_tok("p1"@, p).len() + crate::ser::ser_player(o.p1, p, ind + 2).len() + msep("p2"@, p, ind + 2).len() + crate::ser::ser_player(o.p2, p, ind + 2).len() + msep("meta"@, p, ind + 2).len() + crate::ser::ser_meta(o.meta, p, ind + 2).len() + 1 + nl(p, ind + 2).len())),
        crate::parse::p_comm_member(t, true, i + 1 + nl(p, ind + 2).len() + key_tok("p1"@, p).len() + crate::ser::ser_player(o.p1, p, ind + 2).len() + msep("p2"@, p, ind + 2).len() + crate::ser::ser_player(o.p2, p, ind + 2).len() + msep("meta"@, p, ind + 2).len() + crate::ser::ser_meta(o.meta, p, ind + 2).len() + 1 + nl(p, ind + 2).len(), "commentators"@) == Some((o.commentators, false, i + 1 + nl(p, ind + 2).len() + key_tok("p1"@, p).len() + crate::ser::ser_player(o.p1, p, ind + 2).len() + msep("p2"@, p, ind + 2).len() + crate::ser::ser_player(o.p2, p, ind + 2).len() + msep("meta"@, p, ind + 2).len() + crate::ser::ser_meta(o.meta, p, ind + 2).len() + msep("commentators"@, p, ind + 2).len() + crate::ser::ser_comm_array(o.commentators, p, ind + 2).len() + nl(p, ind).len())),
        crate::parse::p_obj_close(t, false, i + 1 + nl(p, ind + 2).len() + key_tok("p1"@, p).len() + crate::ser::ser_player(o.p1, p, ind + 2).len() + msep("p2"@, p, ind + 2).len() + crate::ser::ser_player(o.p2, p, ind + 2).len() + msep("meta"@, p, ind + 2).len() + crate::ser::ser_meta(o.meta, p, ind + 2).len() + msep("commentators"@, p, ind + 2).len() + crate::ser::ser_comm_array(o.commentators, p, ind + 2).len() + nl(p, ind).len()) == Some(i + 1 + nl(p, ind + 2).len() + key_tok("p1"@, p).len() + crate::ser::ser_player(o.p1, p, ind + 2).len() + msep("p2"@, p, ind + 2).len() + crate::ser::ser_player(o.p2, p, ind + 2).len() + msep("meta"@, p, ind + 2).len() + crate::ser::ser_meta(o.meta, p, ind + 2).len() + msep("commentators"@, p, ind + 2).len() + crate::ser::ser_comm_array(o.commentators, p, ind + 2).len() + nl(p, ind).len() + 1),
{
    lemma_meta_open(t, i + 1 + nl(p, ind + 2).len() + key_tok("p1"@, p).len() + crate::ser::ser_player(o.p1, p, ind + 2).len() + msep("p2"@, p, ind + 2).len() + crate::ser::ser_player(o.p2, p, ind + 2).len() + msep("meta"@, p, ind + 2).len(), o.meta, p, ind + 2);
    lemma_comm_array_open(t, i + 1 + nl(p, ind + 2).len() + key_tok("p1"@, p).len() + crate::ser::ser_player(o.p1, p, ind + 2).len() + msep("p2"@, p, ind + 2).len() + crate::ser::ser_player(o.p2, p, ind + 2).len() + msep("meta"@, p, ind + 2).len() + crate::ser::ser_meta(o.meta, p, ind + 2).len() + msep("commentators"@, p, ind + 2).len(), o.commentators, p, ind + 2);
    lemma_member_sep(t, i + 1 + nl(p, ind + 2).len() + key_tok("p1"@, p).len() + crate::ser::ser_player(o.p1, p, ind + 2).len() + msep("p2"@, p, ind + 2).len() + crate::ser::ser_player(o.p2, p, ind + 2).len(), "meta"@, p, ind + 2);
    lemma_member_sep(t, i + 1 + nl(p, ind + 2).len() + key_tok("p1"@, p).len() + crate::ser::ser_player(o.p1, p, ind + 2).len() + msep("p2"@, p, ind + 2).len() + crate::ser::ser_player(o.p2, p, ind + 2).len() + msep("meta"@, p, ind + 2).len() + crate::ser::ser_meta(o.meta, p, ind + 2).len(), "commentators"@, p, ind + 2);
    lemma_at_join(t, i + 1 + nl(p, ind + 2).len() + key_tok("p1"@, p).len() + crate::ser::ser_player(o.p1, p, ind + 2).len() + msep("p2"@, p, ind + 2).len() + crate::ser::ser_player(o.p2, p, ind + 2).len() + msep("meta"@, p, ind + 2).len() + crate::ser::ser_meta(o.meta, p, ind + 2).len() + msep("commentators"@, p, ind + 2).len() + crate::ser::ser_comm_array(o.commentators, p, ind + 2).len(), nl(p, ind), seq!['}']);
    lemma_member_close(t, i + 1 + nl(p, ind + 2).len() + key_tok("p1"@, p).len() + crate::ser::ser_player(o.p1, p, ind + 2).len() + msep("p2"@, p, ind + 2).len() + crate::ser::ser_player(o.p2, p, ind + 2).len() + msep("meta"@, p, ind + 2).len() + crate::ser::ser_meta(o.meta, p, ind + 2).len() + msep("commentators"@, p, ind + 2).len() + crate::ser::ser_comm_array(o.commentators, p, ind + 2).len(), p, ind);
    lemma_m_meta(t, i + 1 + nl(p, ind + 2).len() + key_tok("p1"@, p).len() + crate::ser::ser_player(o.p1, p, ind + 2).len() + msep("p2"@, p, ind + 2).len() + crate::ser::ser_player(o.p2, p, ind + 2).len() + 1 + nl(p, ind + 2).len(), "meta"@, o.meta, p, ind + 2, true, i + 1 + nl(p, ind + 2).len() + key_tok("p1"@, p).len() + crate::ser::ser_player(o.p1, p, ind + 2).len() + msep("p2"@, p, ind + 2).len() + crate::ser::ser_player(o.p2, p, ind + 2).len() + msep("meta"@, p, ind + 2).len() + crate::ser::ser_meta(o.meta, p, ind + 2).len() + 1 + nl(p, ind + 2).len());
    lemma_m_comm_array(t, i + 1 + nl(p, ind + 2).len() + key_tok("p1"@, p).len() + crate::ser::ser_player(o.p1, p, ind + 2).len() + msep("p2"@, p, ind + 2).len() + crate::ser::ser_player(o.p2, p, ind + 2).len() + msep("meta"@, p, ind + 2).len() + crate::ser::ser_meta(o.meta, p, ind + 2).len() + 1 + nl(p, ind + 2).len(), "commentators"@, o.commentators, p, ind + 2, false, i + 1 + nl(p, ind + 2).len() + key_tok("p1"@, p).len() + crate::ser::ser_player(o.p1, p, ind + 2).len() + msep("p2"@, p, ind + 2).len() + crate::ser::ser_player(o.p2, p, ind + 2).len() + msep("meta"@, p, ind + 2).len() + crate::ser::ser_meta(o.meta, p, ind + 2).len() + msep("commentators"@, p, ind + 2).len() + crate::ser::ser_comm_array(o.commentators, p, ind + 2).len() + nl(p, ind).len());
}

/// The length of a written setup object, with its definition unfolded once.
proof fn proof_overlay_len(o: SpecOverlay, p: bool, ind: nat)
    ensures
        crate::ser::ser_overlay(o, p, ind).len() == (seq!['{'] + nl(p, ind + 2) + key_tok("p1"@, p)
            + crate::ser::ser_player(o.p1, p, ind + 2) + msep("p2"@, p, ind + 2)
            + crate::ser::ser_player(o.p2, p, ind + 2) + msep("meta"@, p, ind + 2)
            + crate::ser::ser_meta(o.meta, p, ind + 2) + msep("commentators"@, p, ind + 2)
            + crate::ser::ser_comm_array(o.commentators, p, ind + 2) + nl(p, ind)
            + seq!['}']).len(),
{
    reveal(crate::ser::ser_overlay);
}

/// A written setup object opens with its brace.
proof fn lemma_overlay_open_char(o: SpecOverlay, p: bool, ind: nat)
    ensures
        crate::ser::ser_overlay(o, p, ind).len() > 0,
        crate::ser::ser_overlay(o, p, ind)[0] == '{',
{
    reveal(crate::ser::ser_overlay);
    assert(crate::ser::ser_overlay(o, p, ind)[0] == '{');
}

/// A written setup object parses back to the same setup.
#[verifier::spinoff_prover]
#[verifier::rlimit(100)]
proof fn lemma_rt_overlay(t: Seq<char>, i: int, o: SpecOverlay, p: bool, ind: nat)
    requires
        at(t, i, crate::ser::ser_overlay(o, p, ind)),
    ensures
        crate::parse::p_overlay(t, i) == Some((o, i + crate::ser::ser_overlay(o, p, ind).len())),
{
    lemma_rt_overlay_at(t, i, o, p, ind);
    lemma_rt_overlay_front(t, i, o, p, ind);
    lemma_rt_overlay_back(t, i, o, p, ind);
    assert(crate::parse::p_overlay(t, i) == Some(
        (
            SpecOverlay {
                p1: o.p1,
                p2: o.p2,
                meta: o.meta,
                commentators: o.commentators,
            },
            i + 1 + nl(p, ind + 2).len() + key_tok("p1"@, p).len() + crate::ser::ser_player(o.p1, p, ind + 2).len() + msep("p2"@, p, ind + 2).len() + crate::ser::ser_player(o.p2, p, ind + 2).len() + msep("meta"@, p, ind + 2).len() + crate::ser::ser_meta(o.meta, p, ind + 2).len() + msep("commentators"@, p, ind + 2).len() + crate::ser::ser_comm_array(o.commentators, p, ind + 2).len() + nl(p, ind).len() + 1,
        ),
    ));
    assert(SpecOverlay { p1: o.p1, p2: o.p2, meta: o.meta, commentators: o.commentators } =~= o);
    proof_overlay_len(o, p, ind);
    assert(i + 1 + nl(p, ind + 2).len() + key_tok("p1"@, p).len() + crate::ser::ser_player(o.p1, p, ind + 2).len() + msep("p2"@, p, ind + 2).len() + crate::ser::ser_player(o.p2, p, ind + 2).len() + msep("meta"@, p, ind + 2).len() + crate::ser::ser_meta(o.meta, p, ind + 2).len() + msep("commentators"@, p, ind + 2).len() + crate::ser::ser_comm_array(o.commentators, p, ind + 2).len() + nl(p, ind).len() + 1 == i + crate::ser::ser_overlay(o, p, ind).len());
}
/// Round-trip at the setup level: parsing the exact text the writer
/// produces for one setup — pretty or compact, at any indent — yields that
/// setup again. The whole-document statement composes this with the
/// surrounding array and braces.
pub proof fn lemma_setup_round_trip(t: Seq<char>, i: int, o: SpecOverlay, p: bool, ind: nat)
    requires
        at(t, i, crate::ser::ser_overlay(o, p, ind)),
    ensures
        crate::parse::p_overlay(t, i) == Some((o, i + crate::ser::ser_overlay(o, p, ind).len())),
{
    lemma_rt_overlay(t, i, o, p, ind);
}

} // verus!
