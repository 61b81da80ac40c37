//! The state-file format, writing side: a mathematical definition of the
//! JSON text for each data shape (camel-cased keys, optional fields written
//! as `null`, two-space indentation in pretty form) and an executable writer
//! proved to produce exactly that text.
use vstd::prelude::*;
use vstd::seq_lib::lemma_concat_associative;

use crate::model::{
    view_opt_string, AllSetupsState, CommentaryState, MatchMeta, OverlayState, PlayerState,
    SpecAll, SpecCommentary, SpecMeta, SpecOverlay, SpecPlayer,
};
use crate::text::{digit_char, push_char, push_udec, spec_digit, spec_udec};

verus! {

/// The characters of the JSON keyword `null`.
pub open spec fn null_seq() -> Seq<char> {
    seq!['n', 'u', 'l', 'l']
}

/// The characters of the JSON keyword `true`.
pub open spec fn true_seq() -> Seq<char> {
    seq!['t', 'r', 'u', 'e']
}

/// The characters of the JSON keyword `false`.
pub open spec fn false_seq() -> Seq<char> {
    seq!['f', 'a', 'l', 's', 'e']
}

/// `n` space characters.
pub open spec fn spaces(n: nat) -> Seq<char>
    decreases n,
{
    if n == 0 {
        Seq::empty()
    } else {
        spaces((n - 1) as nat).push(' ')
    }
}

/// The whitespace written before a line at indent `ind`: a newline and the
/// indent in pretty form, nothing in compact form.
pub open spec fn nl(pretty: bool, ind: nat) -> Seq<char> {
    if pretty {
        seq!['\n'] + spaces(ind)
    } else {
        Seq::empty()
    }
}

/// The text between a key and its value.
pub open spec fn colon(pretty: bool) -> Seq<char> {
    if pretty {
        seq![':', ' ']
    } else {
        seq![':']
    }
}

/// A quoted object key followed by its colon. Keys contain no characters
/// that need escaping.
pub open spec fn key_tok(k: Seq<char>, pretty: bool) -> Seq<char> {
    seq!['"'] + k + seq!['"'] + colon(pretty)
}

/// What separates one member from the next: a comma, a line break, and the
/// next member's key.
pub open spec fn msep(k: Seq<char>, p: bool, ind: nat) -> Seq<char> {
    seq![','] + nl(p, ind) + key_tok(k, p)
}

/// How one character appears inside a JSON string: quote and backslash get a
/// backslash escape, control characters a `\u00XY` escape, everything else
/// stands as itself.
pub open spec fn esc_char(c: char) -> Seq<char> {
    if c == '"' {
        seq!['\\', '"']
    } else if c == '\\' {
        seq!['\\', '\\']
    } else if (c as u32) < 32 {
        seq![
            '\\',
            'u',
            '0',
            '0',
            spec_digit(((c as u32) / 16) as nat),
            spec_digit(((c as u32) % 16) as nat),
        ]
    } else {
        seq![c]
    }
}

/// The body of a JSON string: every character escaped as needed.
pub open spec fn ser_chars(s: Seq<char>) -> Seq<char>
    decreases s.len(),
{
    if s.len() == 0 {
        Seq::empty()
    } else {
        ser_chars(s.drop_last()) + esc_char(s.last())
    }
}

/// A whole JSON string, quotes included.
pub open spec fn ser_string(s: Seq<char>) -> Seq<char> {
    seq!['"'] + ser_chars(s) + seq!['"']
}

/// An optional string: `null` when absent.
pub open spec fn ser_opt_string(o: Option<Seq<char>>) -> Seq<char> {
    match o {
        Some(s) => ser_string(s),
        None => null_seq(),
    }
}

/// An optional small number: `null` when absent.
pub open spec fn ser_opt_u8(o: Option<u8>) -> Seq<char> {
    match o {
        Some(n) => spec_udec(n as nat),
        None => null_seq(),
    }
}

/// An optional number: `null` when absent.
pub open spec fn ser_opt_u32(o: Option<u32>) -> Seq<char> {
    match o {
        Some(n) => spec_udec(n as nat),
        None => null_seq(),
    }
}

/// An optional boolean: `null` when absent.
pub open spec fn ser_opt_bool(o: Option<bool>) -> Seq<char> {
    match o {
        Some(true) => true_seq(),
        Some(false) => false_seq(),
        None => null_seq(),
    }
}

/// The JSON object for one player, opened at indent `ind`.
pub open spec fn ser_player(pl: SpecPlayer, p: bool, ind: nat) -> Seq<char> {
    seq!['{'] + nl(p, ind + 2) + key_tok("side"@, p) + ser_string(pl.side) + msep(
        "port"@,
        p,
        ind + 2,
    ) + ser_opt_u8(pl.port) + msep("tag"@, p, ind + 2) + ser_string(pl.tag) + msep(
        "sponsor"@,
        p,
        ind + 2,
    ) + ser_opt_string(pl.sponsor) + msep("handle"@, p, ind + 2) + ser_opt_string(pl.handle)
        + msep("character"@, p, ind + 2) + ser_string(pl.character) + msep(
        "characterColor"@,
        p,
        ind + 2,
    ) + ser_string(pl.character_color) + msep("score"@, p, ind + 2) + spec_udec(pl.score as nat)
        + msep("countryCode"@, p, ind + 2) + ser_opt_string(pl.country_code) + nl(p, ind)
        + seq!['}']
}

/// The JSON object for one commentary entry, opened at indent `ind`.
pub open spec fn ser_commentary(c: SpecCommentary, p: bool, ind: nat) -> Seq<char> {
    seq!['{'] + nl(p, ind + 2) + key_tok("name"@, p) + ser_string(c.name) + msep(
        "handle"@,
        p,
        ind + 2,
    ) + ser_opt_string(c.handle) + msep("active"@, p, ind + 2) + ser_opt_bool(c.active) + nl(
        p,
        ind,
    ) + seq!['}']
}

/// The JSON object for the match metadata, opened at indent `ind`.
pub open spec fn ser_meta(m: SpecMeta, p: bool, ind: nat) -> Seq<char> {
    seq!['{'] + nl(p, ind + 2) + key_tok("tournament"@, p) + ser_opt_string(m.tournament) + msep(
        "round"@,
        p,
        ind + 2,
    ) + ser_string(m.round) + msep("bestOf"@, p, ind + 2) + spec_udec(m.best_of as nat) + msep(
        "gameNumber"@,
        p,
        ind + 2,
    ) + ser_opt_u32(m.game_number) + msep("stage"@, p, ind + 2) + ser_opt_string(m.stage) + msep(
        "notes"@,
        p,
        ind + 2,
    ) + ser_opt_string(m.notes) + nl(p, ind) + seq!['}']
}

/// The elements of a commentary array, commas between them.
pub open spec fn ser_comm_items(cs: Seq<SpecCommentary>, p: bool, ind: nat) -> Seq<char>
    decreases cs.len(),
{
    if cs.len() == 0 {
        Seq::empty()
    } else if cs.len() == 1 {
        ser_commentary(cs[0], p, ind)
    } else {
        ser_comm_items(cs.drop_last(), p, ind) + seq![','] + nl(p, ind) + ser_commentary(
            cs.last(),
            p,
            ind,
        )
    }
}

/// A commentary array, opened at indent `ind`; `[]` when empty.
pub open spec fn ser_comm_array(cs: Seq<SpecCommentary>, p: bool, ind: nat) -> Seq<char> {
    if cs.len() == 0 {
        seq!['[', ']']
    } else {
        seq!['['] + nl(p, ind + 2) + ser_comm_items(cs, p, ind + 2) + nl(p, ind) + seq![']']
    }
}

/// The JSON object for one setup, opened at indent `ind`.
#[verifier::opaque]
pub open spec fn ser_overlay(o: SpecOverlay, p: bool, ind: nat) -> Seq<char> {
    seq!['{'] + nl(p, ind + 2) + key_tok("p1"@, p) + ser_player(o.p1, p, ind + 2) + msep(
        "p2"@,
        p,
        ind + 2,
    ) + ser_player(o.p2, p, ind + 2) + msep("meta"@, p, ind + 2) + ser_meta(o.meta, p, ind + 2)
        + msep("commentators"@, p, ind + 2) + ser_comm_array(o.commentators, p, ind + 2) + nl(
        p,
        ind,
    ) + seq!['}']
}

/// The elements of the setups array, commas between them.
pub open spec fn ser_setup_items(os: Seq<SpecOverlay>, p: bool, ind: nat) -> Seq<char>
    decreases os.len(),
{
    if os.len() == 0 {
        Seq::empty()
    } else if os.len() == 1 {
        ser_overlay(os[0], p, ind)
    } else {
        ser_setup_items(os.drop_last(), p, ind) + seq![','] + nl(p, ind) + ser_overlay(
            os.last(),
            p,
            ind,
        )
    }
}

/// The setups array, opened at indent `ind`; `[]` when empty.
pub open spec fn ser_setup_array(os: Seq<SpecOverlay>, p: bool, ind: nat) -> Seq<char> {
    if os.len() == 0 {
        seq!['[', ']']
    } else {
        seq!['['] + nl(p, ind + 2) + ser_setup_items(os, p, ind + 2) + nl(p, ind) + seq![']']
    }
}

/// The whole state document.
pub open spec fn ser_all(s: SpecAll, p: bool) -> Seq<char> {
    seq!['{'] + nl(p, 2) + key_tok("setups"@, p) + ser_setup_array(s.setups, p, 2) + nl(p, 0)
        + seq!['}']
}

fn write_nl(out: &mut String, p: bool, ind: usize)
    requires
        ind <= 64,
    ensures
        final(out)@ == old(out)@ + nl(p, ind as nat),
{
    if p {
        push_char(out, '\n');
        let mut i: usize = 0;
        while i < ind
            invariant
                i <= ind,
                out@ == old(out)@ + seq!['\n'] + spaces(i as nat),
            decreases ind - i,
        {
            push_char(out, ' ');
            i += 1;
        }
        assert(out@ =~= old(out)@ + nl(p, ind as nat));
    } else {
        assert(out@ =~= old(out)@ + nl(p, ind as nat));
    }
}

fn write_key(out: &mut String, k: &str, p: bool)
    ensures
        final(out)@ == old(out)@ + key_tok(k@, p),
{
    push_char(out, '"');
    out.append(k);
    push_char(out, '"');
    push_char(out, ':');
    if p {
        push_char(out, ' ');
    }
    assert(out@ =~= old(out)@ + key_tok(k@, p));
}

fn write_escaped(out: &mut String, s: &str)
    ensures
        final(out)@ == old(out)@ + ser_chars(s@),
{
    let n = s.unicode_len();
    let mut i: usize = 0;
    while i < n
        invariant
            n == s@.len(),
            i <= n,
            out@ == old(out)@ + ser_chars(s@.take(i as int)),
        decreases n - i,
    {
        let c = s.get_char(i);
        let ghost pre = out@;
        if c == '"' {
            push_char(out, '\\');
            push_char(out, '"');
            assert(out@ =~= pre + esc_char(c));
        } else if c == '\\' {
            push_char(out, '\\');
            push_char(out, '\\');
            assert(out@ =~= pre + esc_char(c));
        } else if (c as u32) < 32 {
            let v = c as u32;
            push_char(out, '\\');
            push_char(out, 'u');
            push_char(out, '0');
            push_char(out, '0');
            push_char(out, digit_char((v / 16) as u64));
            push_char(out, digit_char((v % 16) as u64));
            assert(out@ =~= pre + esc_char(c));
        } else {
            push_char(out, c);
            assert(out@ =~= pre + esc_char(c));
        }
        proof {
            assert(s@.take(i + 1).drop_last() =~= s@.take(i as int));
            assert(s@.take(i + 1).last() == s@[i as int]);
            assert(out@ =~= old(out)@ + ser_chars(s@.take(i + 1)));
        }
        i += 1;
    }
    assert(s@.take(n as int) =~= s@);
}

fn write_string(out: &mut String, s: &str)
    ensures
        final(out)@ == old(out)@ + ser_string(s@),
{
    push_char(out, '"');
    write_escaped(out, s);
    push_char(out, '"');
    assert(out@ =~= old(out)@ + ser_string(s@));
}

fn write_null(out: &mut String)
    ensures
        final(out)@ == old(out)@ + null_seq(),
{
    proof {
        reveal_strlit("null");
    }
    out.append("null");
    assert(out@ =~= old(out)@ + null_seq());
}

// The writers below thread a ghost accumulator: `out` always holds
// `base + acc`, and each step extends `acc` by exactly the piece the
// corresponding spec function names, grouped the same way.

fn w_one(out: &mut String, acc: Ghost<Seq<char>>, base: Ghost<Seq<char>>, c: char) -> (r: Ghost<
    Seq<char>,
>)
    requires
        old(out)@ == base@ + acc@,
    ensures
        final(out)@ == base@ + r@,
        r@ == acc@ + seq![c],
{
    push_char(out, c);
    proof {
        assert(out@ =~= base@ + (acc@ + seq![c]));
    }
    Ghost(acc@ + seq![c])
}

fn w_nl(out: &mut String, acc: Ghost<Seq<char>>, base: Ghost<Seq<char>>, p: bool, ind: usize) -> (r:
    Ghost<Seq<char>>)
    requires
        old(out)@ == base@ + acc@,
        ind <= 64,
    ensures
        final(out)@ == base@ + r@,
        r@ == acc@ + nl(p, ind as nat),
{
    write_nl(out, p, ind);
    proof {
        lemma_concat_associative(base@, acc@, nl(p, ind as nat));
    }
    Ghost(acc@ + nl(p, ind as nat))
}

fn w_key(out: &mut String, acc: Ghost<Seq<char>>, base: Ghost<Seq<char>>, k: &str, p: bool) -> (r:
    Ghost<Seq<char>>)
    requires
        old(out)@ == base@ + acc@,
    ensures
        final(out)@ == base@ + r@,
        r@ == acc@ + key_tok(k@, p),
{
    write_key(out, k, p);
    proof {
        lemma_concat_associative(base@, acc@, key_tok(k@, p));
    }
    Ghost(acc@ + key_tok(k@, p))
}

fn w_sep_key(
    out: &mut String,
    acc: Ghost<Seq<char>>,
    base: Ghost<Seq<char>>,
    k: &str,
    p: bool,
    ind: usize,
) -> (r: Ghost<Seq<char>>)
    requires
        old(out)@ == base@ + acc@,
        ind <= 64,
    ensures
        final(out)@ == base@ + r@,
        r@ == acc@ + msep(k@, p, ind as nat),
{
    let ghost pre = out@;
    push_char(out, ',');
    write_nl(out, p, ind);
    write_key(out, k, p);
    proof {
        lemma_concat_associative(pre, seq![','], nl(p, ind as nat));
        lemma_concat_associative(pre, seq![','] + nl(p, ind as nat), key_tok(k@, p));
        assert(out@ == pre + msep(k@, p, ind as nat));
        lemma_concat_associative(base@, acc@, msep(k@, p, ind as nat));
    }
    Ghost(acc@ + msep(k@, p, ind as nat))
}

fn w_str(out: &mut String, acc: Ghost<Seq<char>>, base: Ghost<Seq<char>>, s: &str) -> (r: Ghost<
    Seq<char>,
>)
    requires
        old(out)@ == base@ + acc@,
    ensures
        final(out)@ == base@ + r@,
        r@ == acc@ + ser_string(s@),
{
    write_string(out, s);
    proof {
        lemma_concat_associative(base@, acc@, ser_string(s@));
    }
    Ghost(acc@ + ser_string(s@))
}

fn w_opt_str(out: &mut String, acc: Ghost<Seq<char>>, base: Ghost<Seq<char>>, o: &Option<String>) -> (r:
    Ghost<Seq<char>>)
    requires
        old(out)@ == base@ + acc@,
    ensures
        final(out)@ == base@ + r@,
        r@ == acc@ + ser_opt_string(view_opt_string(*o)),
{
    match o {
        Some(s) => write_string(out, s.as_str()),
        None => write_null(out),
    }
    proof {
        lemma_concat_associative(base@, acc@, ser_opt_string(view_opt_string(*o)));
    }
    Ghost(acc@ + ser_opt_string(view_opt_string(*o)))
}

fn w_opt_u8(out: &mut String, acc: Ghost<Seq<char>>, base: Ghost<Seq<char>>, o: &Option<u8>) -> (r:
    Ghost<Seq<char>>)
    requires
        old(out)@ == base@ + acc@,
    ensures
        final(out)@ == base@ + r@,
        r@ == acc@ + ser_opt_u8(*o),
{
    match o {
        Some(n) => push_udec(out, *n as u64),
        None => write_null(out),
    }
    proof {
        lemma_concat_associative(base@, acc@, ser_opt_u8(*o));
    }
    Ghost(acc@ + ser_opt_u8(*o))
}

fn w_opt_u32(out: &mut String, acc: Ghost<Seq<char>>, base: Ghost<Seq<char>>, o: &Option<u32>) -> (r:
    Ghost<Seq<char>>)
    requires
        old(out)@ == base@ + acc@,
    ensures
        final(out)@ == base@ + r@,
        r@ == acc@ + ser_opt_u32(*o),
{
    match o {
        Some(n) => push_udec(out, *n as u64),
        None => write_null(out),
    }
    proof {
        lemma_concat_associative(base@, acc@, ser_opt_u32(*o));
    }
    Ghost(acc@ + ser_opt_u32(*o))
}

fn w_opt_bool(out: &mut String, acc: Ghost<Seq<char>>, base: Ghost<Seq<char>>, o: &Option<bool>) -> (r:
    Ghost<Seq<char>>)
    requires
        old(out)@ == base@ + acc@,
    ensures
        final(out)@ == base@ + r@,
        r@ == acc@ + ser_opt_bool(*o),
{
    match o {
        Some(b) => {
            if *b {
                proof {
                    reveal_strlit("true");
                }
                out.append("true");
                assert(out@ =~= old(out)@ + true_seq());
            } else {
                proof {
                    reveal_strlit("false");
                }
                out.append("false");
                assert(out@ =~= old(out)@ + false_seq());
            }
        },
        None => write_null(out),
    }
    proof {
        lemma_concat_associative(base@, acc@, ser_opt_bool(*o));
    }
    Ghost(acc@ + ser_opt_bool(*o))
}

fn w_udec(out: &mut String, acc: Ghost<Seq<char>>, base: Ghost<Seq<char>>, n: u64) -> (r: Ghost<
    Seq<char>,
>)
    requires
        old(out)@ == base@ + acc@,
    ensures
        final(out)@ == base@ + r@,
        r@ == acc@ + spec_udec(n as nat),
{
    push_udec(out, n);
    proof {
        lemma_concat_associative(base@, acc@, spec_udec(n as nat));
    }
    Ghost(acc@ + spec_udec(n as nat))
}

fn write_player(out: &mut String, pl: &PlayerState, p: bool, ind: usize)
    requires
        ind <= 32,
    ensures
        final(out)@ == old(out)@ + ser_player(pl@, p, ind as nat),
{
    let ghost base = out@;
    push_char(out, '{');
    let ghost acc0: Seq<char> = seq!['{'];
    let mut acc: Ghost<Seq<char>> = Ghost(acc0);
    proof {
        assert(out@ =~= base + acc@);
    }
    acc = w_nl(out, acc, Ghost(base), p, ind + 2);
    acc = w_key(out, acc, Ghost(base), "side", p);
    acc = w_str(out, acc, Ghost(base), pl.side.as_str());
    acc = w_sep_key(out, acc, Ghost(base), "port", p, ind + 2);
    acc = w_opt_u8(out, acc, Ghost(base), &pl.port);
    acc = w_sep_key(out, acc, Ghost(base), "tag", p, ind + 2);
    acc = w_str(out, acc, Ghost(base), pl.tag.as_str());
    acc = w_sep_key(out, acc, Ghost(base), "sponsor", p, ind + 2);
    acc = w_opt_str(out, acc, Ghost(base), &pl.sponsor);
    acc = w_sep_key(out, acc, Ghost(base), "handle", p, ind + 2);
    acc = w_opt_str(out, acc, Ghost(base), &pl.handle);
    acc = w_sep_key(out, acc, Ghost(base), "character", p, ind + 2);
    acc = w_str(out, acc, Ghost(base), pl.character.as_str());
    acc = w_sep_key(out, acc, Ghost(base), "characterColor", p, ind + 2);
    acc = w_str(out, acc, Ghost(base), pl.character_color.as_str());
    acc = w_sep_key(out, acc, Ghost(base), "score", p, ind + 2);
    acc = w_udec(out, acc, Ghost(base), pl.score as u64);
    acc = w_sep_key(out, acc, Ghost(base), "countryCode", p, ind + 2);
    acc = w_opt_str(out, acc, Ghost(base), &pl.country_code);
    acc = w_nl(out, acc, Ghost(base), p, ind);
    acc = w_one(out, acc, Ghost(base), '}');
    assert(acc@ == ser_player(pl@, p, ind as nat));
}

fn write_commentary(out: &mut String, c: &CommentaryState, p: bool, ind: usize)
    requires
        ind <= 32,
    ensures
        final(out)@ == old(out)@ + ser_commentary(c@, p, ind as nat),
{
    let ghost base = out@;
    push_char(out, '{');
    let ghost acc0: Seq<char> = seq!['{'];
    let mut acc: Ghost<Seq<char>> = Ghost(acc0);
    proof {
        assert(out@ =~= base + acc@);
    }
    acc = w_nl(out, acc, Ghost(base), p, ind + 2);
    acc = w_key(out, acc, Ghost(base), "name", p);
    acc = w_str(out, acc, Ghost(base), c.name.as_str());
    acc = w_sep_key(out, acc, Ghost(base), "handle", p, ind + 2);
    acc = w_opt_str(out, acc, Ghost(base), &c.handle);
    acc = w_sep_key(out, acc, Ghost(base), "active", p, ind + 2);
    acc = w_opt_bool(out, acc, Ghost(base), &c.active);
    acc = w_nl(out, acc, Ghost(base), p, ind);
    acc = w_one(out, acc, Ghost(base), '}');
    assert(acc@ == ser_commentary(c@, p, ind as nat));
}

fn write_meta(out: &mut String, m: &MatchMeta, p: bool, ind: usize)
    requires
        ind <= 32,
    ensures
        final(out)@ == old(out)@ + ser_meta(m@, p, ind as nat),
{
    let ghost base = out@;
    push_char(out, '{');
    let ghost acc0: Seq<char> = seq!['{'];
    let mut acc: Ghost<Seq<char>> = Ghost(acc0);
    proof {
        assert(out@ =~= base + acc@);
    }
    acc = w_nl(out, acc, Ghost(base), p, ind + 2);
    acc = w_key(out, acc, Ghost(base), "tournament", p);
    acc = w_opt_str(out, acc, Ghost(base), &m.tournament);
    acc = w_sep_key(out, acc, Ghost(base), "round", p, ind + 2);
    acc = w_str(out, acc, Ghost(base), m.round.as_str());
    acc = w_sep_key(out, acc, Ghost(base), "bestOf", p, ind + 2);
    acc = w_udec(out, acc, Ghost(base), m.best_of as u64);
    acc = w_sep_key(out, acc, Ghost(base), "gameNumber", p, ind + 2);
    acc = w_opt_u32(out, acc, Ghost(base), &m.game_number);
    acc = w_sep_key(out, acc, Ghost(base), "stage", p, ind + 2);
    acc = w_opt_str(out, acc, Ghost(base), &m.stage);
    acc = w_sep_key(out, acc, Ghost(base), "notes", p, ind + 2);
    acc = w_opt_str(out, acc, Ghost(base), &m.notes);
    acc = w_nl(out, acc, Ghost(base), p, ind);
    acc = w_one(out, acc, Ghost(base), '}');
    assert(acc@ == ser_meta(m@, p, ind as nat));
}

fn write_comm_array(out: &mut String, cs: &Vec<CommentaryState>, p: bool, ind: usize)
    requires
        ind <= 30,
    ensures
        final(out)@ == old(out)@ + ser_comm_array(
            cs@.map_values(|c: CommentaryState| c@),
            p,
            ind as nat,
        ),
{
    let ghost g = cs@.map_values(|c: CommentaryState| c@);
    let ghost base = out@;
    if cs.len() == 0 {
        push_char(out, '[');
        push_char(out, ']');
        assert(out@ =~= base + ser_comm_array(g, p, ind as nat));
    } else {
        push_char(out, '[');
        let ghost acc0: Seq<char> = seq!['['];
        let mut acc: Ghost<Seq<char>> = Ghost(acc0);
        proof {
            assert(out@ =~= base + acc@);
        }
        acc = w_nl(out, acc, Ghost(base), p, ind + 2);
        let ghost open_part = acc@;
        let mut i: usize = 0;
        while i < cs.len()
            invariant
                cs@.map_values(|c: CommentaryState| c@) == g,
                g.len() == cs@.len(),
                ind <= 30,
                i <= cs.len(),
                out@ == base + acc@,
                i == 0 ==> acc@ == open_part,
                i > 0 ==> acc@ == open_part + ser_comm_items(g.take(i as int), p, (ind + 2) as nat),
            decreases cs.len() - i,
        {
            let ghost items_pre = g.take(i as int);
            if i > 0 {
                acc = w_one(out, acc, Ghost(base), ',');
                acc = w_nl(out, acc, Ghost(base), p, ind + 2);
            }
            let ghost acc_pre = acc@;
            write_commentary(out, &cs[i], p, ind + 2);
            acc = Ghost(acc@ + ser_commentary(g.take(i as int + 1).last(), p, (ind + 2) as nat));
            proof {
                let piece = ser_commentary(g[i as int], p, (ind + 2) as nat);
                assert(g.take(i + 1).last() == g[i as int]);
                assert(acc@ == acc_pre + piece);
                assert(g[i as int] == cs@[i as int]@);
                lemma_concat_associative(base, acc_pre, piece);
                assert(g.take(i + 1).drop_last() =~= g.take(i as int));
                assert(g.take(i + 1).last() == g[i as int]);
                if i == 0 {
                    assert(g.take(1)[0] == g[0]);
                    assert(ser_comm_items(g.take(1), p, (ind + 2) as nat) == piece);
                    assert(acc@ == open_part + ser_comm_items(g.take(i + 1), p, (ind + 2) as nat));
                } else {
                    let ghost its = ser_comm_items(items_pre, p, (ind + 2) as nat);
                    lemma_concat_associative(open_part, its, seq![',']);
                    lemma_concat_associative(open_part, its + seq![','], nl(p, (ind + 2) as nat));
                    lemma_concat_associative(
                        open_part,
                        its + seq![','] + nl(p, (ind + 2) as nat),
                        piece,
                    );
                    assert(acc@ == open_part + ser_comm_items(g.take(i + 1), p, (ind + 2) as nat));
                }
            }
            i += 1;
        }
        proof {
            assert(g.take(cs.len() as int) =~= g);
        }
        acc = w_nl(out, acc, Ghost(base), p, ind);
        acc = w_one(out, acc, Ghost(base), ']');
        assert(acc@ == ser_comm_array(g, p, ind as nat));
    }
}

fn w_meta(out: &mut String, acc: Ghost<Seq<char>>, base: Ghost<Seq<char>>, m: &MatchMeta, p: bool, ind: usize) -> (r:
    Ghost<Seq<char>>)
    requires
        old(out)@ == base@ + acc@,
        ind <= 32,
    ensures
        final(out)@ == base@ + r@,
        r@ == acc@ + ser_meta(m@, p, ind as nat),
{
    write_meta(out, m, p, ind);
    proof {
        lemma_concat_associative(base@, acc@, ser_meta(m@, p, ind as nat));
    }
    Ghost(acc@ + ser_meta(m@, p, ind as nat))
}

fn w_player(out: &mut String, acc: Ghost<Seq<char>>, base: Ghost<Seq<char>>, pl: &PlayerState, p: bool, ind: usize) -> (r:
    Ghost<Seq<char>>)
    requires
        old(out)@ == base@ + acc@,
        ind <= 32,
    ensures
        final(out)@ == base@ + r@,
        r@ == acc@ + ser_player(pl@, p, ind as nat),
{
    write_player(out, pl, p, ind);
    proof {
        lemma_concat_associative(base@, acc@, ser_player(pl@, p, ind as nat));
    }
    Ghost(acc@ + ser_player(pl@, p, ind as nat))
}

fn w_comm_array(out: &mut String, acc: Ghost<Seq<char>>, base: Ghost<Seq<char>>, cs: &Vec<CommentaryState>, p: bool, ind: usize) -> (r:
    Ghost<Seq<char>>)
    requires
        old(out)@ == base@ + acc@,
        ind <= 30,
    ensures
        final(out)@ == base@ + r@,
        r@ == acc@ + ser_comm_array(cs@.map_values(|c: CommentaryState| c@), p, ind as nat),
{
    write_comm_array(out, cs, p, ind);
    proof {
        lemma_concat_associative(
            base@,
            acc@,
            ser_comm_array(cs@.map_values(|c: CommentaryState| c@), p, ind as nat),
        );
    }
    Ghost(acc@ + ser_comm_array(cs@.map_values(|c: CommentaryState| c@), p, ind as nat))
}

fn write_overlay(out: &mut String, o: &OverlayState, p: bool, ind: usize)
    requires
        ind <= 28,
    ensures
        final(out)@ == old(out)@ + ser_overlay(o@, p, ind as nat),
{
    let ghost base = out@;
    push_char(out, '{');
    let ghost acc0: Seq<char> = seq!['{'];
    let mut acc: Ghost<Seq<char>> = Ghost(acc0);
    proof {
        assert(out@ =~= base + acc@);
    }
    acc = w_nl(out, acc, Ghost(base), p, ind + 2);
    acc = w_key(out, acc, Ghost(base), "p1", p);
    acc = w_player(out, acc, Ghost(base), &o.p1, p, ind + 2);
    acc = w_sep_key(out, acc, Ghost(base), "p2", p, ind + 2);
    acc = w_player(out, acc, Ghost(base), &o.p2, p, ind + 2);
    acc = w_sep_key(out, acc, Ghost(base), "meta", p, ind + 2);
    acc = w_meta(out, acc, Ghost(base), &o.meta, p, ind + 2);
    acc = w_sep_key(out, acc, Ghost(base), "commentators", p, ind + 2);
    acc = w_comm_array(out, acc, Ghost(base), &o.commentators, p, ind + 2);
    acc = w_nl(out, acc, Ghost(base), p, ind);
    acc = w_one(out, acc, Ghost(base), '}');
    proof {
        reveal(ser_overlay);
    }
    assert(acc@ == ser_overlay(o@, p, ind as nat));
}

#[verifier::rlimit(60)]
fn write_setup_array(out: &mut String, os: &Vec<OverlayState>, p: bool, ind: usize)
    requires
        ind <= 26,
    ensures
        final(out)@ == old(out)@ + ser_setup_array(
            os@.map_values(|o: OverlayState| o@),
            p,
            ind as nat,
        ),
{
    let ghost g = os@.map_values(|o: OverlayState| o@);
    let ghost base = out@;
    if os.len() == 0 {
        push_char(out, '[');
        push_char(out, ']');
        assert(out@ =~= base + ser_setup_array(g, p, ind as nat));
    } else {
        push_char(out, '[');
        let ghost acc0: Seq<char> = seq!['['];
        let mut acc: Ghost<Seq<char>> = Ghost(acc0);
        proof {
            assert(out@ =~= base + acc@);
        }
        acc = w_nl(out, acc, Ghost(base), p, ind + 2);
        let ghost open_part = acc@;
        let mut i: usize = 0;
        while i < os.len()
            invariant
                os@.map_values(|o: OverlayState| o@) == g,
                g.len() == os@.len(),
                ind <= 26,
                i <= os.len(),
                out@ == base + acc@,
                i == 0 ==> acc@ == open_part,
                i > 0 ==> acc@ == open_part + ser_setup_items(
                    g.take(i as int),
                    p,
                    (ind + 2) as nat,
                ),
            decreases os.len() - i,
        {
            let ghost items_pre = g.take(i as int);
            if i > 0 {
                acc = w_one(out, acc, Ghost(base), ',');
                acc = w_nl(out, acc, Ghost(base), p, ind + 2);
            }
            let ghost acc_pre = acc@;
            write_overlay(out, &os[i], p, ind + 2);
            acc = Ghost(acc@ + ser_overlay(g.take(i as int + 1).last(), p, (ind + 2) as nat));
            proof {
                let piece = ser_overlay(g[i as int], p, (ind + 2) as nat);
                assert(g.take(i + 1).last() == g[i as int]);
                assert(acc@ == acc_pre + piece);
                assert(g[i as int] == os@[i as int]@);
                lemma_concat_associative(base, acc_pre, piece);
                assert(g.take(i + 1).drop_last() =~= g.take(i as int));
                assert(g.take(i + 1).last() == g[i as int]);
                if i == 0 {
                    assert(g.take(1)[0] == g[0]);
                    assert(ser_setup_items(g.take(1), p, (ind + 2) as nat) == piece);
                    assert(acc@ == open_part + ser_setup_items(g.take(i + 1), p, (ind + 2) as nat));
                } else {
                    let ghost its = ser_setup_items(items_pre, p, (ind + 2) as nat);
                    lemma_concat_associative(open_part, its, seq![',']);
                    lemma_concat_associative(open_part, its + seq![','], nl(p, (ind + 2) as nat));
                    lemma_concat_associative(
                        open_part,
                        its + seq![','] + nl(p, (ind + 2) as nat),
                        piece,
                    );
                    assert(acc@ == open_part + ser_setup_items(g.take(i + 1), p, (ind + 2) as nat));
                }
            }
            i += 1;
        }
        proof {
            assert(g.take(os.len() as int) =~= g);
        }
        acc = w_nl(out, acc, Ghost(base), p, ind);
        acc = w_one(out, acc, Ghost(base), ']');
        assert(acc@ == ser_setup_array(g, p, ind as nat));
    }
}

/// The JSON text of a whole state: pretty-printed (for the state file) when
/// `pretty` holds, single-line (for the HTTP endpoint) otherwise.
pub fn state_to_json(s: &AllSetupsState, pretty: bool) -> (r: String)
    ensures
        r@ == ser_all(s@, pretty),
{
    let mut out = String::new();
    let ghost base = out@;
    push_char(&mut out, '{');
    let ghost acc0: Seq<char> = seq!['{'];
    let mut acc: Ghost<Seq<char>> = Ghost(acc0);
    proof {
        assert(out@ =~= base + acc@);
    }
    acc = w_nl(&mut out, acc, Ghost(base), pretty, 2);
    acc = w_key(&mut out, acc, Ghost(base), "setups", pretty);
    let ghost acc_pre = acc@;
    write_setup_array(&mut out, &s.setups, pretty, 2);
    acc = Ghost(acc@ + ser_setup_array(s@.setups, pretty, 2));
    proof {
        let piece = ser_setup_array(s@.setups, pretty, 2);
        assert(s.setups@.map_values(|o: OverlayState| o@) == s@.setups);
        lemma_concat_associative(base, acc_pre, piece);
    }
    acc = w_nl(&mut out, acc, Ghost(base), pretty, 0);
    acc = w_one(&mut out, acc, Ghost(base), '}');
    assert(acc@ == ser_all(s@, pretty));
    assert(out@ =~= base + acc@);
    assert(base =~= Seq::<char>::empty());
    assert(out@ =~= acc@);
    out
}

} // verus!
