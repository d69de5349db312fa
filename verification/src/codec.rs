//! The on-disk text format of the catalog's records.  A record is written
//! as one object with every field present in a fixed order, `null` standing
//! for a missing field; texts are quoted with the quote and the backslash
//! escaped; numbers are plain decimals.  The parser consumes exactly this
//! shape (and the bare empty object), and parsing is proved to invert
//! encoding.

use vstd::prelude::*;
use vstd::arithmetic::div_mod::lemma_fundamental_div_mod;
use crate::records::{FileStateView, GameMetaView, PlaySessionEntryView, PlaySessionListView, SourcePortConfigView};

verus! {

// ---------------------------------------------------------------------------
// Quoted texts.
// ---------------------------------------------------------------------------
/// The escape of one character inside a quoted text: the quote and the
/// backslash are preceded by a backslash, every other character stands as
/// itself.
pub open spec fn esc_char(c: char) -> Seq<char> {
    if c == '"' {
        seq!['\\', '"']
    } else if c == '\\' {
        seq!['\\', '\\']
    } else {
        seq![c]
    }
}

/// The escaped characters of a text.
pub open spec fn encode_text(v: Seq<char>) -> Seq<char>
    decreases v.len(),
{
    if v.len() == 0 {
        Seq::empty()
    } else {
        esc_char(v.first()) + encode_text(v.drop_first())
    }
}

/// A quoted text: the escaped characters between two quotes.
pub open spec fn encode_string(v: Seq<char>) -> Seq<char> {
    seq!['"'] + encode_text(v) + seq!['"']
}

/// Consumes an escaped text up to and including its closing quote, yielding
/// the unescaped text and what follows.
pub open spec fn parse_text(s: Seq<char>) -> Option<(Seq<char>, Seq<char>)>
    decreases s.len(),
{
    if s.len() == 0 {
        None
    } else if s.first() == '"' {
        Some((Seq::empty(), s.drop_first()))
    } else if s.first() == '\\' {
        if s.len() < 2 {
            None
        } else if s[1] == '"' || s[1] == '\\' {
            match parse_text(s.skip(2)) {
                None => None,
                Some((v, rest)) => Some((seq![s[1]] + v, rest)),
            }
        } else {
            None
        }
    } else {
        match parse_text(s.drop_first()) {
            None => None,
            Some((v, rest)) => Some((seq![s.first()] + v, rest)),
        }
    }
}

/// Consumes a quoted text.
pub open spec fn parse_string(s: Seq<char>) -> Option<(Seq<char>, Seq<char>)> {
    if s.len() > 0 && s.first() == '"' {
        parse_text(s.drop_first())
    } else {
        None
    }
}

pub proof fn lemma_parse_text_shrinks(s: Seq<char>)
    ensures
        parse_text(s) matches Some(p) ==> p.1.len() < s.len(),
    decreases s.len(),
{
    if s.len() == 0 {
    } else if s.first() == '"' {
    } else if s.first() == '\\' {
        if s.len() >= 2 && (s[1] == '"' || s[1] == '\\') {
            lemma_parse_text_shrinks(s.skip(2));
        }
    } else {
        lemma_parse_text_shrinks(s.drop_first());
    }
}

pub proof fn lemma_parse_string_shrinks(s: Seq<char>)
    ensures
        parse_string(s) matches Some(p) ==> p.1.len() < s.len(),
{
    if s.len() > 0 && s.first() == '"' {
        lemma_parse_text_shrinks(s.drop_first());
    }
}

/// Law: unquoting inverts quoting, whatever follows the closing quote.
pub proof fn lemma_text_round_trip(v: Seq<char>, rest: Seq<char>)
    ensures
        parse_text(encode_text(v) + seq!['"'] + rest) == Some((v, rest)),
    decreases v.len(),
{
    let s = encode_text(v) + seq!['"'] + rest;
    if v.len() == 0 {
        assert(encode_text(v) =~= Seq::empty());
        assert(s =~= seq!['"'] + rest);
        assert(s.first() == '"');
        assert(s.drop_first() =~= rest);
    } else {
        let c = v.first();
        let tail = v.drop_first();
        lemma_text_round_trip(tail, rest);
        let inner = encode_text(tail) + seq!['"'] + rest;
        assert(encode_text(v) == esc_char(c) + encode_text(tail));
        if c == '"' {
            assert(s =~= seq!['\\', '"'] + inner);
            assert(s.first() == '\\' && s[1] == '"');
            assert(s.skip(2) =~= inner);
            assert(seq![s[1]] + tail =~= v);
        } else if c == '\\' {
            assert(s =~= seq!['\\', '\\'] + inner);
            assert(s.first() == '\\' && s[1] == '\\');
            assert(s.skip(2) =~= inner);
            assert(seq![s[1]] + tail =~= v);
        } else {
            assert(s =~= seq![c] + inner);
            assert(s.first() == c);
            assert(s.drop_first() =~= inner);
            assert(seq![s.first()] + tail =~= v);
        }
    }
}

/// Law: a quoted text reads back as itself, whatever follows it.
pub proof fn lemma_string_round_trip(v: Seq<char>, rest: Seq<char>)
    ensures
        parse_string(encode_string(v) + rest) == Some((v, rest)),
{
    let s = encode_string(v) + rest;
    assert(s.first() == '"');
    assert(s.drop_first() =~= encode_text(v) + seq!['"'] + rest);
    lemma_text_round_trip(v, rest);
}

// ---------------------------------------------------------------------------
// Fixed literals.
// ---------------------------------------------------------------------------
/// Consumes exactly `lit`.
pub open spec fn parse_literal(s: Seq<char>, lit: Seq<char>) -> Option<Seq<char>> {
    if s.len() >= lit.len() && s.take(lit.len() as int) == lit {
        Some(s.skip(lit.len() as int))
    } else {
        None
    }
}

pub proof fn lemma_literal_round_trip(lit: Seq<char>, rest: Seq<char>)
    ensures
        parse_literal(lit + rest, lit) == Some(rest),
{
    assert((lit + rest).take(lit.len() as int) =~= lit);
    assert((lit + rest).skip(lit.len() as int) =~= rest);
}

// ---------------------------------------------------------------------------
// Decimal numbers.
// ---------------------------------------------------------------------------
pub open spec fn is_digit(c: char) -> bool {
    48 <= c as u32 <= 57
}

pub open spec fn digit_val(c: char) -> int {
    c as u32 - 48
}

pub open spec fn digit_char(d: int) -> char {
    if d == 0 {
        '0'
    } else if d == 1 {
        '1'
    } else if d == 2 {
        '2'
    } else if d == 3 {
        '3'
    } else if d == 4 {
        '4'
    } else if d == 5 {
        '5'
    } else if d == 6 {
        '6'
    } else if d == 7 {
        '7'
    } else if d == 8 {
        '8'
    } else {
        '9'
    }
}

proof fn lemma_digit_char(d: int)
    requires
        0 <= d <= 9,
    ensures
        is_digit(digit_char(d)),
        digit_val(digit_char(d)) == d,
{
}

/// The decimal digits of a natural number, most significant first.
pub open spec fn nat_chars(m: nat) -> Seq<char>
    decreases m,
{
    if m < 10 {
        seq![digit_char(m as int)]
    } else {
        nat_chars(m / 10) + seq![digit_char((m % 10) as int)]
    }
}

/// The decimal form of an integer.
pub open spec fn int_chars(n: int) -> Seq<char> {
    if n < 0 {
        seq!['-'] + nat_chars((-n) as nat)
    } else {
        nat_chars(n as nat)
    }
}

/// Consumes the leading digits, folding them onto `acc`.
pub open spec fn parse_digits(s: Seq<char>, acc: int) -> (int, Seq<char>)
    decreases s.len(),
{
    if s.len() > 0 && is_digit(s.first()) {
        parse_digits(s.drop_first(), acc * 10 + digit_val(s.first()))
    } else {
        (acc, s)
    }
}

/// Consumes an optionally signed decimal number.
pub open spec fn parse_int(s: Seq<char>) -> Option<(int, Seq<char>)> {
    if s.len() >= 2 && s.first() == '-' && is_digit(s[1]) {
        let (m, rest) = parse_digits(s.drop_first(), 0);
        Some((-m, rest))
    } else if s.len() >= 1 && is_digit(s.first()) {
        let (m, rest) = parse_digits(s, 0);
        Some((m, rest))
    } else {
        None
    }
}

/// What one decimal position is worth past the digits of `m`.
pub open spec fn pow10_len(m: nat) -> int
    decreases m,
{
    if m < 10 {
        10
    } else {
        10 * pow10_len(m / 10)
    }
}

proof fn lemma_nat_chars_head(m: nat)
    ensures
        nat_chars(m).len() >= 1,
        is_digit(nat_chars(m).first()),
    decreases m,
{
    if m < 10 {
        lemma_digit_char(m as int);
    } else {
        lemma_nat_chars_head(m / 10);
        assert(nat_chars(m).first() == nat_chars(m / 10).first());
    }
}

proof fn lemma_digits_compose(m: nat, rest: Seq<char>, acc: int)
    ensures
        parse_digits(nat_chars(m) + rest, acc) == parse_digits(rest, acc * pow10_len(m) + m),
    decreases m,
{
    let s = nat_chars(m) + rest;
    if m < 10 {
        lemma_digit_char(m as int);
        assert(s.first() == digit_char(m as int));
        assert(s.drop_first() =~= rest);
        assert(parse_digits(s, acc) == parse_digits(rest, acc * 10 + m));
    } else {
        lemma_digit_char((m % 10) as int);
        let d = digit_char((m % 10) as int);
        let head = nat_chars(m / 10);
        assert(nat_chars(m) == head + seq![d]);
        assert(s =~= head + (seq![d] + rest));
        lemma_digits_compose(m / 10, seq![d] + rest, acc);
        let mid = acc * pow10_len(m / 10) + m / 10;
        assert(parse_digits(s, acc) == parse_digits(seq![d] + rest, mid));
        assert((seq![d] + rest).first() == d);
        assert((seq![d] + rest).drop_first() =~= rest);
        assert(parse_digits(seq![d] + rest, mid) == parse_digits(rest, mid * 10 + (m % 10)));
        lemma_fundamental_div_mod(m as int, 10);
        assert(mid * 10 + (m % 10) == acc * pow10_len(m) + m) by (nonlinear_arith)
            requires
                mid == acc * pow10_len(m / 10) + m / 10,
                pow10_len(m) == 10 * pow10_len(m / 10),
                m == 10 * (m as int / 10) + (m as int % 10),
                m as int / 10 == m / 10,
                m as int % 10 == m % 10,
        ;
    }
}

/// Law: a decimal number reads back as itself when what follows does not
/// begin with a digit.
pub proof fn lemma_int_round_trip(n: int, rest: Seq<char>)
    requires
        rest.len() == 0 || !is_digit(rest.first()),
    ensures
        parse_int(int_chars(n) + rest) == Some((n, rest)),
{
    if n < 0 {
        let m = (-n) as nat;
        let s = int_chars(n) + rest;
        lemma_nat_chars_head(m);
        assert(s.first() == '-');
        assert(s[1] == nat_chars(m).first());
        assert(s.drop_first() =~= nat_chars(m) + rest);
        lemma_digits_compose(m, rest, 0);
        assert(parse_digits(rest, 0 * pow10_len(m) + m) == (m as int, rest));
    } else {
        let m = n as nat;
        let s = int_chars(n) + rest;
        lemma_nat_chars_head(m);
        assert(s.first() == nat_chars(m).first());
        assert(s =~= nat_chars(m) + rest);
        assert(s.first() != '-');
        lemma_digits_compose(m, rest, 0);
        assert(parse_digits(rest, 0 * pow10_len(m) + m) == (m as int, rest));
    }
}

proof fn lemma_parse_literal_fails_at(s: Seq<char>, lit: Seq<char>, i: int)
    requires
        0 <= i < s.len(),
        i < lit.len(),
        s[i] != lit[i],
    ensures
        parse_literal(s, lit) is None,
{
    if s.len() >= lit.len() && s.take(lit.len() as int) == lit {
        assert(s.take(lit.len() as int)[i] == s[i]);
    }
}

// ---------------------------------------------------------------------------
// Booleans and the `null` of a missing field.
// ---------------------------------------------------------------------------
pub open spec fn encode_bool(b: bool) -> Seq<char> {
    if b {
        "true"@
    } else {
        "false"@
    }
}

pub open spec fn parse_bool(s: Seq<char>) -> Option<(bool, Seq<char>)> {
    match parse_literal(s, "true"@) {
        Some(r) => Some((true, r)),
        None => match parse_literal(s, "false"@) {
            Some(r) => Some((false, r)),
            None => None,
        },
    }
}

pub proof fn lemma_bool_round_trip(b: bool, rest: Seq<char>)
    ensures
        parse_bool(encode_bool(b) + rest) == Some((b, rest)),
{
    reveal_strlit("true");
    reveal_strlit("false");
    if b {
        lemma_literal_round_trip("true"@, rest);
    } else {
        lemma_parse_literal_fails_at("false"@ + rest, "true"@, 0);
        lemma_literal_round_trip("false"@, rest);
    }
}

proof fn lemma_parse_bool_shrinks(s: Seq<char>)
    ensures
        parse_bool(s) matches Some(p) ==> p.1.len() < s.len(),
{
    reveal_strlit("true");
    reveal_strlit("false");
}

// ---------------------------------------------------------------------------
// Optional values: `null`, or the value itself.
// ---------------------------------------------------------------------------
pub open spec fn encode_opt_string(o: Option<Seq<char>>) -> Seq<char> {
    match o {
        None => "null"@,
        Some(v) => encode_string(v),
    }
}

pub open spec fn parse_opt_string(s: Seq<char>) -> Option<(Option<Seq<char>>, Seq<char>)> {
    match parse_literal(s, "null"@) {
        Some(r) => Some((None, r)),
        None => match parse_string(s) {
            Some(p) => Some((Some(p.0), p.1)),
            None => None,
        },
    }
}

pub proof fn lemma_opt_string_round_trip(o: Option<Seq<char>>, rest: Seq<char>)
    ensures
        parse_opt_string(encode_opt_string(o) + rest) == Some((o, rest)),
{
    reveal_strlit("null");
    match o {
        None => {
            lemma_literal_round_trip("null"@, rest);
        },
        Some(v) => {
            let s = encode_string(v) + rest;
            assert(s[0] == '"');
            lemma_parse_literal_fails_at(s, "null"@, 0);
            lemma_string_round_trip(v, rest);
        },
    }
}

proof fn lemma_parse_opt_string_shrinks(s: Seq<char>)
    ensures
        parse_opt_string(s) matches Some(p) ==> p.1.len() < s.len(),
{
    reveal_strlit("null");
    lemma_parse_string_shrinks(s);
}

pub open spec fn encode_opt_bool(o: Option<bool>) -> Seq<char> {
    match o {
        None => "null"@,
        Some(b) => encode_bool(b),
    }
}

pub open spec fn parse_opt_bool(s: Seq<char>) -> Option<(Option<bool>, Seq<char>)> {
    match parse_literal(s, "null"@) {
        Some(r) => Some((None, r)),
        None => match parse_bool(s) {
            Some(p) => Some((Some(p.0), p.1)),
            None => None,
        },
    }
}

pub proof fn lemma_opt_bool_round_trip(o: Option<bool>, rest: Seq<char>)
    ensures
        parse_opt_bool(encode_opt_bool(o) + rest) == Some((o, rest)),
{
    reveal_strlit("null");
    reveal_strlit("true");
    reveal_strlit("false");
    match o {
        None => {
            lemma_literal_round_trip("null"@, rest);
        },
        Some(b) => {
            let s = encode_bool(b) + rest;
            assert(s[0] != 'n');
            lemma_parse_literal_fails_at(s, "null"@, 0);
            lemma_bool_round_trip(b, rest);
        },
    }
}

/// A decimal number within the range of the stored ratings.
pub open spec fn parse_i32(s: Seq<char>) -> Option<(i32, Seq<char>)> {
    match parse_int(s) {
        None => None,
        Some((n, rest)) => if i32::MIN <= n <= i32::MAX {
            Some((n as i32, rest))
        } else {
            None
        },
    }
}

pub open spec fn encode_opt_i32(o: Option<i32>) -> Seq<char> {
    match o {
        None => "null"@,
        Some(n) => int_chars(n as int),
    }
}

pub open spec fn parse_opt_i32(s: Seq<char>) -> Option<(Option<i32>, Seq<char>)> {
    match parse_literal(s, "null"@) {
        Some(r) => Some((None, r)),
        None => match parse_i32(s) {
            Some(p) => Some((Some(p.0), p.1)),
            None => None,
        },
    }
}

pub proof fn lemma_opt_i32_round_trip(o: Option<i32>, rest: Seq<char>)
    requires
        rest.len() == 0 || !is_digit(rest.first()),
    ensures
        parse_opt_i32(encode_opt_i32(o) + rest) == Some((o, rest)),
{
    reveal_strlit("null");
    match o {
        None => {
            lemma_literal_round_trip("null"@, rest);
        },
        Some(n) => {
            let s = int_chars(n as int) + rest;
            if n < 0 {
                assert(s[0] == '-');
            } else {
                lemma_nat_chars_head(n as nat);
                assert(is_digit(s[0]));
            }
            assert(s[0] != 'n');
            lemma_parse_literal_fails_at(s, "null"@, 0);
            lemma_int_round_trip(n as int, rest);
        },
    }
}

// ---------------------------------------------------------------------------
// The objects inside record fields: file-list entries and play sessions.
// ---------------------------------------------------------------------------
pub open spec fn encode_file_item(f: FileStateView) -> Seq<char> {
    "{\"is_enabled\":"@ + encode_bool(f.is_enabled) + ",\"relative\":"@ + encode_string(f.relative)
        + ",\"absolute\":"@ + encode_string(f.absolute) + "}"@
}

pub open spec fn parse_file_item(s: Seq<char>) -> Option<(FileStateView, Seq<char>)> {
    match parse_literal(s, "{\"is_enabled\":"@) {
        None => None,
        Some(s1) => match parse_bool(s1) {
            None => None,
            Some((is_enabled, s2)) => match parse_literal(s2, ",\"relative\":"@) {
                None => None,
                Some(s3) => match parse_string(s3) {
                    None => None,
                    Some((relative, s4)) => match parse_literal(s4, ",\"absolute\":"@) {
                        None => None,
                        Some(s5) => match parse_string(s5) {
                            None => None,
                            Some((absolute, s6)) => match parse_literal(s6, "}"@) {
                                None => None,
                                Some(s7) => Some(
                                    (FileStateView { is_enabled, relative, absolute }, s7),
                                ),
                            },
                        },
                    },
                },
            },
        },
    }
}

pub proof fn lemma_file_item_round_trip(f: FileStateView, rest: Seq<char>)
    ensures
        parse_file_item(encode_file_item(f) + rest) == Some((f, rest)),
{
    let s6 = "}"@ + rest;
    let s5 = encode_string(f.absolute) + s6;
    let s4 = ",\"absolute\":"@ + s5;
    let s3 = encode_string(f.relative) + s4;
    let s2 = ",\"relative\":"@ + s3;
    let s1 = encode_bool(f.is_enabled) + s2;
    let s0 = "{\"is_enabled\":"@ + s1;
    assert(encode_file_item(f) + rest =~= s0);
    lemma_literal_round_trip("{\"is_enabled\":"@, s1);
    lemma_bool_round_trip(f.is_enabled, s2);
    lemma_literal_round_trip(",\"relative\":"@, s3);
    lemma_string_round_trip(f.relative, s4);
    lemma_literal_round_trip(",\"absolute\":"@, s5);
    lemma_string_round_trip(f.absolute, s6);
    lemma_literal_round_trip("}"@, rest);
}

proof fn lemma_parse_file_item_shrinks(s: Seq<char>)
    ensures
        parse_file_item(s) matches Some(p) ==> p.1.len() < s.len(),
{
    reveal_strlit("{\"is_enabled\":");
    if parse_file_item(s) is Some {
        let s1 = parse_literal(s, "{\"is_enabled\":"@).unwrap();
        lemma_parse_bool_shrinks(s1);
        let (_, s2) = parse_bool(s1).unwrap();
        let s3 = parse_literal(s2, ",\"relative\":"@).unwrap();
        lemma_parse_string_shrinks(s3);
        let (_, s4) = parse_string(s3).unwrap();
        let s5 = parse_literal(s4, ",\"absolute\":"@).unwrap();
        lemma_parse_string_shrinks(s5);
    }
}

pub open spec fn encode_session_entry(e: PlaySessionEntryView) -> Seq<char> {
    "{\"started_at\":"@ + encode_opt_string(e.started_at) + ",\"ended_at\":"@
        + encode_opt_string(e.ended_at) + "}"@
}

pub open spec fn parse_session_entry(s: Seq<char>) -> Option<(PlaySessionEntryView, Seq<char>)> {
    match parse_literal(s, "{\"started_at\":"@) {
        None => None,
        Some(s1) => match parse_opt_string(s1) {
            None => None,
            Some((started_at, s2)) => match parse_literal(s2, ",\"ended_at\":"@) {
                None => None,
                Some(s3) => match parse_opt_string(s3) {
                    None => None,
                    Some((ended_at, s4)) => match parse_literal(s4, "}"@) {
                        None => None,
                        Some(s5) => Some((PlaySessionEntryView { started_at, ended_at }, s5)),
                    },
                },
            },
        },
    }
}

pub proof fn lemma_session_entry_round_trip(e: PlaySessionEntryView, rest: Seq<char>)
    ensures
        parse_session_entry(encode_session_entry(e) + rest) == Some((e, rest)),
{
    let s4 = "}"@ + rest;
    let s3 = encode_opt_string(e.ended_at) + s4;
    let s2 = ",\"ended_at\":"@ + s3;
    let s1 = encode_opt_string(e.started_at) + s2;
    let s0 = "{\"started_at\":"@ + s1;
    assert(encode_session_entry(e) + rest =~= s0);
    lemma_literal_round_trip("{\"started_at\":"@, s1);
    lemma_opt_string_round_trip(e.started_at, s2);
    lemma_literal_round_trip(",\"ended_at\":"@, s3);
    lemma_opt_string_round_trip(e.ended_at, s4);
    lemma_literal_round_trip("}"@, rest);
}

proof fn lemma_parse_session_entry_shrinks(s: Seq<char>)
    ensures
        parse_session_entry(s) matches Some(p) ==> p.1.len() < s.len(),
{
    reveal_strlit("{\"started_at\":");
    if parse_session_entry(s) is Some {
        let s1 = parse_literal(s, "{\"started_at\":"@).unwrap();
        lemma_parse_opt_string_shrinks(s1);
        let (_, s2) = parse_opt_string(s1).unwrap();
        let s3 = parse_literal(s2, ",\"ended_at\":"@).unwrap();
        lemma_parse_opt_string_shrinks(s3);
    }
}

// ---------------------------------------------------------------------------
// Arrays.
// ---------------------------------------------------------------------------
pub open spec fn encode_string_items(vs: Seq<Seq<char>>) -> Seq<char>
    decreases vs.len(),
{
    if vs.len() == 0 {
        Seq::empty()
    } else if vs.len() == 1 {
        encode_string(vs.first())
    } else {
        encode_string(vs.first()) + seq![','] + encode_string_items(vs.drop_first())
    }
}

pub open spec fn encode_string_array(vs: Seq<Seq<char>>) -> Seq<char> {
    seq!['['] + encode_string_items(vs) + seq![']']
}

#[via_fn]
proof fn parse_string_items_dec(s: Seq<char>) {
    lemma_parse_string_shrinks(s);
}

/// Consumes `"a","b",...]` — the items of a non-empty array and its
/// closing bracket.
pub open spec fn parse_string_items(s: Seq<char>) -> Option<(Seq<Seq<char>>, Seq<char>)>
    decreases s.len(),
    via parse_string_items_dec
{
    match parse_string(s) {
        None => None,
        Some((v, rest)) => if rest.len() > 0 && rest.first() == ',' {
            match parse_string_items(rest.drop_first()) {
                None => None,
                Some((vs, rest2)) => Some((seq![v] + vs, rest2)),
            }
        } else if rest.len() > 0 && rest.first() == ']' {
            Some((seq![v], rest.drop_first()))
        } else {
            None
        },
    }
}

pub open spec fn parse_string_array(s: Seq<char>) -> Option<(Seq<Seq<char>>, Seq<char>)> {
    if s.len() >= 2 && s.first() == '[' && s[1] == ']' {
        Some((Seq::empty(), s.skip(2)))
    } else if s.len() > 0 && s.first() == '[' {
        parse_string_items(s.drop_first())
    } else {
        None
    }
}

#[verifier::rlimit(60)]
proof fn lemma_string_items_round_trip(vs: Seq<Seq<char>>, rest: Seq<char>)
    requires
        vs.len() >= 1,
    ensures
        parse_string_items(encode_string_items(vs) + seq![']'] + rest) == Some((vs, rest)),
    decreases vs.len(),
{
    let s = encode_string_items(vs) + seq![']'] + rest;
    if vs.len() == 1 {
        assert(s =~= encode_string(vs.first()) + (seq![']'] + rest));
        lemma_string_round_trip(vs.first(), seq![']'] + rest);
        assert((seq![']'] + rest).first() == ']');
        assert((seq![']'] + rest).drop_first() =~= rest);
        assert(seq![vs.first()] =~= vs);
    } else {
        let tail = seq![','] + encode_string_items(vs.drop_first()) + seq![']'] + rest;
        assert(s =~= encode_string(vs.first()) + tail);
        lemma_string_round_trip(vs.first(), tail);
        assert(tail.first() == ',');
        assert(tail.drop_first() =~= encode_string_items(vs.drop_first()) + seq![']'] + rest);
        lemma_string_items_round_trip(vs.drop_first(), rest);
        assert(seq![vs.first()] + vs.drop_first() =~= vs);
    }
}

pub proof fn lemma_string_array_round_trip(vs: Seq<Seq<char>>, rest: Seq<char>)
    ensures
        parse_string_array(encode_string_array(vs) + rest) == Some((vs, rest)),
{
    let s = encode_string_array(vs) + rest;
    assert(s.first() == '[');
    if vs.len() == 0 {
        assert(encode_string_items(vs) =~= Seq::empty());
        assert(s =~= seq!['[', ']'] + rest);
        assert(s[1] == ']');
        assert(s.skip(2) =~= rest);
    } else {
        assert(s[1] == encode_string(vs.first())[0]);
        assert(s[1] == '"');
        assert(s.drop_first() =~= encode_string_items(vs) + seq![']'] + rest);
        lemma_string_items_round_trip(vs, rest);
    }
}

pub open spec fn encode_file_items(vs: Seq<FileStateView>) -> Seq<char>
    decreases vs.len(),
{
    if vs.len() == 0 {
        Seq::empty()
    } else if vs.len() == 1 {
        encode_file_item(vs.first())
    } else {
        encode_file_item(vs.first()) + seq![','] + encode_file_items(vs.drop_first())
    }
}

pub open spec fn encode_file_array(vs: Seq<FileStateView>) -> Seq<char> {
    seq!['['] + encode_file_items(vs) + seq![']']
}

#[via_fn]
proof fn parse_file_items_dec(s: Seq<char>) {
    lemma_parse_file_item_shrinks(s);
}

pub open spec fn parse_file_items(s: Seq<char>) -> Option<(Seq<FileStateView>, Seq<char>)>
    decreases s.len(),
    via parse_file_items_dec
{
    match parse_file_item(s) {
        None => None,
        Some((v, rest)) => if rest.len() > 0 && rest.first() == ',' {
            match parse_file_items(rest.drop_first()) {
                None => None,
                Some((vs, rest2)) => Some((seq![v] + vs, rest2)),
            }
        } else if rest.len() > 0 && rest.first() == ']' {
            Some((seq![v], rest.drop_first()))
        } else {
            None
        },
    }
}

pub open spec fn parse_file_array(s: Seq<char>) -> Option<(Seq<FileStateView>, Seq<char>)> {
    if s.len() >= 2 && s.first() == '[' && s[1] == ']' {
        Some((Seq::empty(), s.skip(2)))
    } else if s.len() > 0 && s.first() == '[' {
        parse_file_items(s.drop_first())
    } else {
        None
    }
}

#[verifier::rlimit(60)]
proof fn lemma_file_items_round_trip(vs: Seq<FileStateView>, rest: Seq<char>)
    requires
        vs.len() >= 1,
    ensures
        parse_file_items(encode_file_items(vs) + seq![']'] + rest) == Some((vs, rest)),
    decreases vs.len(),
{
    let s = encode_file_items(vs) + seq![']'] + rest;
    if vs.len() == 1 {
        assert(s =~= encode_file_item(vs.first()) + (seq![']'] + rest));
        lemma_file_item_round_trip(vs.first(), seq![']'] + rest);
        assert((seq![']'] + rest).first() == ']');
        assert((seq![']'] + rest).drop_first() =~= rest);
        assert(seq![vs.first()] =~= vs);
    } else {
        let tail = seq![','] + encode_file_items(vs.drop_first()) + seq![']'] + rest;
        assert(s =~= encode_file_item(vs.first()) + tail);
        lemma_file_item_round_trip(vs.first(), tail);
        assert(tail.first() == ',');
        assert(tail.drop_first() =~= encode_file_items(vs.drop_first()) + seq![']'] + rest);
        lemma_file_items_round_trip(vs.drop_first(), rest);
        assert(seq![vs.first()] + vs.drop_first() =~= vs);
    }
}

pub proof fn lemma_file_array_round_trip(vs: Seq<FileStateView>, rest: Seq<char>)
    ensures
        parse_file_array(encode_file_array(vs) + rest) == Some((vs, rest)),
{
    let s = encode_file_array(vs) + rest;
    assert(s.first() == '[');
    if vs.len() == 0 {
        assert(encode_file_items(vs) =~= Seq::empty());
        assert(s =~= seq!['[', ']'] + rest);
        assert(s[1] == ']');
        assert(s.skip(2) =~= rest);
    } else {
        reveal_strlit("{\"is_enabled\":");
        assert(s[1] == encode_file_item(vs.first())[0]);
        assert(s[1] == '{');
        assert(s.drop_first() =~= encode_file_items(vs) + seq![']'] + rest);
        lemma_file_items_round_trip(vs, rest);
    }
}

pub open spec fn encode_session_items(vs: Seq<PlaySessionEntryView>) -> Seq<char>
    decreases vs.len(),
{
    if vs.len() == 0 {
        Seq::empty()
    } else if vs.len() == 1 {
        encode_session_entry(vs.first())
    } else {
        encode_session_entry(vs.first()) + seq![','] + encode_session_items(vs.drop_first())
    }
}

pub open spec fn encode_session_array(vs: Seq<PlaySessionEntryView>) -> Seq<char> {
    seq!['['] + encode_session_items(vs) + seq![']']
}

#[via_fn]
proof fn parse_session_items_dec(s: Seq<char>) {
    lemma_parse_session_entry_shrinks(s);
}

pub open spec fn parse_session_items(s: Seq<char>) -> Option<
    (Seq<PlaySessionEntryView>, Seq<char>),
>
    decreases s.len(),
    via parse_session_items_dec
{
    match parse_session_entry(s) {
        None => None,
        Some((v, rest)) => if rest.len() > 0 && rest.first() == ',' {
            match parse_session_items(rest.drop_first()) {
                None => None,
                Some((vs, rest2)) => Some((seq![v] + vs, rest2)),
            }
        } else if rest.len() > 0 && rest.first() == ']' {
            Some((seq![v], rest.drop_first()))
        } else {
            None
        },
    }
}

pub open spec fn parse_session_array(s: Seq<char>) -> Option<
    (Seq<PlaySessionEntryView>, Seq<char>),
> {
    if s.len() >= 2 && s.first() == '[' && s[1] == ']' {
        Some((Seq::empty(), s.skip(2)))
    } else if s.len() > 0 && s.first() == '[' {
        parse_session_items(s.drop_first())
    } else {
        None
    }
}

#[verifier::rlimit(60)]
proof fn lemma_session_items_round_trip(vs: Seq<PlaySessionEntryView>, rest: Seq<char>)
    requires
        vs.len() >= 1,
    ensures
        parse_session_items(encode_session_items(vs) + seq![']'] + rest) == Some((vs, rest)),
    decreases vs.len(),
{
    let s = encode_session_items(vs) + seq![']'] + rest;
    if vs.len() == 1 {
        assert(s =~= encode_session_entry(vs.first()) + (seq![']'] + rest));
        lemma_session_entry_round_trip(vs.first(), seq![']'] + rest);
        assert((seq![']'] + rest).first() == ']');
        assert((seq![']'] + rest).drop_first() =~= rest);
        assert(seq![vs.first()] =~= vs);
    } else {
        let tail = seq![','] + encode_session_items(vs.drop_first()) + seq![']'] + rest;
        assert(s =~= encode_session_entry(vs.first()) + tail);
        lemma_session_entry_round_trip(vs.first(), tail);
        assert(tail.first() == ',');
        assert(tail.drop_first() =~= encode_session_items(vs.drop_first()) + seq![']'] + rest);
        lemma_session_items_round_trip(vs.drop_first(), rest);
        assert(seq![vs.first()] + vs.drop_first() =~= vs);
    }
}

pub proof fn lemma_session_array_round_trip(vs: Seq<PlaySessionEntryView>, rest: Seq<char>)
    ensures
        parse_session_array(encode_session_array(vs) + rest) == Some((vs, rest)),
{
    let s = encode_session_array(vs) + rest;
    assert(s.first() == '[');
    if vs.len() == 0 {
        assert(encode_session_items(vs) =~= Seq::empty());
        assert(s =~= seq!['[', ']'] + rest);
        assert(s[1] == ']');
        assert(s.skip(2) =~= rest);
    } else {
        reveal_strlit("{\"started_at\":");
        assert(s[1] == encode_session_entry(vs.first())[0]);
        assert(s[1] == '{');
        assert(s.drop_first() =~= encode_session_items(vs) + seq![']'] + rest);
        lemma_session_items_round_trip(vs, rest);
    }
}

pub open spec fn encode_opt_string_array(o: Option<Seq<Seq<char>>>) -> Seq<char> {
    match o {
        None => "null"@,
        Some(vs) => encode_string_array(vs),
    }
}

pub open spec fn parse_opt_string_array(s: Seq<char>) -> Option<
    (Option<Seq<Seq<char>>>, Seq<char>),
> {
    match parse_literal(s, "null"@) {
        Some(r) => Some((None, r)),
        None => match parse_string_array(s) {
            Some(p) => Some((Some(p.0), p.1)),
            None => None,
        },
    }
}

pub proof fn lemma_opt_string_array_round_trip(o: Option<Seq<Seq<char>>>, rest: Seq<char>)
    ensures
        parse_opt_string_array(encode_opt_string_array(o) + rest) == Some((o, rest)),
{
    reveal_strlit("null");
    match o {
        None => {
            lemma_literal_round_trip("null"@, rest);
        },
        Some(vs) => {
            let s = encode_string_array(vs) + rest;
            assert(s[0] == '[');
            lemma_parse_literal_fails_at(s, "null"@, 0);
            lemma_string_array_round_trip(vs, rest);
        },
    }
}

pub open spec fn encode_opt_file_array(o: Option<Seq<FileStateView>>) -> Seq<char> {
    match o {
        None => "null"@,
        Some(vs) => encode_file_array(vs),
    }
}

pub open spec fn parse_opt_file_array(s: Seq<char>) -> Option<
    (Option<Seq<FileStateView>>, Seq<char>),
> {
    match parse_literal(s, "null"@) {
        Some(r) => Some((None, r)),
        None => match parse_file_array(s) {
            Some(p) => Some((Some(p.0), p.1)),
            None => None,
        },
    }
}

pub proof fn lemma_opt_file_array_round_trip(o: Option<Seq<FileStateView>>, rest: Seq<char>)
    ensures
        parse_opt_file_array(encode_opt_file_array(o) + rest) == Some((o, rest)),
{
    reveal_strlit("null");
    match o {
        None => {
            lemma_literal_round_trip("null"@, rest);
        },
        Some(vs) => {
            let s = encode_file_array(vs) + rest;
            assert(s[0] == '[');
            lemma_parse_literal_fails_at(s, "null"@, 0);
            lemma_file_array_round_trip(vs, rest);
        },
    }
}

pub open spec fn encode_opt_session_array(o: Option<Seq<PlaySessionEntryView>>) -> Seq<char> {
    match o {
        None => "null"@,
        Some(vs) => encode_session_array(vs),
    }
}

pub open spec fn parse_opt_session_array(s: Seq<char>) -> Option<
    (Option<Seq<PlaySessionEntryView>>, Seq<char>),
> {
    match parse_literal(s, "null"@) {
        Some(r) => Some((None, r)),
        None => match parse_session_array(s) {
            Some(p) => Some((Some(p.0), p.1)),
            None => None,
        },
    }
}

pub proof fn lemma_opt_session_array_round_trip(
    o: Option<Seq<PlaySessionEntryView>>,
    rest: Seq<char>,
)
    ensures
        parse_opt_session_array(encode_opt_session_array(o) + rest) == Some((o, rest)),
{
    reveal_strlit("null");
    match o {
        None => {
            lemma_literal_round_trip("null"@, rest);
        },
        Some(vs) => {
            let s = encode_session_array(vs) + rest;
            assert(s[0] == '[');
            lemma_parse_literal_fails_at(s, "null"@, 0);
            lemma_session_array_round_trip(vs, rest);
        },
    }
}

// ---------------------------------------------------------------------------
// The records themselves.
// ---------------------------------------------------------------------------
/// The record of a game about which nothing is stored.
pub open spec fn empty_game_meta() -> GameMetaView {
    GameMetaView {
        id: None,
        name: None,
        rating: None,
        description: None,
        notes: None,
        tags: None,
        iwad_id: None,
        source_port: None,
        extra_mod_ids: None,
        previous_file_state: None,
        use_custom_config: None,
        installed_at: None,
    }
}

/// The stored text of a game record: one object, every field in a fixed
/// order, `null` for a missing field.
pub open spec fn encode_game_meta_text(m: GameMetaView) -> Seq<char> {
    "{\"id\":"@ + encode_opt_string(m.id) + ",\"name\":"@ + encode_opt_string(m.name)
        + ",\"rating\":"@ + encode_opt_i32(m.rating) + ",\"description\":"@ + encode_opt_string(
        m.description,
    ) + ",\"notes\":"@ + encode_opt_string(m.notes) + encode_game_meta_tail_text(m)
}

/// The stored text of a game record from its `tags` field on.
pub open spec fn encode_game_meta_tail_text(m: GameMetaView) -> Seq<char> {
    ",\"tags\":"@ + encode_opt_string_array(m.tags) + ",\"iwad_id\":"@ + encode_opt_string(
        m.iwad_id,
    ) + ",\"source_port\":"@ + encode_opt_string(m.source_port) + ",\"extra_mod_ids\":"@
        + encode_opt_string_array(m.extra_mod_ids) + encode_game_meta_close_text(m)
}

/// The stored text of a game record from its `previous_file_state` field
/// on.
pub open spec fn encode_game_meta_close_text(m: GameMetaView) -> Seq<char> {
    ",\"previous_file_state\":"@ + encode_opt_file_array(m.previous_file_state)
        + ",\"use_custom_config\":"@ + encode_opt_bool(m.use_custom_config)
        + ",\"installed_at\":"@ + encode_opt_string(m.installed_at) + "}"@
}

/// Consumes a stored game record: the empty object, or the full fixed
/// shape.
pub open spec fn parse_game_meta_obj(s: Seq<char>) -> Option<(GameMetaView, Seq<char>)> {
    match parse_literal(s, "{}"@) {
        Some(rest) => Some((empty_game_meta(), rest)),
        None => match parse_literal(s, "{\"id\":"@) {
            None => None,
            Some(s1) => match parse_opt_string(s1) {
                None => None,
                Some((id, s2)) => match parse_literal(s2, ",\"name\":"@) {
                    None => None,
                    Some(s3) => match parse_opt_string(s3) {
                        None => None,
                        Some((name, s4)) => match parse_literal(s4, ",\"rating\":"@) {
                            None => None,
                            Some(s5) => match parse_opt_i32(s5) {
                                None => None,
                                Some((rating, s6)) => match parse_literal(
                                    s6,
                                    ",\"description\":"@,
                                ) {
                                    None => None,
                                    Some(s7) => match parse_opt_string(s7) {
                                        None => None,
                                        Some((description, s8)) => match parse_literal(
                                            s8,
                                            ",\"notes\":"@,
                                        ) {
                                            None => None,
                                            Some(s9) => match parse_opt_string(s9) {
                                                None => None,
                                                Some((notes, s10)) => parse_game_meta_tail(
                                                    s10,
                                                    GameMetaView {
                                                        id,
                                                        name,
                                                        rating,
                                                        description,
                                                        notes,
                                                        ..empty_game_meta()
                                                    },
                                                ),
                                            },
                                        },
                                    },
                                },
                            },
                        },
                    },
                },
            },
        },
    }
}

/// Consumes the second half of a stored game record, from the `tags` field
/// on, completing `head`.
pub open spec fn parse_game_meta_tail(s: Seq<char>, head: GameMetaView) -> Option<
    (GameMetaView, Seq<char>),
> {
    match parse_literal(s, ",\"tags\":"@) {
        None => None,
        Some(s1) => match parse_opt_string_array(s1) {
            None => None,
            Some((tags, s2)) => match parse_literal(s2, ",\"iwad_id\":"@) {
                None => None,
                Some(s3) => match parse_opt_string(s3) {
                    None => None,
                    Some((iwad_id, s4)) => match parse_literal(s4, ",\"source_port\":"@) {
                        None => None,
                        Some(s5) => match parse_opt_string(s5) {
                            None => None,
                            Some((source_port, s6)) => match parse_literal(
                                s6,
                                ",\"extra_mod_ids\":"@,
                            ) {
                                None => None,
                                Some(s7) => match parse_opt_string_array(s7) {
                                    None => None,
                                    Some((extra_mod_ids, s8)) => parse_game_meta_close(
                                        s8,
                                        GameMetaView {
                                            tags,
                                            iwad_id,
                                            source_port,
                                            extra_mod_ids,
                                            ..head
                                        },
                                    ),
                                },
                            },
                        },
                    },
                },
            },
        },
    }
}

/// Consumes the closing part of a stored game record, from the
/// `previous_file_state` field on, completing `head`.
pub open spec fn parse_game_meta_close(s: Seq<char>, head: GameMetaView) -> Option<
    (GameMetaView, Seq<char>),
> {
    match parse_literal(s, ",\"previous_file_state\":"@) {
        None => None,
        Some(s1) => match parse_opt_file_array(s1) {
            None => None,
            Some((previous_file_state, s2)) => match parse_literal(s2, ",\"use_custom_config\":"@) {
                None => None,
                Some(s3) => match parse_opt_bool(s3) {
                    None => None,
                    Some((use_custom_config, s4)) => match parse_literal(s4, ",\"installed_at\":"@) {
                        None => None,
                        Some(s5) => match parse_opt_string(s5) {
                            None => None,
                            Some((installed_at, s6)) => match parse_literal(s6, "}"@) {
                                None => None,
                                Some(s7) => Some(
                                    (
                                        GameMetaView {
                                            previous_file_state,
                                            use_custom_config,
                                            installed_at,
                                            ..head
                                        },
                                        s7,
                                    ),
                                ),
                            },
                        },
                    },
                },
            },
        },
    }
}

#[verifier::rlimit(100)]
#[verifier::spinoff_prover]
proof fn lemma_game_meta_close_round_trip(m: GameMetaView, head: GameMetaView, rest: Seq<char>)
    ensures
        parse_game_meta_close(encode_game_meta_close_text(m) + rest, head) == Some(
            (
                GameMetaView {
                    previous_file_state: m.previous_file_state,
                    use_custom_config: m.use_custom_config,
                    installed_at: m.installed_at,
                    ..head
                },
                rest,
            ),
        ),
{
    let t6 = "}"@ + rest;
    let t5 = encode_opt_string(m.installed_at) + t6;
    let s5 = ",\"installed_at\":"@ + t5;
    let t4 = encode_opt_bool(m.use_custom_config) + s5;
    let s4 = ",\"use_custom_config\":"@ + t4;
    let t3 = encode_opt_file_array(m.previous_file_state) + s4;
    let s3 = ",\"previous_file_state\":"@ + t3;
    assert(encode_game_meta_close_text(m) + rest =~= s3);
    lemma_literal_round_trip(",\"previous_file_state\":"@, t3);
    lemma_opt_file_array_round_trip(m.previous_file_state, s4);
    lemma_literal_round_trip(",\"use_custom_config\":"@, t4);
    lemma_opt_bool_round_trip(m.use_custom_config, s5);
    lemma_literal_round_trip(",\"installed_at\":"@, t5);
    lemma_opt_string_round_trip(m.installed_at, t6);
    lemma_literal_round_trip("}"@, rest);
}

#[verifier::rlimit(100)]
#[verifier::spinoff_prover]
proof fn lemma_game_meta_tail_round_trip(m: GameMetaView, head: GameMetaView, rest: Seq<char>)
    ensures
        parse_game_meta_tail(encode_game_meta_tail_text(m) + rest, head) == Some(
            (
                GameMetaView {
                    tags: m.tags,
                    iwad_id: m.iwad_id,
                    source_port: m.source_port,
                    extra_mod_ids: m.extra_mod_ids,
                    previous_file_state: m.previous_file_state,
                    use_custom_config: m.use_custom_config,
                    installed_at: m.installed_at,
                    ..head
                },
                rest,
            ),
        ),
{
    let t9 = encode_game_meta_close_text(m) + rest;
    let t8 = encode_opt_string_array(m.extra_mod_ids) + t9;
    let s9 = ",\"extra_mod_ids\":"@ + t8;
    let t7 = encode_opt_string(m.source_port) + s9;
    let s8 = ",\"source_port\":"@ + t7;
    let t6 = encode_opt_string(m.iwad_id) + s8;
    let s7 = ",\"iwad_id\":"@ + t6;
    let t5 = encode_opt_string_array(m.tags) + s7;
    let s6 = ",\"tags\":"@ + t5;
    assert(encode_game_meta_tail_text(m) + rest =~= s6);
    lemma_literal_round_trip(",\"tags\":"@, t5);
    lemma_opt_string_array_round_trip(m.tags, s7);
    lemma_literal_round_trip(",\"iwad_id\":"@, t6);
    lemma_opt_string_round_trip(m.iwad_id, s8);
    lemma_literal_round_trip(",\"source_port\":"@, t7);
    lemma_opt_string_round_trip(m.source_port, s9);
    lemma_literal_round_trip(",\"extra_mod_ids\":"@, t8);
    lemma_opt_string_array_round_trip(m.extra_mod_ids, t9);
    let mid = GameMetaView {
        tags: m.tags,
        iwad_id: m.iwad_id,
        source_port: m.source_port,
        extra_mod_ids: m.extra_mod_ids,
        ..head
    };
    lemma_game_meta_close_round_trip(m, mid, rest);
    assert(GameMetaView {
        previous_file_state: m.previous_file_state,
        use_custom_config: m.use_custom_config,
        installed_at: m.installed_at,
        ..mid
    } =~= (GameMetaView {
        tags: m.tags,
        iwad_id: m.iwad_id,
        source_port: m.source_port,
        extra_mod_ids: m.extra_mod_ids,
        previous_file_state: m.previous_file_state,
        use_custom_config: m.use_custom_config,
        installed_at: m.installed_at,
        ..head
    }));
}

/// Law: a stored game record reads back as itself, field for field — in
/// particular the order of `previous_file_state` is preserved exactly.
#[verifier::rlimit(100)]
#[verifier::spinoff_prover]
pub proof fn lemma_game_meta_obj_round_trip(m: GameMetaView, rest: Seq<char>)
    ensures
        parse_game_meta_obj(encode_game_meta_text(m) + rest) == Some((m, rest)),
{
    let s6 = encode_game_meta_tail_text(m) + rest;
    let t4 = encode_opt_string(m.notes) + s6;
    let s5 = ",\"notes\":"@ + t4;
    let t3 = encode_opt_string(m.description) + s5;
    let s4 = ",\"description\":"@ + t3;
    let t2 = encode_opt_i32(m.rating) + s4;
    let s3 = ",\"rating\":"@ + t2;
    let t1 = encode_opt_string(m.name) + s3;
    let s2 = ",\"name\":"@ + t1;
    let t0 = encode_opt_string(m.id) + s2;
    let s0 = "{\"id\":"@ + t0;
    assert(encode_game_meta_text(m) + rest =~= s0);
    reveal_strlit("{}");
    reveal_strlit("{\"id\":");
    assert(s0[1] == '"');
    lemma_parse_literal_fails_at(s0, "{}"@, 1);
    lemma_literal_round_trip("{\"id\":"@, t0);
    lemma_opt_string_round_trip(m.id, s2);
    lemma_literal_round_trip(",\"name\":"@, t1);
    lemma_opt_string_round_trip(m.name, s3);
    lemma_literal_round_trip(",\"rating\":"@, t2);
    reveal_strlit(",\"description\":");
    assert(s4.len() == 0 || !is_digit(s4.first()));
    lemma_opt_i32_round_trip(m.rating, s4);
    lemma_literal_round_trip(",\"description\":"@, t3);
    lemma_opt_string_round_trip(m.description, s5);
    lemma_literal_round_trip(",\"notes\":"@, t4);
    lemma_opt_string_round_trip(m.notes, s6);
    let head = GameMetaView {
        id: m.id,
        name: m.name,
        rating: m.rating,
        description: m.description,
        notes: m.notes,
        ..empty_game_meta()
    };
    lemma_game_meta_tail_round_trip(m, head, rest);
    assert(parse_game_meta_obj(s0) matches Some(p) && p.0 =~= m && p.1 == rest);
}

/// The stored text of a source-port record.
pub open spec fn encode_source_port_text(p: SourcePortConfigView) -> Seq<char> {
    "{\"id\":"@ + encode_opt_string(p.id) + ",\"command\":"@ + encode_opt_string_array(p.command)
        + ",\"known_source_port_id\":"@ + encode_opt_string(p.known_source_port_id)
        + ",\"is_default\":"@ + encode_opt_bool(p.is_default) + "}"@
}

/// The record of a source port about which nothing is stored.
pub open spec fn empty_source_port() -> SourcePortConfigView {
    SourcePortConfigView { id: None, command: None, known_source_port_id: None, is_default: None }
}

/// Consumes a stored source-port record.
pub open spec fn parse_source_port_obj(s: Seq<char>) -> Option<(SourcePortConfigView, Seq<char>)> {
    match parse_literal(s, "{}"@) {
        Some(rest) => Some((empty_source_port(), rest)),
        None => match parse_literal(s, "{\"id\":"@) {
            None => None,
            Some(s1) => match parse_opt_string(s1) {
                None => None,
                Some((id, s2)) => match parse_literal(s2, ",\"command\":"@) {
                    None => None,
                    Some(s3) => match parse_opt_string_array(s3) {
                        None => None,
                        Some((command, s4)) => match parse_literal(
                            s4,
                            ",\"known_source_port_id\":"@,
                        ) {
                            None => None,
                            Some(s5) => match parse_opt_string(s5) {
                                None => None,
                                Some((known_source_port_id, s6)) => match parse_literal(
                                    s6,
                                    ",\"is_default\":"@,
                                ) {
                                    None => None,
                                    Some(s7) => match parse_opt_bool(s7) {
                                        None => None,
                                        Some((is_default, s8)) => match parse_literal(s8, "}"@) {
                                            None => None,
                                            Some(s9) => Some(
                                                (
                                                    SourcePortConfigView {
                                                        id,
                                                        command,
                                                        known_source_port_id,
                                                        is_default,
                                                    },
                                                    s9,
                                                ),
                                            ),
                                        },
                                    },
                                },
                            },
                        },
                    },
                },
            },
        },
    }
}

/// Law: a stored source-port record reads back as itself.
pub proof fn lemma_source_port_obj_round_trip(p: SourcePortConfigView, rest: Seq<char>)
    ensures
        parse_source_port_obj(encode_source_port_text(p) + rest) == Some((p, rest)),
{
    let t4 = "}"@ + rest;
    let t3 = encode_opt_bool(p.is_default) + t4;
    let s4 = ",\"is_default\":"@ + t3;
    let t2 = encode_opt_string(p.known_source_port_id) + s4;
    let s3 = ",\"known_source_port_id\":"@ + t2;
    let t1 = encode_opt_string_array(p.command) + s3;
    let s2 = ",\"command\":"@ + t1;
    let t0 = encode_opt_string(p.id) + s2;
    let s0 = "{\"id\":"@ + t0;
    assert(encode_source_port_text(p) + rest =~= s0);
    reveal_strlit("{}");
    reveal_strlit("{\"id\":");
    assert(s0[1] == '"');
    lemma_parse_literal_fails_at(s0, "{}"@, 1);
    lemma_literal_round_trip("{\"id\":"@, t0);
    lemma_opt_string_round_trip(p.id, s2);
    lemma_literal_round_trip(",\"command\":"@, t1);
    lemma_opt_string_array_round_trip(p.command, s3);
    lemma_literal_round_trip(",\"known_source_port_id\":"@, t2);
    lemma_opt_string_round_trip(p.known_source_port_id, s4);
    lemma_literal_round_trip(",\"is_default\":"@, t3);
    lemma_opt_bool_round_trip(p.is_default, t4);
    lemma_literal_round_trip("}"@, rest);
    assert(parse_source_port_obj(s0) matches Some(q) && q.0 =~= p && q.1 == rest);
}

/// The stored text of a game's play-session list.
pub open spec fn encode_play_session_text(l: PlaySessionListView) -> Seq<char> {
    "{\"sessions\":"@ + encode_opt_session_array(l.sessions) + "}"@
}

/// Consumes a stored play-session list.
pub open spec fn parse_play_session_obj(s: Seq<char>) -> Option<(PlaySessionListView, Seq<char>)> {
    match parse_literal(s, "{}"@) {
        Some(rest) => Some((PlaySessionListView { sessions: None }, rest)),
        None => match parse_literal(s, "{\"sessions\":"@) {
            None => None,
            Some(s1) => match parse_opt_session_array(s1) {
                None => None,
                Some((sessions, s2)) => match parse_literal(s2, "}"@) {
                    None => None,
                    Some(s3) => Some((PlaySessionListView { sessions }, s3)),
                },
            },
        },
    }
}

/// Law: a stored play-session list reads back as itself, its entries in
/// their stored order.
pub proof fn lemma_play_session_obj_round_trip(l: PlaySessionListView, rest: Seq<char>)
    ensures
        parse_play_session_obj(encode_play_session_text(l) + rest) == Some((l, rest)),
{
    let t1 = "}"@ + rest;
    let t0 = encode_opt_session_array(l.sessions) + t1;
    let s0 = "{\"sessions\":"@ + t0;
    assert(encode_play_session_text(l) + rest =~= s0);
    reveal_strlit("{}");
    reveal_strlit("{\"sessions\":");
    assert(s0[1] == '"');
    lemma_parse_literal_fails_at(s0, "{}"@, 1);
    lemma_literal_round_trip("{\"sessions\":"@, t0);
    lemma_opt_session_array_round_trip(l.sessions, t1);
    lemma_literal_round_trip("}"@, rest);
    assert(parse_play_session_obj(s0) matches Some(q) && q.0 =~= l && q.1 == rest);
}

// ---------------------------------------------------------------------------
// Writing records: executable encoders.
// ---------------------------------------------------------------------------
proof fn lemma_encode_text_append(a: Seq<char>, b: Seq<char>)
    ensures
        encode_text(a + b) == encode_text(a) + encode_text(b),
    decreases a.len(),
{
    if a.len() == 0 {
        assert(a + b =~= b);
        assert(encode_text(a) + encode_text(b) =~= encode_text(b));
    } else {
        lemma_encode_text_append(a.drop_first(), b);
        assert((a + b).first() == a.first());
        assert((a + b).drop_first() =~= a.drop_first() + b);
        assert(encode_text(a) + encode_text(b) =~= esc_char(a.first()) + (encode_text(
            a.drop_first(),
        ) + encode_text(b)));
    }
}

fn push_str_seq(out: &mut Vec<char>, s: &str)
    ensures
        final(out)@ == old(out)@ + s@,
{
    let cs = crate::text::str_chars(s);
    let mut i: usize = 0;
    while i < cs.len()
        invariant
            i <= cs.len(),
            cs@ == s@,
            out@ =~= old(out)@ + s@.take(i as int),
        decreases cs.len() - i,
    {
        out.push(cs[i]);
        assert(out@ =~= old(out)@ + s@.take(i as int + 1));
        i += 1;
    }
    assert(out@ =~= old(out)@ + s@);
}

fn push_escaped(out: &mut Vec<char>, v: &str)
    ensures
        final(out)@ == old(out)@ + encode_text(v@),
{
    let cs = crate::text::str_chars(v);
    let mut i: usize = 0;
    while i < cs.len()
        invariant
            i <= cs.len(),
            cs@ == v@,
            out@ =~= old(out)@ + encode_text(v@.take(i as int)),
        decreases cs.len() - i,
    {
        let c = cs[i];
        let ghost pre = out@;
        if c == '"' {
            out.push('\\');
            out.push('"');
        } else if c == '\\' {
            out.push('\\');
            out.push('\\');
        } else {
            out.push(c);
        }
        proof {
            assert(out@ =~= pre + esc_char(c));
            assert(v@.take(i as int + 1) =~= v@.take(i as int) + seq![c]);
            lemma_encode_text_append(v@.take(i as int), seq![c]);
            assert(seq![c].drop_first() =~= Seq::<char>::empty());
            assert(encode_text(Seq::<char>::empty()) =~= Seq::<char>::empty());
            assert(encode_text(seq![c]) =~= esc_char(c) + encode_text(seq![c].drop_first()));
            assert(encode_text(seq![c]) =~= esc_char(c));
            assert(out@ =~= old(out)@ + encode_text(v@.take(i as int + 1)));
        }
        i += 1;
    }
    assert(v@.take(v@.len() as int) =~= v@);
}

fn push_quoted(out: &mut Vec<char>, v: &str)
    ensures
        final(out)@ == old(out)@ + encode_string(v@),
{
    out.push('"');
    push_escaped(out, v);
    out.push('"');
    assert(out@ =~= old(out)@ + encode_string(v@));
}

fn push_opt_string(out: &mut Vec<char>, o: &Option<String>)
    ensures
        final(out)@ == old(out)@ + encode_opt_string(o.deep_view()),
{
    match o {
        None => push_str_seq(out, "null"),
        Some(v) => push_quoted(out, v.as_str()),
    }
}

fn push_bool(out: &mut Vec<char>, b: bool)
    ensures
        final(out)@ == old(out)@ + encode_bool(b),
{
    if b {
        push_str_seq(out, "true");
    } else {
        push_str_seq(out, "false");
    }
}

fn push_opt_bool(out: &mut Vec<char>, o: &Option<bool>)
    ensures
        final(out)@ == old(out)@ + encode_opt_bool(o.deep_view()),
{
    match o {
        None => push_str_seq(out, "null"),
        Some(b) => push_bool(out, *b),
    }
}

fn digit_char_of(d: u64) -> (c: char)
    requires
        d < 10,
    ensures
        c == digit_char(d as int),
{
    if d == 0 {
        '0'
    } else if d == 1 {
        '1'
    } else if d == 2 {
        '2'
    } else if d == 3 {
        '3'
    } else if d == 4 {
        '4'
    } else if d == 5 {
        '5'
    } else if d == 6 {
        '6'
    } else if d == 7 {
        '7'
    } else if d == 8 {
        '8'
    } else {
        '9'
    }
}

fn push_nat_digits(out: &mut Vec<char>, m: u64)
    ensures
        final(out)@ == old(out)@ + nat_chars(m as nat),
    decreases m,
{
    if m < 10 {
        out.push(digit_char_of(m));
        assert(out@ =~= old(out)@ + nat_chars(m as nat));
    } else {
        push_nat_digits(out, m / 10);
        out.push(digit_char_of(m % 10));
        assert(out@ =~= old(out)@ + nat_chars(m as nat));
    }
}

fn push_i32(out: &mut Vec<char>, n: i32)
    ensures
        final(out)@ == old(out)@ + int_chars(n as int),
{
    if n < 0 {
        out.push('-');
        let m: u64 = (-(n as i64)) as u64;
        assert(m as nat == (-(n as int)) as nat);
        push_nat_digits(out, m);
        assert(out@ =~= old(out)@ + int_chars(n as int));
    } else {
        let m: u64 = n as u64;
        push_nat_digits(out, m);
        assert(out@ =~= old(out)@ + int_chars(n as int));
    }
}

fn push_opt_i32(out: &mut Vec<char>, o: &Option<i32>)
    ensures
        final(out)@ == old(out)@ + encode_opt_i32(*o),
{
    match o {
        None => push_str_seq(out, "null"),
        Some(n) => push_i32(out, *n),
    }
}

proof fn lemma_string_items_snoc(vs: Seq<Seq<char>>)
    requires
        vs.len() >= 2,
    ensures
        encode_string_items(vs) == encode_string_items(vs.drop_last()) + seq![',']
            + encode_string(vs.last()),
    decreases vs.len(),
{
    if vs.len() == 2 {
        assert(vs.drop_first().len() == 1);
        assert(vs.drop_first().first() == vs.last());
        assert(vs.drop_last().len() == 1);
        assert(vs.drop_last().first() == vs.first());
        assert(encode_string_items(vs.drop_last()) + seq![','] + encode_string(vs.last())
            =~= encode_string(vs.first()) + seq![','] + encode_string_items(vs.drop_first()));
    } else {
        lemma_string_items_snoc(vs.drop_first());
        assert(vs.drop_first().drop_last() =~= vs.drop_last().drop_first());
        assert(vs.drop_first().last() == vs.last());
        assert(vs.drop_last().first() == vs.first());
        assert(vs.drop_last().len() >= 2);
        assert(encode_string_items(vs.drop_last()) == encode_string(vs.first()) + seq![',']
            + encode_string_items(vs.drop_last().drop_first()));
        assert(encode_string_items(vs.drop_last()) + seq![','] + encode_string(vs.last())
            =~= encode_string(vs.first()) + seq![','] + (encode_string_items(
            vs.drop_first().drop_last(),
        ) + seq![','] + encode_string(vs.drop_first().last())));
    }
}

fn push_string_array(out: &mut Vec<char>, vs: &Vec<String>)
    ensures
        final(out)@ == old(out)@ + encode_string_array(vs.deep_view()),
{
    out.push('[');
    if vs.len() == 0 {
        out.push(']');
        assert(encode_string_items(vs.deep_view()) =~= Seq::empty());
        assert(out@ =~= old(out)@ + encode_string_array(vs.deep_view()));
        return ;
    }
    push_quoted(out, vs[0].as_str());
    proof {
        let dv = vs.deep_view();
        assert(dv.take(1).len() == 1);
        assert(dv.take(1).first() == dv[0]);
        assert(dv[0] == vs@[0]@);
        assert(out@ =~= old(out)@ + seq!['['] + encode_string_items(dv.take(1)));
    }
    let mut i: usize = 1;
    while i < vs.len()
        invariant
            1 <= i <= vs.len(),
            out@ =~= old(out)@ + seq!['['] + encode_string_items(vs.deep_view().take(i as int)),
        decreases vs.len() - i,
    {
        out.push(',');
        push_quoted(out, vs[i].as_str());
        proof {
            let dv = vs.deep_view();
            let sub = dv.take(i as int + 1);
            assert(sub.len() >= 2);
            lemma_string_items_snoc(sub);
            assert(sub.drop_last() =~= dv.take(i as int));
            assert(sub.last() == dv[i as int]);
            assert(dv[i as int] == vs@[i as int]@);
            assert(out@ =~= old(out)@ + seq!['['] + encode_string_items(sub));
        }
        i += 1;
    }
    out.push(']');
    proof {
        assert(vs.deep_view().take(vs@.len() as int) =~= vs.deep_view());
        assert(out@ =~= old(out)@ + encode_string_array(vs.deep_view()));
    }
}

fn push_opt_string_array(out: &mut Vec<char>, o: &Option<Vec<String>>)
    ensures
        final(out)@ == old(out)@ + encode_opt_string_array(o.deep_view()),
{
    match o {
        None => push_str_seq(out, "null"),
        Some(vs) => push_string_array(out, vs),
    }
}

fn push_file_item(out: &mut Vec<char>, f: &crate::records::DbPreviousFileStateItem)
    ensures
        final(out)@ == old(out)@ + encode_file_item(f.deep_view()),
{
    push_str_seq(out, "{\"is_enabled\":");
    push_bool(out, f.is_enabled);
    push_str_seq(out, ",\"relative\":");
    push_quoted(out, f.relative.as_str());
    push_str_seq(out, ",\"absolute\":");
    push_quoted(out, f.absolute.as_str());
    push_str_seq(out, "}");
    assert(out@ =~= old(out)@ + encode_file_item(f.deep_view()));
}

proof fn lemma_file_items_snoc(vs: Seq<FileStateView>)
    requires
        vs.len() >= 2,
    ensures
        encode_file_items(vs) == encode_file_items(vs.drop_last()) + seq![','] + encode_file_item(
            vs.last(),
        ),
    decreases vs.len(),
{
    if vs.len() == 2 {
        assert(vs.drop_first().len() == 1);
        assert(vs.drop_first().first() == vs.last());
        assert(vs.drop_last().len() == 1);
        assert(vs.drop_last().first() == vs.first());
        assert(encode_file_items(vs.drop_last()) + seq![','] + encode_file_item(vs.last())
            =~= encode_file_item(vs.first()) + seq![','] + encode_file_items(vs.drop_first()));
    } else {
        lemma_file_items_snoc(vs.drop_first());
        assert(vs.drop_first().drop_last() =~= vs.drop_last().drop_first());
        assert(vs.drop_first().last() == vs.last());
        assert(vs.drop_last().first() == vs.first());
        assert(vs.drop_last().len() >= 2);
        assert(encode_file_items(vs.drop_last()) == encode_file_item(vs.first()) + seq![',']
            + encode_file_items(vs.drop_last().drop_first()));
        assert(encode_file_items(vs.drop_last()) + seq![','] + encode_file_item(vs.last())
            =~= encode_file_item(vs.first()) + seq![','] + (encode_file_items(
            vs.drop_first().drop_last(),
        ) + seq![','] + encode_file_item(vs.drop_first().last())));
    }
}

fn push_file_array(out: &mut Vec<char>, vs: &Vec<crate::records::DbPreviousFileStateItem>)
    ensures
        final(out)@ == old(out)@ + encode_file_array(vs.deep_view()),
{
    out.push('[');
    if vs.len() == 0 {
        out.push(']');
        assert(encode_file_items(vs.deep_view()) =~= Seq::empty());
        assert(out@ =~= old(out)@ + encode_file_array(vs.deep_view()));
        return ;
    }
    push_file_item(out, &vs[0]);
    proof {
        let dv = vs.deep_view();
        assert(dv.take(1).len() == 1);
        assert(dv.take(1).first() == dv[0]);
        assert(out@ =~= old(out)@ + seq!['['] + encode_file_items(dv.take(1)));
    }
    let mut i: usize = 1;
    while i < vs.len()
        invariant
            1 <= i <= vs.len(),
            out@ =~= old(out)@ + seq!['['] + encode_file_items(vs.deep_view().take(i as int)),
        decreases vs.len() - i,
    {
        out.push(',');
        push_file_item(out, &vs[i]);
        proof {
            let dv = vs.deep_view();
            let sub = dv.take(i as int + 1);
            assert(sub.len() >= 2);
            lemma_file_items_snoc(sub);
            assert(sub.drop_last() =~= dv.take(i as int));
            assert(sub.last() == dv[i as int]);
            assert(out@ =~= old(out)@ + seq!['['] + encode_file_items(sub));
        }
        i += 1;
    }
    out.push(']');
    proof {
        assert(vs.deep_view().take(vs@.len() as int) =~= vs.deep_view());
        assert(out@ =~= old(out)@ + encode_file_array(vs.deep_view()));
    }
}

fn push_opt_file_array(
    out: &mut Vec<char>,
    o: &Option<Vec<crate::records::DbPreviousFileStateItem>>,
)
    ensures
        final(out)@ == old(out)@ + encode_opt_file_array(o.deep_view()),
{
    match o {
        None => push_str_seq(out, "null"),
        Some(vs) => push_file_array(out, vs),
    }
}

fn push_session_entry(out: &mut Vec<char>, e: &crate::records::DbPlaySessionEntry)
    ensures
        final(out)@ == old(out)@ + encode_session_entry(e.deep_view()),
{
    push_str_seq(out, "{\"started_at\":");
    push_opt_string(out, &e.started_at);
    push_str_seq(out, ",\"ended_at\":");
    push_opt_string(out, &e.ended_at);
    push_str_seq(out, "}");
    assert(out@ =~= old(out)@ + encode_session_entry(e.deep_view()));
}

proof fn lemma_session_items_snoc(vs: Seq<PlaySessionEntryView>)
    requires
        vs.len() >= 2,
    ensures
        encode_session_items(vs) == encode_session_items(vs.drop_last()) + seq![',']
            + encode_session_entry(vs.last()),
    decreases vs.len(),
{
    if vs.len() == 2 {
        assert(vs.drop_first().len() == 1);
        assert(vs.drop_first().first() == vs.last());
        assert(vs.drop_last().len() == 1);
        assert(vs.drop_last().first() == vs.first());
        assert(encode_session_items(vs.drop_last()) + seq![','] + encode_session_entry(vs.last())
            =~= encode_session_entry(vs.first()) + seq![','] + encode_session_items(
            vs.drop_first(),
        ));
    } else {
        lemma_session_items_snoc(vs.drop_first());
        assert(vs.drop_first().drop_last() =~= vs.drop_last().drop_first());
        assert(vs.drop_first().last() == vs.last());
        assert(vs.drop_last().first() == vs.first());
        assert(vs.drop_last().len() >= 2);
        assert(encode_session_items(vs.drop_last()) == encode_session_entry(vs.first())
            + seq![','] + encode_session_items(vs.drop_last().drop_first()));
        assert(encode_session_items(vs.drop_last()) + seq![','] + encode_session_entry(vs.last())
            =~= encode_session_entry(vs.first()) + seq![','] + (encode_session_items(
            vs.drop_first().drop_last(),
        ) + seq![','] + encode_session_entry(vs.drop_first().last())));
    }
}

fn push_session_array(out: &mut Vec<char>, vs: &Vec<crate::records::DbPlaySessionEntry>)
    ensures
        final(out)@ == old(out)@ + encode_session_array(vs.deep_view()),
{
    out.push('[');
    if vs.len() == 0 {
        out.push(']');
        assert(encode_session_items(vs.deep_view()) =~= Seq::empty());
        assert(out@ =~= old(out)@ + encode_session_array(vs.deep_view()));
        return ;
    }
    push_session_entry(out, &vs[0]);
    proof {
        let dv = vs.deep_view();
        assert(dv.take(1).len() == 1);
        assert(dv.take(1).first() == dv[0]);
        assert(out@ =~= old(out)@ + seq!['['] + encode_session_items(dv.take(1)));
    }
    let mut i: usize = 1;
    while i < vs.len()
        invariant
            1 <= i <= vs.len(),
            out@ =~= old(out)@ + seq!['['] + encode_session_items(vs.deep_view().take(i as int)),
        decreases vs.len() - i,
    {
        out.push(',');
        push_session_entry(out, &vs[i]);
        proof {
            let dv = vs.deep_view();
            let sub = dv.take(i as int + 1);
            assert(sub.len() >= 2);
            lemma_session_items_snoc(sub);
            assert(sub.drop_last() =~= dv.take(i as int));
            assert(sub.last() == dv[i as int]);
            assert(out@ =~= old(out)@ + seq!['['] + encode_session_items(sub));
        }
        i += 1;
    }
    out.push(']');
    proof {
        assert(vs.deep_view().take(vs@.len() as int) =~= vs.deep_view());
        assert(out@ =~= old(out)@ + encode_session_array(vs.deep_view()));
    }
}

fn push_opt_session_array(out: &mut Vec<char>, o: &Option<Vec<crate::records::DbPlaySessionEntry>>)
    ensures
        final(out)@ == old(out)@ + encode_opt_session_array(o.deep_view()),
{
    match o {
        None => push_str_seq(out, "null"),
        Some(vs) => push_session_array(out, vs),
    }
}

/// The stored text of a game record.
#[verifier::rlimit(100)]
#[verifier::spinoff_prover]
pub fn encode_game_meta(meta: &crate::records::DbGameMeta) -> (r: String)
    ensures
        r@ == encode_game_meta_text(meta.deep_view()),
{
    let mut out: Vec<char> = Vec::new();
    push_str_seq(&mut out, "{\"id\":");
    push_opt_string(&mut out, &meta.id);
    push_str_seq(&mut out, ",\"name\":");
    push_opt_string(&mut out, &meta.name);
    push_str_seq(&mut out, ",\"rating\":");
    push_opt_i32(&mut out, &meta.rating);
    push_str_seq(&mut out, ",\"description\":");
    push_opt_string(&mut out, &meta.description);
    push_str_seq(&mut out, ",\"notes\":");
    push_opt_string(&mut out, &meta.notes);
    proof {
        assert(out@ =~= "{\"id\":"@ + encode_opt_string(meta.deep_view().id) + ",\"name\":"@
            + encode_opt_string(meta.deep_view().name) + ",\"rating\":"@ + encode_opt_i32(
            meta.deep_view().rating,
        ) + ",\"description\":"@ + encode_opt_string(meta.deep_view().description) + ",\"notes\":"@
            + encode_opt_string(meta.deep_view().notes));
    }
    let ghost head = out@;
    push_str_seq(&mut out, ",\"tags\":");
    push_opt_string_array(&mut out, &meta.tags);
    push_str_seq(&mut out, ",\"iwad_id\":");
    push_opt_string(&mut out, &meta.iwad_id);
    push_str_seq(&mut out, ",\"source_port\":");
    push_opt_string(&mut out, &meta.source_port);
    push_str_seq(&mut out, ",\"extra_mod_ids\":");
    push_opt_string_array(&mut out, &meta.extra_mod_ids);
    proof {
        assert(out@ =~= head + (",\"tags\":"@ + encode_opt_string_array(meta.deep_view().tags)
            + ",\"iwad_id\":"@ + encode_opt_string(meta.deep_view().iwad_id) + ",\"source_port\":"@
            + encode_opt_string(meta.deep_view().source_port) + ",\"extra_mod_ids\":"@
            + encode_opt_string_array(meta.deep_view().extra_mod_ids)));
    }
    let ghost mid = out@;
    push_str_seq(&mut out, ",\"previous_file_state\":");
    push_opt_file_array(&mut out, &meta.previous_file_state);
    push_str_seq(&mut out, ",\"use_custom_config\":");
    push_opt_bool(&mut out, &meta.use_custom_config);
    push_str_seq(&mut out, ",\"installed_at\":");
    push_opt_string(&mut out, &meta.installed_at);
    push_str_seq(&mut out, "}");
    proof {
        assert(out@ =~= mid + encode_game_meta_close_text(meta.deep_view()));
        assert(out@ =~= head + encode_game_meta_tail_text(meta.deep_view()));
        assert(out@ =~= encode_game_meta_text(meta.deep_view()));
    }
    crate::text::chars_to_string(&out)
}

/// The stored text of a source-port record.
pub fn encode_source_port(port: &crate::records::DbSourcePort) -> (r: String)
    ensures
        r@ == encode_source_port_text(port.deep_view()),
{
    let mut out: Vec<char> = Vec::new();
    push_str_seq(&mut out, "{\"id\":");
    push_opt_string(&mut out, &port.id);
    push_str_seq(&mut out, ",\"command\":");
    push_opt_string_array(&mut out, &port.command);
    push_str_seq(&mut out, ",\"known_source_port_id\":");
    push_opt_string(&mut out, &port.known_source_port_id);
    push_str_seq(&mut out, ",\"is_default\":");
    push_opt_bool(&mut out, &port.is_default);
    push_str_seq(&mut out, "}");
    proof {
        assert(out@ =~= encode_source_port_text(port.deep_view()));
    }
    crate::text::chars_to_string(&out)
}

/// The stored text of a game's play-session list.
pub fn encode_play_session(list: &crate::records::DbPlaySession) -> (r: String)
    ensures
        r@ == encode_play_session_text(list.deep_view()),
{
    let mut out: Vec<char> = Vec::new();
    push_str_seq(&mut out, "{\"sessions\":");
    push_opt_session_array(&mut out, &list.sessions);
    push_str_seq(&mut out, "}");
    proof {
        assert(out@ =~= encode_play_session_text(list.deep_view()));
    }
    crate::text::chars_to_string(&out)
}

// ---------------------------------------------------------------------------
// Reading records: executable parsers.
// ---------------------------------------------------------------------------
fn parse_lit_at(s: &Vec<char>, pos: usize, lit: &str) -> (r: Option<usize>)
    requires
        pos <= s.len(),
    ensures
        match r {
            None => parse_literal(s@.skip(pos as int), lit@) is None,
            Some(np) => pos <= np <= s@.len() && parse_literal(s@.skip(pos as int), lit@) == Some(
                s@.skip(np as int),
            ),
        },
{
    let lc = crate::text::str_chars(lit);
    let m = lc.len();
    let n = s.len();
    if n - pos < m {
        proof {
            assert(s@.skip(pos as int).len() < lit@.len());
        }
        return None;
    }
    let mut i: usize = 0;
    while i < m
        invariant
            i <= m,
            m == lit@.len(),
            lc@ == lit@,
            n == s@.len(),
            pos + m <= n,
            forall|j: int| 0 <= j < i ==> s@.skip(pos as int)[j] == lit@[j],
        decreases m - i,
    {
        if s[pos + i] != lc[i] {
            proof {
                let suf = s@.skip(pos as int);
                assert(suf[i as int] == s@[pos + i]);
                if suf.len() >= lit@.len() && suf.take(lit@.len() as int) == lit@ {
                    assert(suf.take(lit@.len() as int)[i as int] == lit@[i as int]);
                }
            }
            return None;
        }
        proof {
            assert(s@.skip(pos as int)[i as int] == s@[pos + i]);
        }
        i += 1;
    }
    proof {
        assert(s@.skip(pos as int).take(lit@.len() as int) =~= lit@);
        assert(s@.skip(pos as int).skip(lit@.len() as int) =~= s@.skip(pos as int + m));
    }
    Some(pos + m)
}

#[verifier::rlimit(60)]
fn parse_string_at(s: &Vec<char>, pos: usize) -> (r: Option<(String, usize)>)
    requires
        pos <= s.len(),
    ensures
        match r {
            None => parse_string(s@.skip(pos as int)) is None,
            Some(p) => pos <= p.1 <= s@.len() && parse_string(s@.skip(pos as int)) == Some(
                (p.0@, s@.skip(p.1 as int)),
            ),
        },
{
    if pos >= s.len() || s[pos] != '"' {
        proof {
            let suf = s@.skip(pos as int);
            if pos < s@.len() {
                assert(suf[0] == s@[pos as int]);
            }
        }
        return None;
    }
    proof {
        assert(s@.skip(pos as int)[0] == s@[pos as int]);
        assert(s@.skip(pos as int).drop_first() =~= s@.skip(pos as int + 1));
    }
    let mut out: Vec<char> = Vec::new();
    let mut cur: usize = pos + 1;
    loop
        invariant
            pos + 1 <= cur <= s@.len(),
            parse_string(s@.skip(pos as int)) == parse_text(s@.skip(pos as int + 1)),
            parse_text(s@.skip(pos as int + 1)) == (match parse_text(s@.skip(cur as int)) {
                None => None,
                Some(p) => Some((out@ + p.0, p.1)),
            }),
        decreases s@.len() - cur,
    {
        if cur >= s.len() {
            proof {
                assert(s@.skip(cur as int).len() == 0);
            }
            return None;
        }
        let c = s[cur];
        proof {
            let suf = s@.skip(cur as int);
            assert(suf[0] == s@[cur as int]);
            assert(suf.drop_first() =~= s@.skip(cur as int + 1));
        }
        if c == '"' {
            proof {
                assert(out@ + Seq::<char>::empty() =~= out@);
            }
            let v = crate::text::chars_to_string(&out);
            return Some((v, cur + 1));
        } else if c == '\\' {
            if cur + 1 >= s.len() {
                proof {
                    assert(s@.skip(cur as int).len() < 2);
                }
                return None;
            }
            let e = s[cur + 1];
            proof {
                let suf = s@.skip(cur as int);
                assert(suf[1] == s@[cur as int + 1]);
                assert(suf.skip(2) =~= s@.skip(cur as int + 2));
            }
            if e == '"' || e == '\\' {
                let ghost pre = out@;
                out.push(e);
                proof {
                    assert(out@ =~= pre.push(e));
                    let nxt = parse_text(s@.skip(cur as int + 2));
                    if nxt is Some {
                        let v = nxt.unwrap().0;
                        assert(pre + (seq![e] + v) =~= out@ + v);
                    }
                }
                cur = cur + 2;
            } else {
                return None;
            }
        } else {
            let ghost pre = out@;
            out.push(c);
            proof {
                assert(out@ =~= pre.push(c));
                let nxt = parse_text(s@.skip(cur as int + 1));
                if nxt is Some {
                    let v = nxt.unwrap().0;
                    assert(pre + (seq![c] + v) =~= out@ + v);
                }
            }
            cur = cur + 1;
        }
    }
}

fn parse_bool_at(s: &Vec<char>, pos: usize) -> (r: Option<(bool, usize)>)
    requires
        pos <= s.len(),
    ensures
        match r {
            None => parse_bool(s@.skip(pos as int)) is None,
            Some(p) => pos <= p.1 <= s@.len() && parse_bool(s@.skip(pos as int)) == Some(
                (p.0, s@.skip(p.1 as int)),
            ),
        },
{
    match parse_lit_at(s, pos, "true") {
        Some(np) => {
            return Some((true, np));
        },
        None => {},
    }
    match parse_lit_at(s, pos, "false") {
        Some(np) => Some((false, np)),
        None => None,
    }
}

fn parse_opt_string_at(s: &Vec<char>, pos: usize) -> (r: Option<(Option<String>, usize)>)
    requires
        pos <= s.len(),
    ensures
        match r {
            None => parse_opt_string(s@.skip(pos as int)) is None,
            Some(p) => pos <= p.1 <= s@.len() && parse_opt_string(s@.skip(pos as int)) == Some(
                (p.0.deep_view(), s@.skip(p.1 as int)),
            ),
        },
{
    match parse_lit_at(s, pos, "null") {
        Some(np) => {
            return Some((None, np));
        },
        None => {},
    }
    match parse_string_at(s, pos) {
        Some((v, np)) => Some((Some(v), np)),
        None => None,
    }
}

fn parse_opt_bool_at(s: &Vec<char>, pos: usize) -> (r: Option<(Option<bool>, usize)>)
    requires
        pos <= s.len(),
    ensures
        match r {
            None => parse_opt_bool(s@.skip(pos as int)) is None,
            Some(p) => pos <= p.1 <= s@.len() && parse_opt_bool(s@.skip(pos as int)) == Some(
                (p.0, s@.skip(p.1 as int)),
            ),
        },
{
    match parse_lit_at(s, pos, "null") {
        Some(np) => {
            return Some((None, np));
        },
        None => {},
    }
    match parse_bool_at(s, pos) {
        Some((b, np)) => Some((Some(b), np)),
        None => None,
    }
}

fn exec_is_digit(c: char) -> (r: bool)
    ensures
        r == is_digit(c),
{
    let u: u32 = c as u32;
    48 <= u && u <= 57
}

#[verifier::rlimit(60)]
fn parse_i32_at(s: &Vec<char>, pos: usize) -> (r: Option<(i32, usize)>)
    requires
        pos <= s.len(),
    ensures
        match r {
            None => parse_i32(s@.skip(pos as int)) is None,
            Some(p) => pos <= p.1 <= s@.len() && parse_i32(s@.skip(pos as int)) == Some(
                (p.0, s@.skip(p.1 as int)),
            ),
        },
{
    let n = s.len();
    proof {
        let suf = s@.skip(pos as int);
        if pos < n {
            assert(suf[0] == s@[pos as int]);
        }
        if pos + 1 < n {
            assert(suf[1] == s@[pos as int + 1]);
        }
    }
    let neg: bool = pos < n && s[pos] == '-';
    let start: usize = if neg {
        if pos + 1 >= n || !exec_is_digit(s[pos + 1]) {
            return None;
        }
        pos + 1
    } else {
        if pos >= n || !exec_is_digit(s[pos]) {
            return None;
        }
        pos
    };
    proof {
        assert(s@.skip(pos as int).drop_first() =~= s@.skip(pos as int + 1));
    }
    let mut cur: usize = start;
    let mut acc: i64 = 0;
    let mut over: bool = false;
    let ghost mut g_acc: int = 0int;
    while cur < n && exec_is_digit(s[cur])
        invariant
            start <= cur <= n,
            n == s@.len(),
            pos <= start <= s@.len(),
            g_acc >= 0,
            parse_digits(s@.skip(start as int), 0) == parse_digits(s@.skip(cur as int), g_acc),
            !over ==> acc == g_acc && 0 <= acc <= 2147483648,
            over ==> g_acc > 2147483648,
        decreases n - cur,
    {
        let c = s[cur];
        let u: u32 = c as u32;
        let di: i64 = (u - 48) as i64;
        proof {
            let suf = s@.skip(cur as int);
            assert(suf[0] == s@[cur as int]);
            assert(suf.drop_first() =~= s@.skip(cur as int + 1));
            assert(parse_digits(suf, g_acc) == parse_digits(
                s@.skip(cur as int + 1),
                g_acc * 10 + digit_val(c),
            ));
        }
        if !over {
            acc = acc * 10 + di;
            if acc > 2147483648 {
                over = true;
            }
        }
        proof {
            let next = g_acc * 10 + digit_val(c);
            assert(next >= g_acc);
            g_acc = next;
        }
        cur = cur + 1;
    }
    proof {
        let suf = s@.skip(cur as int);
        if cur < n {
            assert(suf[0] == s@[cur as int]);
        }
        assert(parse_digits(suf, g_acc) == (g_acc, suf));
    }
    if over {
        proof {
            assert(g_acc > i32::MAX);
            assert(-g_acc < i32::MIN);
        }
        return None;
    }
    let val: i64 = if neg {
        -acc
    } else {
        acc
    };
    if val > 2147483647 || val < -2147483648 {
        return None;
    }
    Some((val as i32, cur))
}

fn parse_opt_i32_at(s: &Vec<char>, pos: usize) -> (r: Option<(Option<i32>, usize)>)
    requires
        pos <= s.len(),
    ensures
        match r {
            None => parse_opt_i32(s@.skip(pos as int)) is None,
            Some(p) => pos <= p.1 <= s@.len() && parse_opt_i32(s@.skip(pos as int)) == Some(
                (p.0, s@.skip(p.1 as int)),
            ),
        },
{
    match parse_lit_at(s, pos, "null") {
        Some(np) => {
            return Some((None, np));
        },
        None => {},
    }
    match parse_i32_at(s, pos) {
        Some((v, np)) => Some((Some(v), np)),
        None => None,
    }
}

#[verifier::rlimit(60)]
fn parse_string_array_at(s: &Vec<char>, pos: usize) -> (r: Option<(Vec<String>, usize)>)
    requires
        pos <= s.len(),
    ensures
        match r {
            None => parse_string_array(s@.skip(pos as int)) is None,
            Some(p) => pos <= p.1 <= s@.len() && parse_string_array(s@.skip(pos as int)) == Some(
                (p.0.deep_view(), s@.skip(p.1 as int)),
            ),
        },
{
    let n = s.len();
    proof {
        let suf = s@.skip(pos as int);
        if pos < n {
            assert(suf[0] == s@[pos as int]);
        }
        if pos + 1 < n {
            assert(suf[1] == s@[pos as int + 1]);
        }
    }
    if pos >= n || s[pos] != '[' {
        return None;
    }
    if pos + 1 < n && s[pos + 1] == ']' {
        proof {
            assert(s@.skip(pos as int).skip(2) =~= s@.skip(pos as int + 2));
        }
        let empty: Vec<String> = Vec::new();
        proof {
            assert(empty.deep_view() =~= Seq::<Seq<char>>::empty());
        }
        return Some((empty, pos + 2));
    }
    proof {
        assert(s@.skip(pos as int).drop_first() =~= s@.skip(pos as int + 1));
    }
    let mut vs: Vec<String> = Vec::new();
    let mut cur: usize = pos + 1;
    loop
        invariant
            pos + 1 <= cur <= s@.len(),
            n == s@.len(),
            parse_string_array(s@.skip(pos as int)) == parse_string_items(s@.skip(pos as int + 1)),
            parse_string_items(s@.skip(pos as int + 1)) == (match parse_string_items(
                s@.skip(cur as int),
            ) {
                None => None,
                Some(p) => Some((vs.deep_view() + p.0, p.1)),
            }),
        decreases s@.len() - cur,
    {
        let (v, np) = match parse_string_at(s, cur) {
            Some(x) => x,
            None => {
                return None;
            },
        };
        proof {
            lemma_parse_string_shrinks(s@.skip(cur as int));
            if np < n {
                let suf = s@.skip(np as int);
                assert(suf[0] == s@[np as int]);
                assert(suf.drop_first() =~= s@.skip(np as int + 1));
            }
        }
        let ghost pre = vs.deep_view();
        let ghost vv = v@;
        vs.push(v);
        proof {
            assert(vs.deep_view() =~= pre.push(vv));
        }
        if np < n && s[np] == ',' {
            proof {
                let nxt = parse_string_items(s@.skip(np as int + 1));
                if nxt is Some {
                    let tail = nxt.unwrap().0;
                    assert(pre + (seq![vv] + tail) =~= vs.deep_view() + tail);
                }
            }
            cur = np + 1;
        } else if np < n && s[np] == ']' {
            proof {
                assert(pre + seq![vv] =~= vs.deep_view());
                assert(vs.deep_view() + Seq::<Seq<char>>::empty() =~= vs.deep_view());
            }
            return Some((vs, np + 1));
        } else {
            return None;
        }
    }
}

fn parse_opt_string_array_at(s: &Vec<char>, pos: usize) -> (r: Option<
    (Option<Vec<String>>, usize),
>)
    requires
        pos <= s.len(),
    ensures
        match r {
            None => parse_opt_string_array(s@.skip(pos as int)) is None,
            Some(p) => pos <= p.1 <= s@.len() && parse_opt_string_array(s@.skip(pos as int))
                == Some((p.0.deep_view(), s@.skip(p.1 as int))),
        },
{
    match parse_lit_at(s, pos, "null") {
        Some(np) => {
            return Some((None, np));
        },
        None => {},
    }
    match parse_string_array_at(s, pos) {
        Some((vs, np)) => Some((Some(vs), np)),
        None => None,
    }
}

fn parse_file_item_at(s: &Vec<char>, pos: usize) -> (r: Option<
    (crate::records::DbPreviousFileStateItem, usize),
>)
    requires
        pos <= s.len(),
    ensures
        match r {
            None => parse_file_item(s@.skip(pos as int)) is None,
            Some(p) => pos <= p.1 <= s@.len() && parse_file_item(s@.skip(pos as int)) == Some(
                (p.0.deep_view(), s@.skip(p.1 as int)),
            ),
        },
{
    let p1 = match parse_lit_at(s, pos, "{\"is_enabled\":") {
        Some(p) => p,
        None => {
            return None;
        },
    };
    let (is_enabled, p2) = match parse_bool_at(s, p1) {
        Some(x) => x,
        None => {
            return None;
        },
    };
    let p3 = match parse_lit_at(s, p2, ",\"relative\":") {
        Some(p) => p,
        None => {
            return None;
        },
    };
    let (relative, p4) = match parse_string_at(s, p3) {
        Some(x) => x,
        None => {
            return None;
        },
    };
    let p5 = match parse_lit_at(s, p4, ",\"absolute\":") {
        Some(p) => p,
        None => {
            return None;
        },
    };
    let (absolute, p6) = match parse_string_at(s, p5) {
        Some(x) => x,
        None => {
            return None;
        },
    };
    let p7 = match parse_lit_at(s, p6, "}") {
        Some(p) => p,
        None => {
            return None;
        },
    };
    let f = crate::records::DbPreviousFileStateItem { is_enabled, relative, absolute };
    proof {
        assert(parse_file_item(s@.skip(pos as int)) matches Some(q) && q.0 =~= f.deep_view()
            && q.1 == s@.skip(p7 as int));
    }
    Some((f, p7))
}

#[verifier::rlimit(60)]
fn parse_file_array_at(s: &Vec<char>, pos: usize) -> (r: Option<
    (Vec<crate::records::DbPreviousFileStateItem>, usize),
>)
    requires
        pos <= s.len(),
    ensures
        match r {
            None => parse_file_array(s@.skip(pos as int)) is None,
            Some(p) => pos <= p.1 <= s@.len() && parse_file_array(s@.skip(pos as int)) == Some(
                (p.0.deep_view(), s@.skip(p.1 as int)),
            ),
        },
{
    let n = s.len();
    proof {
        let suf = s@.skip(pos as int);
        if pos < n {
            assert(suf[0] == s@[pos as int]);
        }
        if pos + 1 < n {
            assert(suf[1] == s@[pos as int + 1]);
        }
    }
    if pos >= n || s[pos] != '[' {
        return None;
    }
    if pos + 1 < n && s[pos + 1] == ']' {
        proof {
            assert(s@.skip(pos as int).skip(2) =~= s@.skip(pos as int + 2));
        }
        let empty: Vec<crate::records::DbPreviousFileStateItem> = Vec::new();
        proof {
            assert(empty.deep_view() =~= Seq::<FileStateView>::empty());
        }
        return Some((empty, pos + 2));
    }
    proof {
        assert(s@.skip(pos as int).drop_first() =~= s@.skip(pos as int + 1));
    }
    let mut vs: Vec<crate::records::DbPreviousFileStateItem> = Vec::new();
    let mut cur: usize = pos + 1;
    loop
        invariant
            pos + 1 <= cur <= s@.len(),
            n == s@.len(),
            parse_file_array(s@.skip(pos as int)) == parse_file_items(s@.skip(pos as int + 1)),
            parse_file_items(s@.skip(pos as int + 1)) == (match parse_file_items(
                s@.skip(cur as int),
            ) {
                None => None,
                Some(p) => Some((vs.deep_view() + p.0, p.1)),
            }),
        decreases s@.len() - cur,
    {
        let (v, np) = match parse_file_item_at(s, cur) {
            Some(x) => x,
            None => {
                return None;
            },
        };
        proof {
            lemma_parse_file_item_shrinks(s@.skip(cur as int));
            if np < n {
                let suf = s@.skip(np as int);
                assert(suf[0] == s@[np as int]);
                assert(suf.drop_first() =~= s@.skip(np as int + 1));
            }
        }
        let ghost pre = vs.deep_view();
        let ghost vv = v.deep_view();
        vs.push(v);
        proof {
            assert(vs.deep_view() =~= pre.push(vv));
        }
        if np < n && s[np] == ',' {
            proof {
                let nxt = parse_file_items(s@.skip(np as int + 1));
                if nxt is Some {
                    let tail = nxt.unwrap().0;
                    assert(pre + (seq![vv] + tail) =~= vs.deep_view() + tail);
                }
            }
            cur = np + 1;
        } else if np < n && s[np] == ']' {
            proof {
                assert(pre + seq![vv] =~= vs.deep_view());
                assert(vs.deep_view() + Seq::<FileStateView>::empty() =~= vs.deep_view());
            }
            return Some((vs, np + 1));
        } else {
            return None;
        }
    }
}

fn parse_opt_file_array_at(s: &Vec<char>, pos: usize) -> (r: Option<
    (Option<Vec<crate::records::DbPreviousFileStateItem>>, usize),
>)
    requires
        pos <= s.len(),
    ensures
        match r {
            None => parse_opt_file_array(s@.skip(pos as int)) is None,
            Some(p) => pos <= p.1 <= s@.len() && parse_opt_file_array(s@.skip(pos as int)) == Some(
                (p.0.deep_view(), s@.skip(p.1 as int)),
            ),
        },
{
    match parse_lit_at(s, pos, "null") {
        Some(np) => {
            return Some((None, np));
        },
        None => {},
    }
    match parse_file_array_at(s, pos) {
        Some((vs, np)) => Some((Some(vs), np)),
        None => None,
    }
}

fn parse_session_entry_at(s: &Vec<char>, pos: usize) -> (r: Option<
    (crate::records::DbPlaySessionEntry, usize),
>)
    requires
        pos <= s.len(),
    ensures
        match r {
            None => parse_session_entry(s@.skip(pos as int)) is None,
            Some(p) => pos <= p.1 <= s@.len() && parse_session_entry(s@.skip(pos as int)) == Some(
                (p.0.deep_view(), s@.skip(p.1 as int)),
            ),
        },
{
    let p1 = match parse_lit_at(s, pos, "{\"started_at\":") {
        Some(p) => p,
        None => {
            return None;
        },
    };
    let (started_at, p2) = match parse_opt_string_at(s, p1) {
        Some(x) => x,
        None => {
            return None;
        },
    };
    let p3 = match parse_lit_at(s, p2, ",\"ended_at\":") {
        Some(p) => p,
        None => {
            return None;
        },
    };
    let (ended_at, p4) = match parse_opt_string_at(s, p3) {
        Some(x) => x,
        None => {
            return None;
        },
    };
    let p5 = match parse_lit_at(s, p4, "}") {
        Some(p) => p,
        None => {
            return None;
        },
    };
    let e = crate::records::DbPlaySessionEntry { started_at, ended_at };
    proof {
        assert(parse_session_entry(s@.skip(pos as int)) matches Some(q) && q.0 =~= e.deep_view()
            && q.1 == s@.skip(p5 as int));
    }
    Some((e, p5))
}

#[verifier::rlimit(60)]
fn parse_session_array_at(s: &Vec<char>, pos: usize) -> (r: Option<
    (Vec<crate::records::DbPlaySessionEntry>, usize),
>)
    requires
        pos <= s.len(),
    ensures
        match r {
            None => parse_session_array(s@.skip(pos as int)) is None,
            Some(p) => pos <= p.1 <= s@.len() && parse_session_array(s@.skip(pos as int)) == Some(
                (p.0.deep_view(), s@.skip(p.1 as int)),
            ),
        },
{
    let n = s.len();
    proof {
        let suf = s@.skip(pos as int);
        if pos < n {
            assert(suf[0] == s@[pos as int]);
        }
        if pos + 1 < n {
            assert(suf[1] == s@[pos as int + 1]);
        }
    }
    if pos >= n || s[pos] != '[' {
        return None;
    }
    if pos + 1 < n && s[pos + 1] == ']' {
        proof {
            assert(s@.skip(pos as int).skip(2) =~= s@.skip(pos as int + 2));
        }
        let empty: Vec<crate::records::DbPlaySessionEntry> = Vec::new();
        proof {
            assert(empty.deep_view() =~= Seq::<PlaySessionEntryView>::empty());
        }
        return Some((empty, pos + 2));
    }
    proof {
        assert(s@.skip(pos as int).drop_first() =~= s@.skip(pos as int + 1));
    }
    let mut vs: Vec<crate::records::DbPlaySessionEntry> = Vec::new();
    let mut cur: usize = pos + 1;
    loop
        invariant
            pos + 1 <= cur <= s@.len(),
            n == s@.len(),
            parse_session_array(s@.skip(pos as int)) == parse_session_items(
                s@.skip(pos as int + 1),
            ),
            parse_session_items(s@.skip(pos as int + 1)) == (match parse_session_items(
                s@.skip(cur as int),
            ) {
                None => None,
                Some(p) => Some((vs.deep_view() + p.0, p.1)),
            }),
        decreases s@.len() - cur,
    {
        let (v, np) = match parse_session_entry_at(s, cur) {
            Some(x) => x,
            None => {
                return None;
            },
        };
        proof {
            lemma_parse_session_entry_shrinks(s@.skip(cur as int));
            if np < n {
                let suf = s@.skip(np as int);
                assert(suf[0] == s@[np as int]);
                assert(suf.drop_first() =~= s@.skip(np as int + 1));
            }
        }
        let ghost pre = vs.deep_view();
        let ghost vv = v.deep_view();
        vs.push(v);
        proof {
            assert(vs.deep_view() =~= pre.push(vv));
        }
        if np < n && s[np] == ',' {
            proof {
                let nxt = parse_session_items(s@.skip(np as int + 1));
                if nxt is Some {
                    let tail = nxt.unwrap().0;
                    assert(pre + (seq![vv] + tail) =~= vs.deep_view() + tail);
                }
            }
            cur = np + 1;
        } else if np < n && s[np] == ']' {
            proof {
                assert(pre + seq![vv] =~= vs.deep_view());
                assert(vs.deep_view() + Seq::<PlaySessionEntryView>::empty() =~= vs.deep_view());
            }
            return Some((vs, np + 1));
        } else {
            return None;
        }
    }
}

fn parse_opt_session_array_at(s: &Vec<char>, pos: usize) -> (r: Option<
    (Option<Vec<crate::records::DbPlaySessionEntry>>, usize),
>)
    requires
        pos <= s.len(),
    ensures
        match r {
            None => parse_opt_session_array(s@.skip(pos as int)) is None,
            Some(p) => pos <= p.1 <= s@.len() && parse_opt_session_array(s@.skip(pos as int))
                == Some((p.0.deep_view(), s@.skip(p.1 as int))),
        },
{
    match parse_lit_at(s, pos, "null") {
        Some(np) => {
            return Some((None, np));
        },
        None => {},
    }
    match parse_session_array_at(s, pos) {
        Some((vs, np)) => Some((Some(vs), np)),
        None => None,
    }
}

fn parse_game_meta_close_at(s: &Vec<char>, pos: usize, head: crate::records::DbGameMeta) -> (r:
    Option<(crate::records::DbGameMeta, usize)>)
    requires
        pos <= s.len(),
    ensures
        match r {
            None => parse_game_meta_close(s@.skip(pos as int), head.deep_view()) is None,
            Some(p) => pos <= p.1 <= s@.len() && parse_game_meta_close(
                s@.skip(pos as int),
                head.deep_view(),
            ) == Some((p.0.deep_view(), s@.skip(p.1 as int))),
        },
{
    let p1 = match parse_lit_at(s, pos, ",\"previous_file_state\":") {
        Some(p) => p,
        None => {
            return None;
        },
    };
    let (previous_file_state, p2) = match parse_opt_file_array_at(s, p1) {
        Some(x) => x,
        None => {
            return None;
        },
    };
    let p3 = match parse_lit_at(s, p2, ",\"use_custom_config\":") {
        Some(p) => p,
        None => {
            return None;
        },
    };
    let (use_custom_config, p4) = match parse_opt_bool_at(s, p3) {
        Some(x) => x,
        None => {
            return None;
        },
    };
    let p5 = match parse_lit_at(s, p4, ",\"installed_at\":") {
        Some(p) => p,
        None => {
            return None;
        },
    };
    let (installed_at, p6) = match parse_opt_string_at(s, p5) {
        Some(x) => x,
        None => {
            return None;
        },
    };
    let p7 = match parse_lit_at(s, p6, "}") {
        Some(p) => p,
        None => {
            return None;
        },
    };
    let m = crate::records::DbGameMeta { previous_file_state, use_custom_config, installed_at, ..head };
    proof {
        assert(parse_game_meta_close(s@.skip(pos as int), head.deep_view()) matches Some(q)
            && q.0 =~= m.deep_view() && q.1 == s@.skip(p7 as int));
    }
    Some((m, p7))
}

fn parse_game_meta_tail_at(s: &Vec<char>, pos: usize, head: crate::records::DbGameMeta) -> (r:
    Option<(crate::records::DbGameMeta, usize)>)
    requires
        pos <= s.len(),
    ensures
        match r {
            None => parse_game_meta_tail(s@.skip(pos as int), head.deep_view()) is None,
            Some(p) => pos <= p.1 <= s@.len() && parse_game_meta_tail(
                s@.skip(pos as int),
                head.deep_view(),
            ) == Some((p.0.deep_view(), s@.skip(p.1 as int))),
        },
{
    let p1 = match parse_lit_at(s, pos, ",\"tags\":") {
        Some(p) => p,
        None => {
            return None;
        },
    };
    let (tags, p2) = match parse_opt_string_array_at(s, p1) {
        Some(x) => x,
        None => {
            return None;
        },
    };
    let p3 = match parse_lit_at(s, p2, ",\"iwad_id\":") {
        Some(p) => p,
        None => {
            return None;
        },
    };
    let (iwad_id, p4) = match parse_opt_string_at(s, p3) {
        Some(x) => x,
        None => {
            return None;
        },
    };
    let p5 = match parse_lit_at(s, p4, ",\"source_port\":") {
        Some(p) => p,
        None => {
            return None;
        },
    };
    let (source_port, p6) = match parse_opt_string_at(s, p5) {
        Some(x) => x,
        None => {
            return None;
        },
    };
    let p7 = match parse_lit_at(s, p6, ",\"extra_mod_ids\":") {
        Some(p) => p,
        None => {
            return None;
        },
    };
    let (extra_mod_ids, p8) = match parse_opt_string_array_at(s, p7) {
        Some(x) => x,
        None => {
            return None;
        },
    };
    let mid = crate::records::DbGameMeta { tags, iwad_id, source_port, extra_mod_ids, ..head };
    proof {
        assert(mid.deep_view() =~= (GameMetaView {
            tags: mid.deep_view().tags,
            iwad_id: mid.deep_view().iwad_id,
            source_port: mid.deep_view().source_port,
            extra_mod_ids: mid.deep_view().extra_mod_ids,
            ..head.deep_view()
        }));
    }
    match parse_game_meta_close_at(s, p8, mid) {
        Some(x) => Some(x),
        None => None,
    }
}

#[verifier::rlimit(60)]
fn parse_game_meta_obj_at(s: &Vec<char>, pos: usize) -> (r: Option<
    (crate::records::DbGameMeta, usize),
>)
    requires
        pos <= s.len(),
    ensures
        match r {
            None => parse_game_meta_obj(s@.skip(pos as int)) is None,
            Some(p) => pos <= p.1 <= s@.len() && parse_game_meta_obj(s@.skip(pos as int)) == Some(
                (p.0.deep_view(), s@.skip(p.1 as int)),
            ),
        },
{
    match parse_lit_at(s, pos, "{}") {
        Some(np) => {
            let m = crate::records::DbGameMeta {
                id: None,
                name: None,
                rating: None,
                description: None,
                notes: None,
                tags: None,
                iwad_id: None,
                source_port: None,
                extra_mod_ids: None,
                previous_file_state: None,
                use_custom_config: None,
                installed_at: None,
            };
            proof {
                assert(m.deep_view() =~= empty_game_meta());
            }
            return Some((m, np));
        },
        None => {},
    }
    let p1 = match parse_lit_at(s, pos, "{\"id\":") {
        Some(p) => p,
        None => {
            return None;
        },
    };
    let (id, p2) = match parse_opt_string_at(s, p1) {
        Some(x) => x,
        None => {
            return None;
        },
    };
    let p3 = match parse_lit_at(s, p2, ",\"name\":") {
        Some(p) => p,
        None => {
            return None;
        },
    };
    let (name, p4) = match parse_opt_string_at(s, p3) {
        Some(x) => x,
        None => {
            return None;
        },
    };
    let p5 = match parse_lit_at(s, p4, ",\"rating\":") {
        Some(p) => p,
        None => {
            return None;
        },
    };
    let (rating, p6) = match parse_opt_i32_at(s, p5) {
        Some(x) => x,
        None => {
            return None;
        },
    };
    let p7 = match parse_lit_at(s, p6, ",\"description\":") {
        Some(p) => p,
        None => {
            return None;
        },
    };
    let (description, p8) = match parse_opt_string_at(s, p7) {
        Some(x) => x,
        None => {
            return None;
        },
    };
    let p9 = match parse_lit_at(s, p8, ",\"notes\":") {
        Some(p) => p,
        None => {
            return None;
        },
    };
    let (notes, p10) = match parse_opt_string_at(s, p9) {
        Some(x) => x,
        None => {
            return None;
        },
    };
    let head = crate::records::DbGameMeta {
        id,
        name,
        rating,
        description,
        notes,
        tags: None,
        iwad_id: None,
        source_port: None,
        extra_mod_ids: None,
        previous_file_state: None,
        use_custom_config: None,
        installed_at: None,
    };
    proof {
        assert(head.deep_view() =~= (GameMetaView {
            id: head.deep_view().id,
            name: head.deep_view().name,
            rating: head.deep_view().rating,
            description: head.deep_view().description,
            notes: head.deep_view().notes,
            ..empty_game_meta()
        }));
    }
    match parse_game_meta_tail_at(s, p10, head) {
        Some(x) => Some(x),
        None => None,
    }
}

/// What parsing a whole stored game text yields: the record, provided
/// nothing follows it.
pub open spec fn parse_game_meta_full(s: Seq<char>) -> Option<GameMetaView> {
    match parse_game_meta_obj(s) {
        Some(p) => if p.1.len() == 0 {
            Some(p.0)
        } else {
            None
        },
        None => None,
    }
}

/// Reads a stored game record.
pub fn parse_game_meta(text: &str) -> (r: Option<crate::records::DbGameMeta>)
    ensures
        r.deep_view() == parse_game_meta_full(text@),
{
    let s = crate::text::str_chars(text);
    proof {
        assert(s@.skip(0) =~= text@);
    }
    match parse_game_meta_obj_at(&s, 0) {
        Some((m, np)) => {
            if np == s.len() {
                proof {
                    assert(s@.skip(np as int).len() == 0);
                }
                Some(m)
            } else {
                proof {
                    assert(s@.skip(np as int).len() > 0);
                }
                None
            }
        },
        None => None,
    }
}

/// Law: a game record written by `encode_game_meta` is read back by
/// `parse_game_meta` unchanged — in particular `previous_file_state` keeps
/// its order exactly.
pub proof fn lemma_game_meta_save_load(m: GameMetaView)
    ensures
        parse_game_meta_full(encode_game_meta_text(m)) == Some(m),
{
    lemma_game_meta_obj_round_trip(m, Seq::empty());
    assert(encode_game_meta_text(m) + Seq::<char>::empty() =~= encode_game_meta_text(m));
}

fn parse_source_port_obj_at(s: &Vec<char>, pos: usize) -> (r: Option<
    (crate::records::DbSourcePort, usize),
>)
    requires
        pos <= s.len(),
    ensures
        match r {
            None => parse_source_port_obj(s@.skip(pos as int)) is None,
            Some(p) => pos <= p.1 <= s@.len() && parse_source_port_obj(s@.skip(pos as int))
                == Some((p.0.deep_view(), s@.skip(p.1 as int))),
        },
{
    match parse_lit_at(s, pos, "{}") {
        Some(np) => {
            let m = crate::records::DbSourcePort {
                id: None,
                command: None,
                known_source_port_id: None,
                is_default: None,
            };
            proof {
                assert(m.deep_view() =~= empty_source_port());
            }
            return Some((m, np));
        },
        None => {},
    }
    let p1 = match parse_lit_at(s, pos, "{\"id\":") {
        Some(p) => p,
        None => {
            return None;
        },
    };
    let (id, p2) = match parse_opt_string_at(s, p1) {
        Some(x) => x,
        None => {
            return None;
        },
    };
    let p3 = match parse_lit_at(s, p2, ",\"command\":") {
        Some(p) => p,
        None => {
            return None;
        },
    };
    let (command, p4) = match parse_opt_string_array_at(s, p3) {
        Some(x) => x,
        None => {
            return None;
        },
    };
    let p5 = match parse_lit_at(s, p4, ",\"known_source_port_id\":") {
        Some(p) => p,
        None => {
            return None;
        },
    };
    let (known_source_port_id, p6) = match parse_opt_string_at(s, p5) {
        Some(x) => x,
        None => {
            return None;
        },
    };
    let p7 = match parse_lit_at(s, p6, ",\"is_default\":") {
        Some(p) => p,
        None => {
            return None;
        },
    };
    let (is_default, p8) = match parse_opt_bool_at(s, p7) {
        Some(x) => x,
        None => {
            return None;
        },
    };
    let p9 = match parse_lit_at(s, p8, "}") {
        Some(p) => p,
        None => {
            return None;
        },
    };
    let m = crate::records::DbSourcePort { id, command, known_source_port_id, is_default };
    proof {
        assert(parse_source_port_obj(s@.skip(pos as int)) matches Some(q) && q.0 =~= m.deep_view()
            && q.1 == s@.skip(p9 as int));
    }
    Some((m, p9))
}

/// What parsing a whole stored source-port text yields.
pub open spec fn parse_source_port_full(s: Seq<char>) -> Option<SourcePortConfigView> {
    match parse_source_port_obj(s) {
        Some(p) => if p.1.len() == 0 {
            Some(p.0)
        } else {
            None
        },
        None => None,
    }
}

/// Reads a stored source-port record.
pub fn parse_source_port(text: &str) -> (r: Option<crate::records::DbSourcePort>)
    ensures
        r.deep_view() == parse_source_port_full(text@),
{
    let s = crate::text::str_chars(text);
    proof {
        assert(s@.skip(0) =~= text@);
    }
    match parse_source_port_obj_at(&s, 0) {
        Some((m, np)) => {
            if np == s.len() {
                proof {
                    assert(s@.skip(np as int).len() == 0);
                }
                Some(m)
            } else {
                proof {
                    assert(s@.skip(np as int).len() > 0);
                }
                None
            }
        },
        None => None,
    }
}

/// Law: a source-port record written by `encode_source_port` is read back
/// by `parse_source_port` unchanged.
pub proof fn lemma_source_port_save_load(p: SourcePortConfigView)
    ensures
        parse_source_port_full(encode_source_port_text(p)) == Some(p),
{
    lemma_source_port_obj_round_trip(p, Seq::empty());
    assert(encode_source_port_text(p) + Seq::<char>::empty() =~= encode_source_port_text(p));
}

fn parse_play_session_obj_at(s: &Vec<char>, pos: usize) -> (r: Option<
    (crate::records::DbPlaySession, usize),
>)
    requires
        pos <= s.len(),
    ensures
        match r {
            None => parse_play_session_obj(s@.skip(pos as int)) is None,
            Some(p) => pos <= p.1 <= s@.len() && parse_play_session_obj(s@.skip(pos as int))
                == Some((p.0.deep_view(), s@.skip(p.1 as int))),
        },
{
    match parse_lit_at(s, pos, "{}") {
        Some(np) => {
            let m = crate::records::DbPlaySession { sessions: None };
            proof {
                assert(m.deep_view() =~= (PlaySessionListView { sessions: None }));
            }
            return Some((m, np));
        },
        None => {},
    }
    let p1 = match parse_lit_at(s, pos, "{\"sessions\":") {
        Some(p) => p,
        None => {
            return None;
        },
    };
    let (sessions, p2) = match parse_opt_session_array_at(s, p1) {
        Some(x) => x,
        None => {
            return None;
        },
    };
    let p3 = match parse_lit_at(s, p2, "}") {
        Some(p) => p,
        None => {
            return None;
        },
    };
    let m = crate::records::DbPlaySession { sessions };
    proof {
        assert(parse_play_session_obj(s@.skip(pos as int)) matches Some(q) && q.0 =~= m.deep_view()
            && q.1 == s@.skip(p3 as int));
    }
    Some((m, p3))
}

/// What parsing a whole stored play-session text yields.
pub open spec fn parse_play_session_full(s: Seq<char>) -> Option<PlaySessionListView> {
    match parse_play_session_obj(s) {
        Some(p) => if p.1.len() == 0 {
            Some(p.0)
        } else {
            None
        },
        None => None,
    }
}

/// Reads a stored play-session list.
pub fn parse_play_session(text: &str) -> (r: Option<crate::records::DbPlaySession>)
    ensures
        r.deep_view() == parse_play_session_full(text@),
{
    let s = crate::text::str_chars(text);
    proof {
        assert(s@.skip(0) =~= text@);
    }
    match parse_play_session_obj_at(&s, 0) {
        Some((m, np)) => {
            if np == s.len() {
                proof {
                    assert(s@.skip(np as int).len() == 0);
                }
                Some(m)
            } else {
                proof {
                    assert(s@.skip(np as int).len() > 0);
                }
                None
            }
        },
        None => None,
    }
}

/// Law: a play-session list written by `encode_play_session` is read back
/// by `parse_play_session` unchanged, its entries in their stored order.
pub proof fn lemma_play_session_save_load(l: PlaySessionListView)
    ensures
        parse_play_session_full(encode_play_session_text(l)) == Some(l),
{
    lemma_play_session_obj_round_trip(l, Seq::empty());
    assert(encode_play_session_text(l) + Seq::<char>::empty() =~= encode_play_session_text(l));
}

/// A loaded record with the requested id forced in and a missing name
/// defaulted to the normalized id.
pub open spec fn loaded_game_meta(id: Seq<char>, m: GameMetaView) -> GameMetaView {
    GameMetaView {
        id: Some(id),
        name: match m.name {
            Some(n) => Some(n),
            None => Some(crate::paths::normalized_id(id)),
        },
        ..m
    }
}

/// Reads a game's stored metadata text: the record's id is always the
/// requested one, and a missing name defaults to the normalized id.
pub fn load_game_meta_from_json(game_id: &str, json: &str) -> (r: Option<
    crate::records::DbGameMeta,
>)
    ensures
        match r {
            None => parse_game_meta_full(json@) is None,
            Some(g) => parse_game_meta_full(json@) matches Some(m) && g.deep_view()
                == loaded_game_meta(game_id@, m),
        },
{
    match parse_game_meta(json) {
        None => None,
        Some(g) => {
            let mut g = g;
            g.id = Some(game_id.to_owned());
            if g.name.is_none() {
                g.name = Some(crate::paths::normalize_name_from_id(game_id).to_owned());
            }
            proof {
                let m = parse_game_meta_full(json@).unwrap();
                assert(g.deep_view() =~= loaded_game_meta(game_id@, m));
            }
            Some(g)
        },
    }
}

/// Looks a game up from its stored metadata text, when the store has one.
pub fn find_game_by_id(id: &str, meta_json: &Option<String>) -> (r: Option<
    crate::records::DbGameMeta,
>)
    ensures
        meta_json is None ==> r is None,
        match meta_json.deep_view() {
            None => r is None,
            Some(json) => match r {
                None => parse_game_meta_full(json) is None,
                Some(g) => parse_game_meta_full(json) matches Some(m) && g.deep_view()
                    == loaded_game_meta(id@, m),
            },
        },
{
    match meta_json {
        None => None,
        Some(json) => load_game_meta_from_json(id, json.as_str()),
    }
}

} // verus!
