//! Character-level string utilities: conversion between `String` and
//! `Vec<char>`, separator splitting, decimal rendering of integers, ASCII
//! lowercasing, and lexicographic comparison of names.
//!
//! All executable functions here are specified against `Seq<char>` views, so
//! callers can reason about the exact text they produce or consume.

use vstd::prelude::*;
use vstd::string::{StrSliceExecFns, StringExecFns};

verus! {

/// Relies on String::push: appends the given character to the end of the
/// string, leaving the preceding characters unchanged.
#[verifier::external_body]
pub(crate) fn push_char(s: &mut String, c: char)
    ensures
        final(s)@ == old(s)@.push(c),
{
    s.push(c)
}

/// Collects the characters of a string slice into a vector.
pub fn str_to_chars(s: &str) -> (r: Vec<char>)
    ensures
        r@ == s@,
{
    let n = s.unicode_len();
    let mut r: Vec<char> = Vec::new();
    let mut i: usize = 0;
    while i < n
        invariant
            n == s@.len(),
            i <= n,
            r@ == s@.subrange(0, i as int),
        decreases n - i,
    {
        r.push(s.get_char(i));
        i = i + 1;
        proof {
            assert(r@ =~= s@.subrange(0, i as int));
        }
    }
    proof {
        assert(r@ =~= s@);
    }
    r
}

/// Builds a string whose characters are exactly those of the given vector.
pub fn chars_to_string(v: &Vec<char>) -> (r: String)
    ensures
        r@ == v@,
{
    let mut r = String::new();
    let mut i: usize = 0;
    while i < v.len()
        invariant
            i <= v@.len(),
            r@ == v@.subrange(0, i as int),
        decreases v@.len() - i,
    {
        push_char(&mut r, v[i]);
        i = i + 1;
        proof {
            assert(r@ =~= v@.subrange(0, i as int));
        }
    }
    proof {
        assert(r@ =~= v@);
    }
    r
}

/// Index of the first occurrence of `sep` in `s`, or -1 if `sep` does not
/// occur.
pub open spec fn spec_find(s: Seq<char>, sep: char) -> int
    decreases s.len(),
{
    if s.len() == 0 {
        -1
    } else if s[0] == sep {
        0
    } else {
        let r = spec_find(s.drop_first(), sep);
        if r < 0 {
            -1
        } else {
            r + 1
        }
    }
}

/// `spec_find` returns a position in range; a non-negative result is the
/// first occurrence of the separator, and -1 means there is none.
pub proof fn lemma_find_props(s: Seq<char>, sep: char)
    ensures
        -1 <= spec_find(s, sep) < s.len(),
        spec_find(s, sep) >= 0 ==> s[spec_find(s, sep)] == sep,
        forall|j: int| 0 <= j < spec_find(s, sep) ==> s[j] != sep,
        spec_find(s, sep) == -1 ==> forall|j: int| 0 <= j < s.len() ==> s[j] != sep,
    decreases s.len(),
{
    if s.len() == 0 {
    } else if s[0] == sep {
    } else {
        lemma_find_props(s.drop_first(), sep);
        let r = spec_find(s.drop_first(), sep);
        if r >= 0 {
            assert forall|j: int| 0 <= j < spec_find(s, sep) implies s[j] != sep by {
                if j > 0 {
                    assert(s.drop_first()[j - 1] == s[j]);
                }
            }
        } else {
            assert forall|j: int| 0 <= j < s.len() implies s[j] != sep by {
                if j > 0 {
                    assert(s.drop_first()[j - 1] == s[j]);
                }
            }
        }
    }
}

#[via_fn]
proof fn spec_split_decreases(s: Seq<char>, sep: char) {
    lemma_find_props(s, sep);
}

/// Splits `s` at every occurrence of `sep`. Every occurrence separates two
/// pieces, so n occurrences yield n + 1 pieces; the empty sequence yields one
/// empty piece.
pub open spec fn spec_split(s: Seq<char>, sep: char) -> Seq<Seq<char>>
    decreases s.len(),
        via spec_split_decreases
{
    let i = spec_find(s, sep);
    if i < 0 {
        seq![s]
    } else {
        seq![s.take(i)] + spec_split(s.skip(i + 1), sep)
    }
}

/// A sequence without the separator splits into a single piece: itself.
pub proof fn lemma_split_no_sep(s: Seq<char>, sep: char)
    requires
        forall|j: int| 0 <= j < s.len() ==> s[j] != sep,
    ensures
        spec_split(s, sep) == seq![s],
{
    lemma_find_props(s, sep);
}

/// The first occurrence of `sep` in `a + [sep] + b` is right after `a`, when
/// `a` itself is free of the separator.
proof fn lemma_find_concat(a: Seq<char>, b: Seq<char>, sep: char)
    requires
        forall|j: int| 0 <= j < a.len() ==> a[j] != sep,
    ensures
        spec_find(a + seq![sep] + b, sep) == a.len(),
    decreases a.len(),
{
    let s = a + seq![sep] + b;
    if a.len() == 0 {
        assert(s[0] == sep);
    } else {
        assert(s[0] == a[0]);
        lemma_find_concat(a.drop_first(), b, sep);
        assert(s.drop_first() =~= a.drop_first() + seq![sep] + b);
    }
}

/// Splitting `a + [sep] + b` yields `a` followed by the pieces of `b`, when
/// `a` is free of the separator.
pub proof fn lemma_split_step(a: Seq<char>, b: Seq<char>, sep: char)
    requires
        forall|j: int| 0 <= j < a.len() ==> a[j] != sep,
    ensures
        spec_split(a + seq![sep] + b, sep) == seq![a] + spec_split(b, sep),
{
    let s = a + seq![sep] + b;
    lemma_find_concat(a, b, sep);
    assert(s.take(a.len() as int) =~= a);
    assert(s.skip(a.len() as int + 1) =~= b);
}

/// Splits the characters of `v` at every occurrence of `sep`.
pub fn split_chars(v: &Vec<char>, sep: char) -> (r: Vec<Vec<char>>)
    ensures
        r.deep_view() == spec_split(v@, sep),
{
    let mut r: Vec<Vec<char>> = Vec::new();
    let mut cur: Vec<char> = Vec::new();
    let ghost mut start: int = 0;
    let mut i: usize = 0;
    proof {
        assert(v@.skip(0) =~= v@);
        assert(r.deep_view() =~= Seq::<Seq<char>>::empty());
        assert(r.deep_view() + spec_split(v@, sep) =~= spec_split(v@, sep));
    }
    while i < v.len()
        invariant
            0 <= start <= i <= v@.len(),
            cur@ == v@.subrange(start, i as int),
            forall|j: int| start <= j < i ==> v@[j] != sep,
            spec_split(v@, sep) == r.deep_view() + spec_split(v@.skip(start), sep),
        decreases v@.len() - i,
    {
        let c = v[i];
        if c == sep {
            proof {
                assert(v@.skip(start) =~= cur@ + seq![sep] + v@.skip(i + 1));
                lemma_split_step(cur@, v@.skip(i + 1), sep);
            }
            let ghost old_pieces = r.deep_view();
            let ghost piece = cur@;
            proof {
                assert(cur.deep_view() =~= piece);
            }
            r.push(cur);
            cur = Vec::new();
            proof {
                assert(r.deep_view() =~= old_pieces.push(piece));
                assert(old_pieces + (seq![piece] + spec_split(v@.skip(i + 1), sep))
                    =~= old_pieces.push(piece) + spec_split(v@.skip(i + 1), sep));
                start = i + 1;
                assert(cur@ =~= v@.subrange(start, i + 1));
            }
        } else {
            cur.push(c);
            proof {
                assert(cur@ =~= v@.subrange(start, i + 1));
            }
        }
        i = i + 1;
    }
    proof {
        assert(cur@ =~= v@.skip(start));
        lemma_split_no_sep(v@.skip(start), sep);
    }
    let ghost old_pieces = r.deep_view();
    let ghost piece = cur@;
    proof {
        assert(cur.deep_view() =~= piece);
    }
    r.push(cur);
    proof {
        assert(r.deep_view() =~= old_pieces.push(piece));
        assert(old_pieces + seq![piece] =~= old_pieces.push(piece));
        assert(old_pieces + (seq![piece] + Seq::<Seq<char>>::empty()) =~= old_pieces + seq![piece]);
        assert(r.deep_view() =~= spec_split(v@, sep));
    }
    r
}

/// The decimal digit character for a value below ten.
pub open spec fn spec_digit_char(d: int) -> char {
    if d == 0 {
        '0'
    } else if d == 1 {
        '1'
    } else if d == 2 {
        '2'
    } else if d == 3 {
        '3'
    } else if d == 4 {
        '4'
    } else if d == 5 {
        '5'
    } else if d == 6 {
        '6'
    } else if d == 7 {
        '7'
    } else if d == 8 {
        '8'
    } else {
        '9'
    }
}

/// The decimal rendering of a natural number, most significant digit first,
/// without leading zeros (zero itself renders as one digit).
pub open spec fn spec_u64_dec(n: nat) -> Seq<char>
    decreases n,
{
    if n < 10 {
        seq![spec_digit_char(n as int)]
    } else {
        spec_u64_dec(n / 10) + seq![spec_digit_char((n % 10) as int)]
    }
}

fn digit_char(d: u64) -> (c: char)
    requires
        d < 10,
    ensures
        c == spec_digit_char(d as int),
{
    if d == 0 {
        '0'
    } else if d == 1 {
        '1'
    } else if d == 2 {
        '2'
    } else if d == 3 {
        '3'
    } else if d == 4 {
        '4'
    } else if d == 5 {
        '5'
    } else if d == 6 {
        '6'
    } else if d == 7 {
        '7'
    } else if d == 8 {
        '8'
    } else {
        '9'
    }
}

/// Appends the decimal rendering of `n` to `out`.
pub fn push_u64_dec(out: &mut String, n: u64)
    ensures
        final(out)@ == old(out)@ + spec_u64_dec(n as nat),
    decreases n,
{
    if n < 10 {
        push_char(out, digit_char(n));
        proof {
            assert(final(out)@ =~= old(out)@ + spec_u64_dec(n as nat));
        }
    } else {
        push_u64_dec(out, n / 10);
        push_char(out, digit_char(n % 10));
        proof {
            assert(final(out)@ =~= old(out)@ + spec_u64_dec(n as nat));
        }
    }
}

/// The decimal rendering of `n` as a fresh string.
pub fn u64_to_string(n: u64) -> (r: String)
    ensures
        r@ == spec_u64_dec(n as nat),
{
    let mut r = String::new();
    push_u64_dec(&mut r, n);
    proof {
        assert(r@ =~= spec_u64_dec(n as nat));
    }
    r
}

/// The ASCII lowercase counterpart of a character; characters outside `A`-`Z`
/// are unchanged.
pub open spec fn spec_lower_char(c: char) -> char {
    if c == 'A' {
        'a'
    } else if c == 'B' {
        'b'
    } else if c == 'C' {
        'c'
    } else if c == 'D' {
        'd'
    } else if c == 'E' {
        'e'
    } else if c == 'F' {
        'f'
    } else if c == 'G' {
        'g'
    } else if c == 'H' {
        'h'
    } else if c == 'I' {
        'i'
    } else if c == 'J' {
        'j'
    } else if c == 'K' {
        'k'
    } else if c == 'L' {
        'l'
    } else if c == 'M' {
        'm'
    } else if c == 'N' {
        'n'
    } else if c == 'O' {
        'o'
    } else if c == 'P' {
        'p'
    } else if c == 'Q' {
        'q'
    } else if c == 'R' {
        'r'
    } else if c == 'S' {
        's'
    } else if c == 'T' {
        't'
    } else if c == 'U' {
        'u'
    } else if c == 'V' {
        'v'
    } else if c == 'W' {
        'w'
    } else if c == 'X' {
        'x'
    } else if c == 'Y' {
        'y'
    } else if c == 'Z' {
        'z'
    } else {
        c
    }
}

/// The character-wise ASCII lowercasing of a sequence.
pub open spec fn spec_lower(s: Seq<char>) -> Seq<char> {
    s.map_values(|c: char| spec_lower_char(c))
}

fn lower_char(c: char) -> (r: char)
    ensures
        r == spec_lower_char(c),
{
    let u = c as u32;
    if 65 <= u && u <= 90 {
        if c == 'A' {
            'a'
        } else if c == 'B' {
            'b'
        } else if c == 'C' {
            'c'
        } else if c == 'D' {
            'd'
        } else if c == 'E' {
            'e'
        } else if c == 'F' {
            'f'
        } else if c == 'G' {
            'g'
        } else if c == 'H' {
            'h'
        } else if c == 'I' {
            'i'
        } else if c == 'J' {
            'j'
        } else if c == 'K' {
            'k'
        } else if c == 'L' {
            'l'
        } else if c == 'M' {
            'm'
        } else if c == 'N' {
            'n'
        } else if c == 'O' {
            'o'
        } else if c == 'P' {
            'p'
        } else if c == 'Q' {
            'q'
        } else if c == 'R' {
            'r'
        } else if c == 'S' {
            's'
        } else if c == 'T' {
            't'
        } else if c == 'U' {
            'u'
        } else if c == 'V' {
            'v'
        } else if c == 'W' {
            'w'
        } else if c == 'X' {
            'x'
        } else if c == 'Y' {
            'y'
        } else {
            'z'
        }
    } else {
        c
    }
}

/// ASCII-lowercases every character of a string.
pub fn lower_ascii(s: &str) -> (r: String)
    ensures
        r@ == spec_lower(s@),
{
    let chars = str_to_chars(s);
    let mut r = String::new();
    let mut i: usize = 0;
    while i < chars.len()
        invariant
            chars@ == s@,
            i <= chars@.len(),
            r@ == spec_lower(s@.subrange(0, i as int)),
        decreases chars@.len() - i,
    {
        push_char(&mut r, lower_char(chars[i]));
        i = i + 1;
        proof {
            assert(r@ =~= spec_lower(s@.subrange(0, i as int)));
        }
    }
    proof {
        assert(r@ =~= spec_lower(s@));
    }
    r
}

/// Lexicographic order on character sequences by code point: `a` comes no
/// later than `b`.
pub open spec fn spec_lex_le(a: Seq<char>, b: Seq<char>) -> bool
    decreases a.len(),
{
    if a.len() == 0 {
        true
    } else if b.len() == 0 {
        false
    } else if (a[0] as u32) < (b[0] as u32) {
        true
    } else if (a[0] as u32) > (b[0] as u32) {
        false
    } else {
        spec_lex_le(a.drop_first(), b.drop_first())
    }
}

/// The lexicographic order is total: two sequences always compare one way
/// or the other.
pub proof fn lemma_lex_le_total(a: Seq<char>, b: Seq<char>)
    ensures
        spec_lex_le(a, b) || spec_lex_le(b, a),
    decreases a.len(),
{
    if a.len() == 0 {
    } else if b.len() == 0 {
    } else if (a[0] as u32) == (b[0] as u32) {
        lemma_lex_le_total(a.drop_first(), b.drop_first());
    }
}

/// The lexicographic order is transitive.
pub proof fn lemma_lex_le_trans(a: Seq<char>, b: Seq<char>, c: Seq<char>)
    requires
        spec_lex_le(a, b),
        spec_lex_le(b, c),
    ensures
        spec_lex_le(a, c),
    decreases a.len(),
{
    if a.len() == 0 {
    } else {
        assert(b.len() > 0);
        assert(c.len() > 0);
        if (a[0] as u32) == (b[0] as u32) && (b[0] as u32) == (c[0] as u32) {
            lemma_lex_le_trans(a.drop_first(), b.drop_first(), c.drop_first());
        }
    }
}

/// Compares two character vectors lexicographically by code point.
pub fn lex_le(a: &Vec<char>, b: &Vec<char>) -> (r: bool)
    ensures
        r == spec_lex_le(a@, b@),
{
    let mut i: usize = 0;
    proof {
        assert(a@.skip(0) =~= a@);
        assert(b@.skip(0) =~= b@);
    }
    loop
        invariant
            i <= a@.len(),
            i <= b@.len(),
            spec_lex_le(a@, b@) == spec_lex_le(a@.skip(i as int), b@.skip(i as int)),
        decreases a@.len() - i,
    {
        if i == a.len() {
            proof {
                assert(a@.skip(i as int).len() == 0);
            }
            return true;
        }
        if i == b.len() {
            proof {
                assert(b@.skip(i as int).len() == 0);
                assert(a@.skip(i as int).len() > 0);
            }
            return false;
        }
        let ca = a[i] as u32;
        let cb = b[i] as u32;
        proof {
            assert(a@.skip(i as int)[0] == a@[i as int]);
            assert(b@.skip(i as int)[0] == b@[i as int]);
        }
        if ca < cb {
            return true;
        }
        if ca > cb {
            return false;
        }
        proof {
            assert(a@.skip(i as int).drop_first() =~= a@.skip(i + 1));
            assert(b@.skip(i as int).drop_first() =~= b@.skip(i + 1));
        }
        i = i + 1;
    }
}

/// The pieces joined with `sep` between each pair, with no leading or
/// trailing separator.
pub open spec fn spec_join(pieces: Seq<Seq<char>>, sep: char) -> Seq<char>
    decreases pieces.len(),
{
    if pieces.len() == 0 {
        seq![]
    } else if pieces.len() == 1 {
        pieces[0]
    } else {
        pieces[0] + seq![sep] + spec_join(pieces.drop_first(), sep)
    }
}

/// Joining one more piece at the end appends a separator and that piece.
pub proof fn lemma_join_snoc(pieces: Seq<Seq<char>>, sep: char)
    requires
        pieces.len() >= 2,
    ensures
        spec_join(pieces, sep) == spec_join(pieces.drop_last(), sep) + seq![sep] + pieces.last(),
    decreases pieces.len(),
{
    if pieces.len() == 2 {
        assert(pieces.drop_first().len() == 1);
        assert(pieces.drop_first()[0] == pieces[1]);
        assert(pieces.drop_last().len() == 1);
        assert(pieces.drop_last()[0] == pieces[0]);
        assert(spec_join(pieces, sep) == pieces[0] + seq![sep] + spec_join(
            pieces.drop_first(),
            sep,
        ));
        assert(spec_join(pieces.drop_first(), sep) == pieces[1]);
        assert(spec_join(pieces.drop_last(), sep) == pieces[0]);
    } else {
        let rest = pieces.drop_first();
        lemma_join_snoc(rest, sep);
        assert(pieces.drop_last().len() >= 2);
        assert(pieces.drop_last()[0] == pieces[0]);
        assert(pieces.drop_last().drop_first() =~= rest.drop_last());
        assert(rest.last() == pieces.last());
        assert(spec_join(pieces, sep) == pieces[0] + seq![sep] + spec_join(rest, sep));
        assert(spec_join(pieces.drop_last(), sep) == pieces[0] + seq![sep] + spec_join(
            pieces.drop_last().drop_first(),
            sep,
        ));
        assert(pieces[0] + seq![sep] + (spec_join(rest.drop_last(), sep) + seq![sep]
            + pieces.last()) =~= (pieces[0] + seq![sep] + spec_join(rest.drop_last(), sep))
            + seq![sep] + pieces.last());
    }
}

/// Joins the pieces with `sep` between each pair.
pub fn join_lines(pieces: &Vec<String>, sep: char) -> (r: String)
    ensures
        r@ == spec_join(pieces.deep_view(), sep),
{
    let ghost ps = pieces.deep_view();
    let mut r = String::new();
    let mut i: usize = 0;
    while i < pieces.len()
        invariant
            ps == pieces.deep_view(),
            ps.len() == pieces@.len(),
            forall|j: int| 0 <= j < ps.len() ==> ps[j] == pieces@[j]@,
            i <= ps.len(),
            r@ == spec_join(ps.take(i as int), sep),
        decreases ps.len() - i,
    {
        if i > 0 {
            push_char(&mut r, sep);
        }
        r.append(pieces[i].as_str());
        proof {
            let pref = ps.take(i + 1);
            assert(pref.last() == ps[i as int]);
            assert(pref.drop_last() =~= ps.take(i as int));
            if i == 0 {
                assert(pref.len() == 1);
                assert(pref[0] == ps[0]);
                assert(r@ =~= spec_join(pref, sep));
            } else {
                lemma_join_snoc(pref, sep);
                assert(r@ =~= spec_join(ps.take(i as int), sep) + seq![sep] + ps[i as int]);
            }
        }
        i = i + 1;
    }
    proof {
        assert(ps.take(ps.len() as int) =~= ps);
    }
    r
}

/// Whether `c` is a decimal digit.
pub open spec fn spec_is_digit(c: char) -> bool {
    48 <= c as u32 <= 57
}

/// The numeric value of a decimal digit character.
pub open spec fn spec_digit_val(c: char) -> nat {
    ((c as u32) - 48) as nat
}

/// The value of a digit sequence read in base ten, most significant digit
/// first; empty reads as zero.
pub open spec fn spec_digits_value(s: Seq<char>) -> nat
    decreases s.len(),
{
    if s.len() == 0 {
        0
    } else {
        spec_digits_value(s.drop_last()) * 10 + spec_digit_val(s.last())
    }
}

/// A nonempty sequence of decimal digits.
pub open spec fn spec_all_digits(s: Seq<char>) -> bool {
    s.len() > 0 && forall|i: int| 0 <= i < s.len() ==> spec_is_digit(#[trigger] s[i])
}

/// The digits of a number text: the text with a single leading plus sign
/// stripped.
pub open spec fn spec_num_body(s: Seq<char>) -> Seq<char> {
    if s.len() > 0 && s[0] == '+' {
        s.drop_first()
    } else {
        s
    }
}

/// What parsing an unsigned decimal number accepts: an optional leading
/// plus sign, then one or more digits, whose value fits the target type.
pub open spec fn spec_parse_u64(s: Seq<char>) -> Option<u64> {
    let t = spec_num_body(s);
    if spec_all_digits(t) && spec_digits_value(t) <= u64::MAX as nat {
        Some(spec_digits_value(t) as u64)
    } else {
        None
    }
}

/// The value of a digit sequence only grows as digits are appended.
proof fn lemma_digits_value_mono(s: Seq<char>, m: int)
    requires
        0 <= m <= s.len(),
    ensures
        spec_digits_value(s.take(m)) <= spec_digits_value(s),
    decreases s.len() - m,
{
    if m < s.len() {
        lemma_digits_value_mono(s, m + 1);
        assert(s.take(m + 1).drop_last() =~= s.take(m));
        assert(s.take(m + 1).last() == s[m]);
        assert(spec_digits_value(s.take(m + 1)) == spec_digits_value(s.take(m)) * 10
            + spec_digit_val(s[m]));
        assert(spec_digits_value(s.take(m)) <= spec_digits_value(s.take(m)) * 10) by (nonlinear_arith);
    } else {
        assert(s.take(m) =~= s);
    }
}

/// Parses an unsigned decimal number: an optional leading plus sign, then
/// one or more digits; anything else, or a value over the `u64` range,
/// parses to nothing.
pub fn parse_u64(s: &str) -> (r: Option<u64>)
    ensures
        r == spec_parse_u64(s@),
{
    let chars = str_to_chars(s);
    let mut i: usize = 0;
    if chars.len() > 0 && chars[0] == '+' {
        i = 1;
    }
    let ghost t = spec_num_body(s@);
    let off = i;
    proof {
        assert(t =~= s@.skip(off as int));
    }
    if i == chars.len() {
        proof {
            assert(t.len() == 0);
        }
        return None;
    }
    let mut acc: u64 = 0;
    while i < chars.len()
        invariant
            chars@ == s@,
            t == spec_num_body(s@),
            t == s@.skip(off as int),
            off <= i <= chars@.len(),
            off < chars@.len(),
            forall|k: int| 0 <= k < i - off ==> spec_is_digit(#[trigger] t[k]),
            acc as nat == spec_digits_value(t.take(i - off)),
        decreases chars@.len() - i,
    {
        let c = chars[i];
        let u = c as u32;
        proof {
            assert(t[i - off] == s@[i as int]);
        }
        if !(48 <= u && u <= 57) {
            proof {
                assert(0 <= i - off < t.len());
                assert(!spec_is_digit(t[i - off]));
                assert(!spec_all_digits(t));
                assert(spec_parse_u64(s@) is None);
            }
            return None;
        }
        let d = (u - 48) as u64;
        proof {
            assert(t.take(i - off + 1).drop_last() =~= t.take(i - off));
            assert(t.take(i - off + 1).last() == t[i - off]);
        }
        if acc > (u64::MAX - d) / 10 {
            proof {
                assert(spec_digits_value(t.take(i - off + 1)) == acc as nat * 10 + d as nat);
                assert(acc as nat * 10 + d as nat > u64::MAX as nat) by (nonlinear_arith)
                    requires
                        acc > (u64::MAX - d) / 10,
                        d <= 9,
                ;
                lemma_digits_value_mono(t, i - off + 1);
                assert(spec_digits_value(t) > u64::MAX as nat);
                assert(spec_parse_u64(s@) is None);
            }
            return None;
        }
        proof {
            assert(acc * 10 + d <= u64::MAX) by (nonlinear_arith)
                requires
                    acc <= (u64::MAX - d) / 10,
                    d <= 9,
            ;
        }
        acc = acc * 10 + d;
        i = i + 1;
    }
    proof {
        assert(t.take(t.len() as int) =~= t);
        assert(spec_all_digits(t));
    }
    Some(acc)
}

/// Tests two string slices for equality of their character sequences.
pub fn str_eq(a: &str, b: &str) -> (r: bool)
    ensures
        r == (a@ == b@),
{
    let sa = a.to_owned();
    let sb = b.to_owned();
    sa.eq(&sb)
}

/// Compares two strings lexicographically by code point.
pub fn str_le(a: &String, b: &String) -> (r: bool)
    ensures
        r == spec_lex_le(a@, b@),
{
    let ca = str_to_chars(a.as_str());
    let cb = str_to_chars(b.as_str());
    lex_le(&ca, &cb)
}

} // verus!
