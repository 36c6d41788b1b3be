//! Byte-level source text helpers: splitting source into lines, splitting a
//! line into whitespace-separated tokens with comment stripping, and parsing
//! decimal or `0x`-prefixed hexadecimal integer literals.

use vstd::prelude::*;

verus! {

/// ASCII whitespace, the token separators of the source language.
pub open spec fn spec_is_space(b: u8) -> bool {
    b == 32 || b == 9 || b == 13 || b == 11 || b == 12
}

/// ASCII decimal digit.
pub open spec fn spec_is_digit(b: u8) -> bool {
    48 <= b && b <= 57
}

/// ASCII hexadecimal digit.
pub open spec fn spec_is_hex_digit(b: u8) -> bool {
    spec_is_digit(b) || (97 <= b && b <= 102) || (65 <= b && b <= 70)
}

/// Value of a hexadecimal digit byte.
pub open spec fn spec_hex_digit_value(b: u8) -> int {
    if spec_is_digit(b) {
        b - 48
    } else if 97 <= b && b <= 102 {
        b - 87
    } else {
        b - 55
    }
}

pub open spec fn spec_all_digits(s: Seq<u8>) -> bool {
    forall|i: int| 0 <= i < s.len() ==> spec_is_digit(#[trigger] s[i])
}

pub open spec fn spec_all_hex_digits(s: Seq<u8>) -> bool {
    forall|i: int| 0 <= i < s.len() ==> spec_is_hex_digit(#[trigger] s[i])
}

/// Numeric value of a digit string read in base ten.
pub open spec fn spec_dec_value(s: Seq<u8>) -> int
    decreases s.len(),
{
    if s.len() == 0 {
        0
    } else {
        spec_dec_value(s.drop_last()) * 10 + (s.last() - 48)
    }
}

/// Numeric value of a digit string read in base sixteen.
pub open spec fn spec_hex_value(s: Seq<u8>) -> int
    decreases s.len(),
{
    if s.len() == 0 {
        0
    } else {
        spec_hex_value(s.drop_last()) * 16 + spec_hex_digit_value(s.last())
    }
}

/// What parsing a `u32` literal yields: a nonempty all-digit string whose
/// value fits, or a `0x`/`0X` prefix followed by a nonempty hexadecimal
/// digit string whose value fits.
pub open spec fn spec_parse_u32(s: Seq<u8>) -> Option<u32> {
    if s.len() >= 3 && s[0] == 48 && (s[1] == 120 || s[1] == 88) {
        let rest = s.skip(2);
        if spec_all_hex_digits(rest) && spec_hex_value(rest) <= u32::MAX {
            Some(spec_hex_value(rest) as u32)
        } else {
            None
        }
    } else {
        if s.len() > 0 && spec_all_digits(s) && spec_dec_value(s) <= u32::MAX {
            Some(spec_dec_value(s) as u32)
        } else {
            None
        }
    }
}

/// A `u16` literal is a `u32` literal whose value fits in 16 bits.
pub open spec fn spec_parse_u16(s: Seq<u8>) -> Option<u16> {
    match spec_parse_u32(s) {
        Some(v) => if v <= u16::MAX as u32 {
            Some(v as u16)
        } else {
            None
        },
        None => None,
    }
}

/// A `u8` literal is a `u32` literal whose value fits in 8 bits.
pub open spec fn spec_parse_u8(s: Seq<u8>) -> Option<u8> {
    match spec_parse_u32(s) {
        Some(v) => if v <= u8::MAX as u32 {
            Some(v as u8)
        } else {
            None
        },
        None => None,
    }
}

proof fn lemma_dec_value_nonneg(s: Seq<u8>)
    requires
        spec_all_digits(s),
    ensures
        spec_dec_value(s) >= 0,
    decreases s.len(),
{
    if s.len() > 0 {
        assert(spec_all_digits(s.drop_last()));
        lemma_dec_value_nonneg(s.drop_last());
    }
}

proof fn lemma_dec_value_take_succ(s: Seq<u8>, i: int)
    requires
        0 <= i < s.len(),
    ensures
        spec_dec_value(s.take(i + 1)) == spec_dec_value(s.take(i)) * 10 + (s[i] - 48),
    decreases s.len(),
{
    assert(s.take(i + 1).drop_last() =~= s.take(i));
    assert(s.take(i + 1).last() == s[i]);
}

proof fn lemma_dec_value_grows(s: Seq<u8>, i: int)
    requires
        spec_all_digits(s),
        0 <= i <= s.len(),
    ensures
        spec_dec_value(s) >= spec_dec_value(s.take(i)),
    decreases s.len() - i,
{
    if i == s.len() {
        assert(s.take(i) =~= s);
    } else {
        lemma_dec_value_take_succ(s, i);
        assert(spec_all_digits(s.take(i)));
        lemma_dec_value_nonneg(s.take(i));
        lemma_dec_value_grows(s, i + 1);
    }
}

proof fn lemma_hex_value_nonneg(s: Seq<u8>)
    requires
        spec_all_hex_digits(s),
    ensures
        spec_hex_value(s) >= 0,
    decreases s.len(),
{
    if s.len() > 0 {
        assert(spec_all_hex_digits(s.drop_last()));
        lemma_hex_value_nonneg(s.drop_last());
    }
}

proof fn lemma_hex_value_take_succ(s: Seq<u8>, i: int)
    requires
        0 <= i < s.len(),
    ensures
        spec_hex_value(s.take(i + 1)) == spec_hex_value(s.take(i)) * 16 + spec_hex_digit_value(
            s[i],
        ),
    decreases s.len(),
{
    assert(s.take(i + 1).drop_last() =~= s.take(i));
    assert(s.take(i + 1).last() == s[i]);
}

proof fn lemma_hex_value_grows(s: Seq<u8>, i: int)
    requires
        spec_all_hex_digits(s),
        0 <= i <= s.len(),
    ensures
        spec_hex_value(s) >= spec_hex_value(s.take(i)),
    decreases s.len() - i,
{
    if i == s.len() {
        assert(s.take(i) =~= s);
    } else {
        lemma_hex_value_take_succ(s, i);
        assert(spec_all_hex_digits(s.take(i)));
        lemma_hex_value_nonneg(s.take(i));
        lemma_hex_value_grows(s, i + 1);
    }
}

/// Lowercase an ASCII letter byte; other bytes are unchanged.
pub open spec fn spec_lower(b: u8) -> u8 {
    if 65 <= b && b <= 90 {
        (b + 32) as u8
    } else {
        b
    }
}

/// Lowercase a token byte for byte, so that mnemonics match in any case.
pub fn lower_token(t: &Vec<u8>) -> (r: Vec<u8>)
    ensures
        r@ == t@.map_values(|b: u8| spec_lower(b)),
{
    let n = t.len();
    let mut low: Vec<u8> = Vec::new();
    let mut i: usize = 0;
    while i < n
        invariant
            0 <= i <= n,
            n == t@.len(),
            low@ == t@.take(i as int).map_values(|b: u8| spec_lower(b)),
        decreases n - i,
    {
        let b = t[i];
        if 65 <= b && b <= 90 {
            low.push(b + 32);
        } else {
            low.push(b);
        }
        proof {
            assert(low@ =~= t@.take(i + 1).map_values(|b: u8| spec_lower(b)));
        }
        i = i + 1;
    }
    proof {
        assert(t@.take(n as int) =~= t@);
    }
    low
}

/// Length of the token at the head of `s`: the number of leading bytes
/// before the first whitespace byte.
pub open spec fn spec_token_len(s: Seq<u8>) -> nat
    decreases s.len(),
{
    if s.len() == 0 || spec_is_space(s[0]) {
        0
    } else {
        1 + spec_token_len(s.drop_first())
    }
}

/// The whitespace-separated tokens of a line, in order.
pub open spec fn spec_tokenize(s: Seq<u8>) -> Seq<Seq<u8>>
    decreases s.len(),
    via spec_tokenize_decreases
{
    if s.len() == 0 {
        Seq::empty()
    } else if spec_is_space(s[0]) {
        spec_tokenize(s.drop_first())
    } else {
        seq![s.take(spec_token_len(s) as int)] + spec_tokenize(s.skip(spec_token_len(s) as int))
    }
}

#[via_fn]
proof fn spec_tokenize_decreases(s: Seq<u8>) {
    lemma_token_len_bounds(s);
}

pub open spec fn spec_has_semicolon(t: Seq<u8>) -> bool {
    exists|i: int| 0 <= i < t.len() && t[i] == 59
}

/// The longest token prefix in which no token contains a `;`: a comment
/// begins at the first token that does.
pub open spec fn spec_strip_comment(toks: Seq<Seq<u8>>) -> Seq<Seq<u8>>
    decreases toks.len(),
{
    if toks.len() == 0 {
        Seq::empty()
    } else if spec_has_semicolon(toks[0]) {
        Seq::empty()
    } else {
        seq![toks[0]] + spec_strip_comment(toks.drop_first())
    }
}

/// A line's statement tokens: whitespace-split, truncated at the first
/// token containing a `;`.
pub open spec fn spec_line_tokens(s: Seq<u8>) -> Seq<Seq<u8>> {
    spec_strip_comment(spec_tokenize(s))
}

proof fn lemma_token_len_bounds(s: Seq<u8>)
    ensures
        spec_token_len(s) <= s.len(),
        forall|m: int| 0 <= m < spec_token_len(s) ==> !spec_is_space(#[trigger] s[m]),
        spec_token_len(s) < s.len() ==> spec_is_space(s[spec_token_len(s) as int]),
    decreases s.len(),
{
    if s.len() == 0 || spec_is_space(s[0]) {
    } else {
        let sub = s.drop_first();
        lemma_token_len_bounds(sub);
        assert forall|m: int| 0 <= m < spec_token_len(s) implies !spec_is_space(
            #[trigger] s[m],
        ) by {
            if m > 0 {
                assert(s[m] == sub[m - 1]);
            }
        }
        if spec_token_len(s) < s.len() {
            assert(s[spec_token_len(s) as int] == sub[spec_token_len(s) - 1]);
        }
    }
}

proof fn lemma_token_len_is_boundary(s: Seq<u8>, k: int)
    requires
        0 <= k <= s.len(),
        forall|m: int| 0 <= m < k ==> !spec_is_space(#[trigger] s[m]),
        k < s.len() ==> spec_is_space(s[k]),
    ensures
        spec_token_len(s) == k,
    decreases s.len(),
{
    if s.len() == 0 {
    } else if spec_is_space(s[0]) {
        assert(k == 0);
    } else {
        assert(k >= 1);
        let sub = s.drop_first();
        assert(forall|m: int| 0 <= m < k - 1 ==> !spec_is_space(#[trigger] sub[m]));
        lemma_token_len_is_boundary(sub, k - 1);
    }
}

/// Reading one token advances the tokenizer past it.
proof fn lemma_tokenize_skip_space(s: Seq<u8>, i: int)
    requires
        0 <= i < s.len(),
        spec_is_space(s[i]),
    ensures
        spec_tokenize(s.skip(i)) == spec_tokenize(s.skip(i + 1)),
{
    assert(s.skip(i)[0] == s[i]);
    assert(s.skip(i).drop_first() =~= s.skip(i + 1));
}

/// Split a line into its statement tokens: whitespace-separated words, cut
/// off at the first word containing a `;` comment marker.
pub fn line_tokens(line: &Vec<u8>) -> (r: Vec<Vec<u8>>)
    ensures
        r@.map_values(|t: Vec<u8>| t@) == spec_line_tokens(line@),
{
    let n = line.len();
    let mut toks: Vec<Vec<u8>> = Vec::new();
    let mut i: usize = 0;
    proof {
        assert(line@.skip(0) =~= line@);
        assert(toks@.map_values(|t: Vec<u8>| t@) =~= Seq::<Seq<u8>>::empty());
        assert(toks@.map_values(|t: Vec<u8>| t@) + spec_tokenize(line@) =~= spec_tokenize(
            line@,
        ));
    }
    while i < n
        invariant
            0 <= i <= n,
            n == line@.len(),
            spec_tokenize(line@) == toks@.map_values(|t: Vec<u8>| t@) + spec_tokenize(
                line@.skip(i as int),
            ),
            spec_strip_comment(toks@.map_values(|t: Vec<u8>| t@)) == toks@.map_values(
                |t: Vec<u8>| t@,
            ),
        decreases n - i,
    {
        let b = line[i];
        if b == 32 || b == 9 || b == 13 || b == 11 || b == 12 {
            proof {
                lemma_tokenize_skip_space(line@, i as int);
            }
            i = i + 1;
        } else {
            let ghost rest = line@.skip(i as int);
            let start = i;
            let mut tok: Vec<u8> = Vec::new();
            let mut semi = false;
            while i < n && !(line[i] == 32 || line[i] == 9 || line[i] == 13 || line[i] == 11
                || line[i] == 12)
                invariant
                    start <= i <= n,
                    n == line@.len(),
                    rest == line@.skip(start as int),
                    forall|m: int| start <= m < i ==> !spec_is_space(#[trigger] line@[m]),
                    tok@ == line@.subrange(start as int, i as int),
                    semi == spec_has_semicolon(tok@),
                decreases n - i,
            {
                let ghost oldtok = tok@;
                if line[i] == 59 {
                    semi = true;
                }
                tok.push(line[i]);
                proof {
                    assert(tok@ =~= line@.subrange(start as int, i + 1));
                    assert(tok@.last() == line@[i as int]);
                    if line@[i as int] == 59 {
                        assert(spec_has_semicolon(tok@));
                    } else {
                        assert(spec_has_semicolon(tok@) == spec_has_semicolon(oldtok)) by {
                            assert(forall|m: int|
                                0 <= m < oldtok.len() ==> #[trigger] tok@[m] == oldtok[m]);
                            if spec_has_semicolon(tok@) {
                                let w = choose|w: int|
                                    0 <= w < tok@.len() && tok@[w] == 59;
                                assert(w < oldtok.len() && oldtok[w] == 59);
                            }
                        }
                    }
                }
                i = i + 1;
            }
            let ghost tv = toks@.map_values(|t: Vec<u8>| t@);
            let ghost more = spec_tokenize(line@.skip(i as int));
            proof {
                assert(forall|m: int|
                    0 <= m < i - start ==> !spec_is_space(#[trigger] rest[m])) by {
                    assert(forall|m: int|
                        0 <= m < i - start ==> rest[m] == #[trigger] line@[m + start]);
                }
                if i < n {
                    assert(rest[i - start] == line@[i as int]);
                }
                lemma_token_len_is_boundary(rest, i - start);
                assert(rest.take(i - start) =~= tok@);
                assert(rest.skip(i - start) =~= line@.skip(i as int));
                assert(spec_tokenize(rest) == seq![tok@] + more);
            }
            if semi {
                proof {
                    lemma_strip_comment_append_semi(tv, tok@, more);
                    assert(tv + (seq![tok@] + more) == spec_tokenize(line@));
                    assert(spec_line_tokens(line@) == tv);
                }
                return toks;
            }
            proof {
                lemma_strip_comment_append_clean(tv, tok@);
            }
            toks.push(tok);
            proof {
                assert(toks@.map_values(|t: Vec<u8>| t@) =~= tv + seq![
                    line@.subrange(start as int, i as int),
                ]);
                assert(spec_tokenize(line@) =~= toks@.map_values(|t: Vec<u8>| t@) + more);
            }
        }
    }
    proof {
        assert(line@.skip(n as int) =~= Seq::<u8>::empty());
        assert(spec_tokenize(line@) =~= toks@.map_values(|t: Vec<u8>| t@));
    }
    toks
}

/// Appending a clean token keeps a comment-free token list comment-free.
proof fn lemma_strip_comment_append_clean(tv: Seq<Seq<u8>>, tok: Seq<u8>)
    requires
        spec_strip_comment(tv) == tv,
        !spec_has_semicolon(tok),
    ensures
        spec_strip_comment(tv + seq![tok]) == tv + seq![tok],
    decreases tv.len(),
{
    if tv.len() == 0 {
        assert((tv + seq![tok]).drop_first() =~= Seq::<Seq<u8>>::empty());
        assert(spec_strip_comment(tv + seq![tok]) =~= tv + seq![tok]);
    } else {
        assert(!spec_has_semicolon(tv[0]));
        assert(spec_strip_comment(tv.drop_first()) =~= tv.drop_first()) by {
            assert(spec_strip_comment(tv) == seq![tv[0]] + spec_strip_comment(tv.drop_first()));
            assert(forall|m: int|
                0 <= m < tv.len() - 1 ==> (seq![tv[0]] + spec_strip_comment(tv.drop_first()))[
                    m + 1] == spec_strip_comment(tv.drop_first())[m]);
        }
        lemma_strip_comment_append_clean(tv.drop_first(), tok);
        assert((tv + seq![tok]).drop_first() =~= tv.drop_first() + seq![tok]);
        assert(spec_strip_comment(tv + seq![tok]) =~= tv + seq![tok]);
    }
}

/// A token holding a `;` ends the statement: everything from it on is
/// dropped.
proof fn lemma_strip_comment_append_semi(tv: Seq<Seq<u8>>, tok: Seq<u8>, more: Seq<Seq<u8>>)
    requires
        spec_strip_comment(tv) == tv,
        spec_has_semicolon(tok),
    ensures
        spec_strip_comment(tv + (seq![tok] + more)) == tv,
    decreases tv.len(),
{
    if tv.len() == 0 {
        assert((tv + (seq![tok] + more))[0] == tok);
        assert(spec_strip_comment(tv + (seq![tok] + more)) =~= tv);
    } else {
        assert(!spec_has_semicolon(tv[0]));
        assert(spec_strip_comment(tv.drop_first()) =~= tv.drop_first()) by {
            assert(spec_strip_comment(tv) == seq![tv[0]] + spec_strip_comment(tv.drop_first()));
            assert(forall|m: int|
                0 <= m < tv.len() - 1 ==> (seq![tv[0]] + spec_strip_comment(tv.drop_first()))[
                    m + 1] == spec_strip_comment(tv.drop_first())[m]);
        }
        lemma_strip_comment_append_semi(tv.drop_first(), tok, more);
        assert((tv + (seq![tok] + more)).drop_first() =~= tv.drop_first() + (seq![tok] + more));
        assert(spec_strip_comment(tv + (seq![tok] + more)) =~= seq![tv[0]] + tv.drop_first());
        assert(seq![tv[0]] + tv.drop_first() =~= tv);
    }
}

/// The lines of a source file, split on newline bytes.
pub open spec fn spec_line_len(s: Seq<u8>) -> nat
    decreases s.len(),
{
    if s.len() == 0 || s[0] == 10 {
        0
    } else {
        1 + spec_line_len(s.drop_first())
    }
}

pub open spec fn spec_split_lines(s: Seq<u8>) -> Seq<Seq<u8>>
    decreases s.len(),
    via spec_split_lines_decreases
{
    if s.len() == 0 {
        Seq::empty()
    } else {
        let l = spec_line_len(s) as int;
        if l == s.len() {
            seq![s]
        } else {
            seq![s.take(l)] + spec_split_lines(s.skip(l + 1))
        }
    }
}

#[via_fn]
proof fn spec_split_lines_decreases(s: Seq<u8>) {
    lemma_line_len_bounds(s);
}

proof fn lemma_line_len_bounds(s: Seq<u8>)
    ensures
        spec_line_len(s) <= s.len(),
        forall|m: int| 0 <= m < spec_line_len(s) ==> #[trigger] s[m] != 10,
        spec_line_len(s) < s.len() ==> s[spec_line_len(s) as int] == 10,
    decreases s.len(),
{
    if s.len() == 0 || s[0] == 10 {
    } else {
        let sub = s.drop_first();
        lemma_line_len_bounds(sub);
        assert forall|m: int| 0 <= m < spec_line_len(s) implies #[trigger] s[m] != 10 by {
            if m > 0 {
                assert(s[m] == sub[m - 1]);
            }
        }
        if spec_line_len(s) < s.len() {
            assert(s[spec_line_len(s) as int] == sub[spec_line_len(s) - 1]);
        }
    }
}

proof fn lemma_line_len_is_boundary(s: Seq<u8>, k: int)
    requires
        0 <= k <= s.len(),
        forall|m: int| 0 <= m < k ==> #[trigger] s[m] != 10,
        k < s.len() ==> s[k] == 10,
    ensures
        spec_line_len(s) == k,
    decreases s.len(),
{
    if s.len() == 0 {
    } else if s[0] == 10 {
        assert(k == 0);
    } else {
        assert(k >= 1);
        let sub = s.drop_first();
        assert(forall|m: int| 0 <= m < k - 1 ==> #[trigger] sub[m] != 10);
        lemma_line_len_is_boundary(sub, k - 1);
    }
}

/// Split source text into lines on the newline byte. The final line needs
/// no trailing newline; a trailing newline yields no extra empty line.
pub fn split_lines(src: &Vec<u8>) -> (r: Vec<Vec<u8>>)
    ensures
        r@.map_values(|t: Vec<u8>| t@) == spec_split_lines(src@),
{
    let n = src.len();
    let mut lines: Vec<Vec<u8>> = Vec::new();
    let mut i: usize = 0;
    proof {
        assert(src@.skip(0) =~= src@);
        assert(lines@.map_values(|t: Vec<u8>| t@) =~= Seq::<Seq<u8>>::empty());
        assert(lines@.map_values(|t: Vec<u8>| t@) + spec_split_lines(src@) =~= spec_split_lines(
            src@,
        ));
    }
    while i < n
        invariant
            0 <= i <= n,
            n == src@.len(),
            spec_split_lines(src@) == lines@.map_values(|t: Vec<u8>| t@) + spec_split_lines(
                src@.skip(i as int),
            ),
        decreases n - i,
    {
        let ghost rest = src@.skip(i as int);
        let ghost tv = lines@.map_values(|t: Vec<u8>| t@);
        let start = i;
        let mut line: Vec<u8> = Vec::new();
        while i < n && src[i] != 10
            invariant
                start <= i <= n,
                n == src@.len(),
                forall|m: int| start <= m < i ==> #[trigger] src@[m] != 10,
                line@ == src@.subrange(start as int, i as int),
            decreases n - i,
        {
            line.push(src[i]);
            proof {
                assert(line@ =~= src@.subrange(start as int, i + 1));
            }
            i = i + 1;
        }
        proof {
            assert(forall|m: int| 0 <= m < i - start ==> #[trigger] rest[m] != 10) by {
                assert(forall|m: int|
                    0 <= m < i - start ==> rest[m] == #[trigger] src@[m + start]);
            }
            if i < n {
                assert(rest[i - start] == src@[i as int]);
            }
            lemma_line_len_is_boundary(rest, i - start);
            assert(rest.take(i - start) =~= line@);
        }
        if i < n {
            proof {
                assert(rest.skip(i - start + 1) =~= src@.skip(i + 1));
                assert(spec_split_lines(rest) == seq![line@] + spec_split_lines(
                    src@.skip(i + 1),
                ));
            }
            i = i + 1;
        } else {
            proof {
                assert(rest.take(i - start) =~= rest);
                assert(spec_split_lines(rest) == seq![line@]);
                assert(src@.skip(n as int) =~= Seq::<u8>::empty());
                assert(seq![line@] =~= seq![line@] + spec_split_lines(src@.skip(n as int)));
            }
        }
        let ghost more = spec_split_lines(src@.skip(i as int));
        let ghost lv = line@;
        lines.push(line);
        proof {
            assert(lines@.map_values(|t: Vec<u8>| t@) =~= tv + seq![lv]);
            assert(spec_split_lines(src@) =~= lines@.map_values(|t: Vec<u8>| t@) + more);
        }
    }
    proof {
        assert(src@.skip(n as int) =~= Seq::<u8>::empty());
        assert(spec_split_lines(src@) =~= lines@.map_values(|t: Vec<u8>| t@));
    }
    lines
}

fn parse_u32_dec(t: &Vec<u8>) -> (r: Option<u32>)
    ensures
        r == (if t@.len() > 0 && spec_all_digits(t@) && spec_dec_value(t@) <= u32::MAX {
            Some(spec_dec_value(t@) as u32)
        } else {
            None::<u32>
        }),
{
    let n = t.len();
    if n == 0 {
        return None;
    }
    let mut acc: u64 = 0;
    let mut i: usize = 0;
    while i < n
        invariant
            0 <= i <= n,
            n == t@.len(),
            spec_all_digits(t@.take(i as int)),
            acc == spec_dec_value(t@.take(i as int)),
            acc <= u32::MAX,
        decreases n - i,
    {
        let b = t[i];
        if b < 48 || b > 57 {
            return None;
        }
        let d: u64 = (b - 48) as u64;
        let next: u64 = acc * 10 + d;
        proof {
            lemma_dec_value_take_succ(t@, i as int);
        }
        if next > 0xFFFF_FFFF {
            proof {
                if spec_all_digits(t@) {
                    lemma_dec_value_grows(t@, i + 1);
                }
            }
            return None;
        }
        acc = next;
        i = i + 1;
    }
    proof {
        assert(t@.take(n as int) =~= t@);
    }
    Some(acc as u32)
}

/// Parse a hexadecimal digit string spanning `t[2..]`; helper for
/// [`parse_u32`].
fn parse_u32_hex(t: &Vec<u8>) -> (r: Option<u32>)
    requires
        t@.len() >= 3,
    ensures
        r == (if spec_all_hex_digits(t@.skip(2)) && spec_hex_value(t@.skip(2)) <= u32::MAX {
            Some(spec_hex_value(t@.skip(2)) as u32)
        } else {
            None::<u32>
        }),
{
    let ghost s = t@.skip(2);
    let n = t.len();
    let mut acc: u64 = 0;
    let mut i: usize = 2;
    while i < n
        invariant
            2 <= i <= n,
            n == t@.len(),
            s == t@.skip(2),
            spec_all_hex_digits(s.take(i - 2)),
            acc == spec_hex_value(s.take(i - 2)),
            acc <= u32::MAX,
        decreases n - i,
    {
        let b = t[i];
        let d: u64 = if 48 <= b && b <= 57 {
            (b - 48) as u64
        } else if 97 <= b && b <= 102 {
            (b - 87) as u64
        } else if 65 <= b && b <= 70 {
            (b - 55) as u64
        } else {
            proof {
                assert(s[i - 2] == t@[i as int]);
            }
            return None;
        };
        proof {
            assert(s[i - 2] == t@[i as int]);
            assert(d == spec_hex_digit_value(s[i - 2]));
            lemma_hex_value_take_succ(s, i - 2);
        }
        let next: u64 = acc * 16 + d;
        if next > 0xFFFF_FFFF {
            proof {
                if spec_all_hex_digits(s) {
                    lemma_hex_value_grows(s, i - 2 + 1);
                }
            }
            return None;
        }
        acc = next;
        i = i + 1;
    }
    proof {
        assert(s.take(n - 2) =~= s);
    }
    Some(acc as u32)
}

/// Parse an unsigned 32-bit literal: decimal digits, or `0x`-prefixed
/// hexadecimal digits. Returns `None` on any other text and on overflow.
pub fn parse_u32(t: &Vec<u8>) -> (r: Option<u32>)
    ensures
        r == spec_parse_u32(t@),
{
    if t.len() >= 3 && t[0] == 48 && (t[1] == 120 || t[1] == 88) {
        parse_u32_hex(t)
    } else {
        parse_u32_dec(t)
    }
}

/// Parse an unsigned 16-bit literal.
pub fn parse_u16(t: &Vec<u8>) -> (r: Option<u16>)
    ensures
        r == spec_parse_u16(t@),
{
    match parse_u32(t) {
        Some(v) => if v <= 0xFFFF {
            Some(v as u16)
        } else {
            None
        },
        None => None,
    }
}

/// Parse an unsigned 8-bit literal.
pub fn parse_u8(t: &Vec<u8>) -> (r: Option<u8>)
    ensures
        r == spec_parse_u8(t@),
{
    match parse_u32(t) {
        Some(v) => if v <= 0xFF {
            Some(v as u8)
        } else {
            None
        },
        None => None,
    }
}

} // verus!
