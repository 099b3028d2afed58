//! Laws of the scanner, proved of the model `spec_scan` that
//! `Scanner::scan_tokens` is proved to implement exactly: determinism,
//! total coverage of the input, the terminating token, line
//! monotonicity, and round-trip spelling.

use crate::scanner::{
    char_is_alpha, char_is_digit, lemma_digit_run_end, lemma_ident_run_end, lemma_scan_step_line,
    lemma_scan_step_next, lemma_string_close, num_value, opt_seq, scan_from, scan_step, spec_scan,
    CoverRange,
};
use crate::token::{spec_keyword, TokenKind, TokenModel};
use vstd::prelude::*;

verus! {

/// Scanning is a function of the source text alone: two scans of equal
/// sources yield equal token sequences and equal diagnostic sequences.
/// Together with the contract of `Scanner::scan_tokens`, which pins its
/// result to `spec_scan`, two passes over the same input are identical.
pub proof fn lemma_scan_deterministic(s1: Seq<char>, s2: Seq<char>)
    requires
        s1 == s2,
    ensures
        spec_scan(s1) == spec_scan(s2),
{
}

/// The last token of every scan is `EndOfInput`, exactly once,
/// regardless of input content; empty input yields that one token and
/// nothing else.
pub proof fn lemma_termination_token(s: Seq<char>)
    ensures
        spec_scan(s).tokens.len() >= 1,
        spec_scan(s).tokens[spec_scan(s).tokens.len() - 1].kind is EndOfInput,
        forall|i: int|
            0 <= i < spec_scan(s).tokens.len() - 1 ==> !((#[trigger] spec_scan(s).tokens[i]).kind
                is EndOfInput),
        s.len() == 0 ==> spec_scan(s).tokens.len() == 1,
{
    lemma_scan_from_terminator(s, 0, 1);
}

/// No `Invalid` token ever appears in a scan's output: unrecognized
/// characters become diagnostics, not tokens. (No whitespace or comment
/// kind exists at all, so those cannot appear by construction.)
pub proof fn lemma_no_invalid_tokens(s: Seq<char>)
    ensures
        forall|i: int|
            0 <= i < spec_scan(s).tokens.len() ==> !((#[trigger] spec_scan(s).tokens[i]).kind
                is Invalid),
{
    lemma_scan_from_no_invalid(s, 0, 1);
}

/// Token line numbers are non-decreasing across the output sequence,
/// and never below the opening line.
pub proof fn lemma_line_monotonic(s: Seq<char>)
    ensures
        forall|i: int, j: int|
            0 <= i <= j < spec_scan(s).tokens.len() ==> (#[trigger] spec_scan(s).tokens[i]).line
                <= (#[trigger] spec_scan(s).tokens[j]).line,
        forall|i: int|
            0 <= i < spec_scan(s).tokens.len() ==> 1 <= (#[trigger] spec_scan(s).tokens[i]).line,
{
    lemma_scan_from_lines(s, 0, 1);
}

/// The tokens a sequence of covering ranges carries, in order.
pub open spec fn cover_tokens(cover: Seq<CoverRange>) -> Seq<TokenModel>
    decreases cover.len(),
{
    if cover.len() == 0 {
        Seq::empty()
    } else {
        opt_seq(cover[0].tok) + cover_tokens(cover.subrange(1, cover.len() as int))
    }
}

/// Total coverage: the scanned ranges tile `[0, s.len())` in order,
/// with no gaps and no overlaps; the ranges that produced a token
/// coincide with that token's span, and carry exactly the non-terminal
/// tokens of the scan in order; the rest are the skipped ranges
/// (whitespace, comment bodies, reported characters, truncated
/// strings).
pub proof fn lemma_total_coverage(s: Seq<char>)
    ensures
        s.len() == 0 ==> spec_scan(s).cover.len() == 0,
        s.len() > 0 ==> spec_scan(s).cover.len() >= 1 && spec_scan(s).cover[0].start == 0
            && spec_scan(s).cover[spec_scan(s).cover.len() - 1].end == s.len(),
        forall|j: int|
            0 <= j < spec_scan(s).cover.len() ==> (#[trigger] spec_scan(s).cover[j]).start
                < spec_scan(s).cover[j].end <= s.len(),
        forall|j: int|
            0 <= j < spec_scan(s).cover.len() - 1 ==> (#[trigger] spec_scan(s).cover[j]).end
                == spec_scan(s).cover[j + 1].start,
        cover_tokens(spec_scan(s).cover) == spec_scan(s).tokens.drop_last(),
        forall|j: int|
            0 <= j < spec_scan(s).cover.len() ==> (match (#[trigger] spec_scan(s).cover[j]).tok {
                Some(t) => t.start == spec_scan(s).cover[j].start && t.end == spec_scan(
                    s,
                ).cover[j].end,
                None => true,
            }),
{
    lemma_cover_from(s, 0, 1);
}

/// Tokens appear in source order: before the terminator, every span is
/// non-empty, lies within the source, and ends no later than the next
/// one starts.
pub proof fn lemma_tokens_in_source_order(s: Seq<char>)
    ensures
        forall|i: int|
            0 <= i < spec_scan(s).tokens.len() - 1 ==> 0 <= (#[trigger] spec_scan(
                s,
            ).tokens[i]).start < spec_scan(s).tokens[i].end <= s.len(),
        forall|i: int, j: int|
            0 <= i < j < spec_scan(s).tokens.len() - 1 ==> (#[trigger] spec_scan(s).tokens[i]).end
                <= (#[trigger] spec_scan(s).tokens[j]).start,
{
    lemma_scan_from_ordered(s, 0, 1);
}

/// What well-spelled means for one token of the scan of `s`: an
/// identifier's or keyword's text is the spanned source text itself,
/// keywords spell their fixed reserved word, a number's value is the
/// wrapping base-10 value of its all-digit span, a string's text is
/// what stands strictly between its quotes, and the terminator is
/// empty.
pub open spec fn token_spelling_ok(s: Seq<char>, t: TokenModel) -> bool {
    match t.kind {
        TokenKind::Identifier => t.text == s.subrange(t.start, t.end) && spec_keyword(t.text)
            is None,
        TokenKind::NumberLiteral(v) => t.text == s.subrange(t.start, t.end) && (forall|i: int|
            t.start <= i < t.end ==> char_is_digit(#[trigger] s[i])) && v == num_value(
            s,
            t.start,
            t.end,
        ),
        TokenKind::StringLiteral => t.start + 1 <= t.end - 1 && t.text == s.subrange(
            t.start + 1,
            t.end - 1,
        ),
        TokenKind::And => t.text == "and"@ && t.text == s.subrange(t.start, t.end),
        TokenKind::Class => t.text == "class"@ && t.text == s.subrange(t.start, t.end),
        TokenKind::If => t.text == "if"@ && t.text == s.subrange(t.start, t.end),
        TokenKind::Else => t.text == "else"@ && t.text == s.subrange(t.start, t.end),
        TokenKind::True => t.text == "true"@ && t.text == s.subrange(t.start, t.end),
        TokenKind::False => t.text == "false"@ && t.text == s.subrange(t.start, t.end),
        TokenKind::Function => t.text == "function"@ && t.text == s.subrange(t.start, t.end),
        TokenKind::Return => t.text == "return"@ && t.text == s.subrange(t.start, t.end),
        TokenKind::For => t.text == "for"@ && t.text == s.subrange(t.start, t.end),
        TokenKind::Var => t.text == "var"@ && t.text == s.subrange(t.start, t.end),
        TokenKind::EndOfInput => t.text == Seq::<char>::empty(),
        _ => t.text == s.subrange(t.start, t.end),
    }
}

/// Round-trip spelling: every token of a scan is well-spelled in the
/// sense of `token_spelling_ok`.
pub proof fn lemma_round_trip_spelling(s: Seq<char>)
    ensures
        forall|i: int|
            0 <= i < spec_scan(s).tokens.len() ==> token_spelling_ok(
                s,
                #[trigger] spec_scan(s).tokens[i],
            ),
{
    lemma_scan_from_spelling(s, 0, 1);
}

/// The exact (unbounded) base-10 value of the digits of `s` in
/// `[pos, end)`.
pub open spec fn decimal_value(s: Seq<char>, pos: int, end: int) -> int
    decreases end - pos,
{
    if end <= pos {
        0
    } else {
        decimal_value(s, pos, end - 1) * 10 + (s[end - 1] as int - '0' as int)
    }
}

pub proof fn lemma_decimal_value_nonneg(s: Seq<char>, pos: int, end: int)
    requires
        pos <= end,
        forall|i: int| pos <= i < end ==> char_is_digit(#[trigger] s[i]),
    ensures
        0 <= decimal_value(s, pos, end),
        pos < end ==> decimal_value(s, pos, end - 1) <= decimal_value(s, pos, end),
    decreases end - pos,
{
    if pos < end {
        lemma_decimal_value_nonneg(s, pos, end - 1);
    }
}

/// Where the denoted base-10 value fits in a 64-bit integer, the
/// wrapping accumulation does not wrap: the token's value is exactly
/// the base-10 integer value of its text.
pub proof fn lemma_num_value_exact(s: Seq<char>, pos: int, end: int)
    requires
        pos <= end,
        forall|i: int| pos <= i < end ==> char_is_digit(#[trigger] s[i]),
        decimal_value(s, pos, end) <= i64::MAX as int,
    ensures
        num_value(s, pos, end) as int == decimal_value(s, pos, end),
    decreases end - pos,
{
    if pos < end {
        lemma_decimal_value_nonneg(s, pos, end - 1);
        lemma_decimal_value_nonneg(s, pos, end);
        lemma_num_value_exact(s, pos, end - 1);
        let x = num_value(s, pos, end - 1) as int;
        let d = s[end - 1] as int - '0' as int;
        assert(x * 10 + d == decimal_value(s, pos, end));
        assert(0 <= x * 10 <= i64::MAX as int);
        assert(x * 10 % 0x10000000000000000 == x * 10);
    }
}

// ---------------------------------------------------------------------
// Induction over the scan, generalized to any position and line
// ---------------------------------------------------------------------
proof fn lemma_scan_from_terminator(s: Seq<char>, pos: int, line: int)
    requires
        0 <= pos <= s.len(),
    ensures
        ({
            let out = scan_from(s, pos, line);
            &&& out.tokens.len() >= 1
            &&& out.tokens[out.tokens.len() - 1].kind is EndOfInput
            &&& forall|i: int|
                0 <= i < out.tokens.len() - 1 ==> !((#[trigger] out.tokens[i]).kind is EndOfInput)
            &&& pos == s.len() ==> out.tokens.len() == 1
        }),
    decreases s.len() - pos,
{
    if pos < s.len() {
        let st = scan_step(s, pos, line);
        lemma_scan_step_next(s, pos, line);
        lemma_scan_from_terminator(s, st.next, st.line2);
    }
}

proof fn lemma_scan_from_no_invalid(s: Seq<char>, pos: int, line: int)
    requires
        0 <= pos <= s.len(),
    ensures
        ({
            let out = scan_from(s, pos, line);
            forall|i: int|
                0 <= i < out.tokens.len() ==> !((#[trigger] out.tokens[i]).kind is Invalid)
        }),
    decreases s.len() - pos,
{
    if pos < s.len() {
        let st = scan_step(s, pos, line);
        lemma_scan_step_next(s, pos, line);
        lemma_scan_from_no_invalid(s, st.next, st.line2);
    }
}

proof fn lemma_scan_from_lines(s: Seq<char>, pos: int, line: int)
    requires
        0 <= pos <= s.len(),
        1 <= line,
    ensures
        ({
            let out = scan_from(s, pos, line);
            &&& forall|i: int|
                0 <= i < out.tokens.len() ==> line <= (#[trigger] out.tokens[i]).line
            &&& forall|i: int, j: int|
                0 <= i <= j < out.tokens.len() ==> (#[trigger] out.tokens[i]).line
                    <= (#[trigger] out.tokens[j]).line
        }),
    decreases s.len() - pos,
{
    if pos < s.len() {
        let st = scan_step(s, pos, line);
        lemma_scan_step_next(s, pos, line);
        lemma_scan_step_line(s, pos, line);
        lemma_scan_from_lines(s, st.next, st.line2);
    }
}

proof fn lemma_scan_from_ordered(s: Seq<char>, pos: int, line: int)
    requires
        0 <= pos <= s.len(),
    ensures
        ({
            let out = scan_from(s, pos, line);
            &&& forall|i: int|
                0 <= i < out.tokens.len() - 1 ==> pos <= (#[trigger] out.tokens[i]).start
                    < out.tokens[i].end <= s.len()
            &&& forall|i: int, j: int|
                0 <= i < j < out.tokens.len() - 1 ==> (#[trigger] out.tokens[i]).end
                    <= (#[trigger] out.tokens[j]).start
        }),
    decreases s.len() - pos,
{
    if pos < s.len() {
        let st = scan_step(s, pos, line);
        lemma_scan_step_next(s, pos, line);
        lemma_scan_from_ordered(s, st.next, st.line2);
        lemma_scan_from_terminator(s, st.next, st.line2);
        let out = scan_from(s, pos, line);
        let rest = scan_from(s, st.next, st.line2);
        assert(match st.tok {
            Some(t) => t.start == pos && t.end == st.next,
            None => true,
        });
        assert forall|i: int| 0 <= i < out.tokens.len() - 1 implies pos
            <= (#[trigger] out.tokens[i]).start < out.tokens[i].end <= s.len() by {
            match st.tok {
                Some(t) => {
                    if i > 0 {
                        assert(out.tokens[i] == rest.tokens[i - 1]);
                    }
                },
                None => {
                    assert(out.tokens[i] == rest.tokens[i]);
                },
            }
        }
        assert forall|i: int, j: int| 0 <= i < j < out.tokens.len() - 1 implies (#[trigger] out
            .tokens[i]).end <= (#[trigger] out.tokens[j]).start by {
            match st.tok {
                Some(t) => {
                    if i > 0 {
                        assert(out.tokens[i] == rest.tokens[i - 1]);
                    }
                    assert(out.tokens[j] == rest.tokens[j - 1]);
                },
                None => {
                    assert(out.tokens[i] == rest.tokens[i]);
                    assert(out.tokens[j] == rest.tokens[j]);
                },
            }
        }
    }
}

proof fn lemma_cover_from(s: Seq<char>, pos: int, line: int)
    requires
        0 <= pos <= s.len(),
    ensures
        ({
            let out = scan_from(s, pos, line);
            &&& pos == s.len() ==> out.cover.len() == 0
            &&& pos < s.len() ==> out.cover.len() >= 1 && out.cover[0].start == pos
                && out.cover[out.cover.len() - 1].end == s.len()
            &&& forall|j: int|
                0 <= j < out.cover.len() ==> (#[trigger] out.cover[j]).start < out.cover[j].end
                    <= s.len()
            &&& forall|j: int|
                0 <= j < out.cover.len() - 1 ==> (#[trigger] out.cover[j]).end == out.cover[j
                    + 1].start
            &&& cover_tokens(out.cover) == out.tokens.drop_last()
            &&& forall|j: int|
                0 <= j < out.cover.len() ==> (match (#[trigger] out.cover[j]).tok {
                    Some(t) => t.start == out.cover[j].start && t.end == out.cover[j].end,
                    None => true,
                })
        }),
    decreases s.len() - pos,
{
    let out = scan_from(s, pos, line);
    if pos == s.len() {
        assert(cover_tokens(out.cover) =~= out.tokens.drop_last());
    } else {
        let st = scan_step(s, pos, line);
        lemma_scan_step_next(s, pos, line);
        lemma_cover_from(s, st.next, st.line2);
        lemma_scan_from_terminator(s, st.next, st.line2);
        let rest = scan_from(s, st.next, st.line2);
        let rng = CoverRange { start: pos, end: st.next, tok: st.tok };
        assert(out.cover == seq![rng] + rest.cover);
        assert((seq![rng] + rest.cover).subrange(1, (seq![rng] + rest.cover).len() as int)
            =~= rest.cover);
        assert(cover_tokens(out.cover) == opt_seq(st.tok) + cover_tokens(rest.cover));
        Seq::<TokenModel>::drop_last_distributes_over_add(opt_seq(st.tok), rest.tokens);
    }
}

proof fn lemma_scan_from_spelling(s: Seq<char>, pos: int, line: int)
    requires
        0 <= pos <= s.len(),
    ensures
        ({
            let out = scan_from(s, pos, line);
            forall|i: int|
                0 <= i < out.tokens.len() ==> token_spelling_ok(s, #[trigger] out.tokens[i])
        }),
    decreases s.len() - pos,
{
    if pos < s.len() {
        let st = scan_step(s, pos, line);
        lemma_scan_step_next(s, pos, line);
        lemma_scan_from_spelling(s, st.next, st.line2);
        let c = s[pos];
        if char_is_digit(c) {
            lemma_digit_run_end(s, pos);
        } else if c == '"' {
            lemma_string_close(s, pos + 1);
        } else if char_is_alpha(c) {
            lemma_ident_run_end(s, pos);
        }
        let out = scan_from(s, pos, line);
        let rest = scan_from(s, st.next, st.line2);
        assert forall|i: int| 0 <= i < out.tokens.len() implies token_spelling_ok(
            s,
            #[trigger] out.tokens[i],
        ) by {
            match st.tok {
                Some(t) => {
                    if i == 0 {
                        assert(out.tokens[i] == t);
                        assert(token_spelling_ok(s, t));
                    } else {
                        assert(out.tokens[i] == rest.tokens[i - 1]);
                    }
                },
                None => {
                    assert(out.tokens[i] == rest.tokens[i]);
                },
            }
        }
    }
}

} // verus!
