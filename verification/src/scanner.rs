//! The scanner: a single-pass, character-by-character state machine over
//! an immutable source buffer.
//!
//! The mathematical model lives in `scan_from`: a recursive function on
//! the source's character sequence that yields the token sequence, the
//! diagnostic sequence, and the covering ranges of the pass. The
//! executable scanner is proved to return exactly what the model says.

use crate::report::{Report, ReportModel};
use crate::token::{
    generate_identifier_map, keyword_lookup, keyword_table_wf, spec_keyword, TextSpan, Token,
    TokenKind, TokenModel,
};
use vstd::prelude::*;

verus! {

// ---------------------------------------------------------------------
// Character classes
// ---------------------------------------------------------------------
/// An ASCII decimal digit.
pub open spec fn char_is_digit(c: char) -> bool {
    '0' <= c && c <= '9'
}

/// An ASCII letter or underscore: what may open an identifier.
pub open spec fn char_is_alpha(c: char) -> bool {
    ('a' <= c && c <= 'z') || ('A' <= c && c <= 'Z') || c == '_'
}

/// A letter, digit, or underscore: what may continue an identifier.
pub open spec fn char_is_alnum(c: char) -> bool {
    char_is_alpha(c) || char_is_digit(c)
}

/// The numeric value of a digit character.
pub open spec fn digit_value(c: char) -> i64 {
    (c as int - '0' as int) as i64
}

// ---------------------------------------------------------------------
// Maximal runs and delimiter searches
// ---------------------------------------------------------------------
/// The first position at or after `pos` that does not hold a digit.
pub open spec fn digit_run_end(s: Seq<char>, pos: int) -> int
    decreases s.len() - pos,
{
    if pos < 0 || pos >= s.len() || !char_is_digit(s[pos]) {
        pos
    } else {
        digit_run_end(s, pos + 1)
    }
}

/// The first position at or after `pos` that does not continue an identifier.
pub open spec fn ident_run_end(s: Seq<char>, pos: int) -> int
    decreases s.len() - pos,
{
    if pos < 0 || pos >= s.len() || !char_is_alnum(s[pos]) {
        pos
    } else {
        ident_run_end(s, pos + 1)
    }
}

/// The position of the first `"` at or after `pos`, or the length of the
/// source if no closing quote follows.
pub open spec fn string_close(s: Seq<char>, pos: int) -> int
    decreases s.len() - pos,
{
    if pos < 0 {
        pos
    } else if pos >= s.len() {
        s.len() as int
    } else if s[pos] == '"' {
        pos
    } else {
        string_close(s, pos + 1)
    }
}

/// The position of the first newline at or after `pos`, or the length of
/// the source: where a line comment's discarded body ends.
pub open spec fn comment_end(s: Seq<char>, pos: int) -> int
    decreases s.len() - pos,
{
    if pos < 0 {
        pos
    } else if pos >= s.len() {
        s.len() as int
    } else if s[pos] == '\n' {
        pos
    } else {
        comment_end(s, pos + 1)
    }
}

/// How many newline characters `s` holds in the range `[from, to)`.
pub open spec fn newline_count(s: Seq<char>, from: int, to: int) -> int
    decreases to - from,
{
    if to <= from {
        0
    } else {
        newline_count(s, from, to - 1) + if s[to - 1] == '\n' {
            1int
        } else {
            0int
        }
    }
}

/// The value a maximal digit run denotes, accumulated left to right as
/// `value * 10 + digit` in wrapping 64-bit arithmetic. Wraparound on
/// overflow is the fixed behavior of number scanning.
pub open spec fn num_value(s: Seq<char>, pos: int, end: int) -> i64
    decreases end - pos,
{
    if end <= pos {
        0
    } else {
        vstd::wrapping::i64_specs::wrapping_add(
            vstd::wrapping::i64_specs::wrapping_mul(num_value(s, pos, end - 1), 10),
            digit_value(s[end - 1]),
        )
    }
}

// ---------------------------------------------------------------------
// Punctuation and operators
// ---------------------------------------------------------------------
/// The kind of a recognized one-character punctuation or operator, or
/// `None` for an unrecognized character.
pub open spec fn punct_kind_one(c: char) -> Option<TokenKind> {
    if c == '(' {
        Some(TokenKind::LeftParen)
    } else if c == ')' {
        Some(TokenKind::RightParen)
    } else if c == '{' {
        Some(TokenKind::LeftBrace)
    } else if c == '}' {
        Some(TokenKind::RightBrace)
    } else if c == ',' {
        Some(TokenKind::Comma)
    } else if c == '.' {
        Some(TokenKind::Dot)
    } else if c == '-' {
        Some(TokenKind::Minus)
    } else if c == '+' {
        Some(TokenKind::Plus)
    } else if c == '*' {
        Some(TokenKind::Star)
    } else if c == '/' {
        Some(TokenKind::Slash)
    } else if c == ';' {
        Some(TokenKind::Semicolon)
    } else if c == '!' {
        Some(TokenKind::Bang)
    } else if c == '=' {
        Some(TokenKind::Equal)
    } else if c == '<' {
        Some(TokenKind::Less)
    } else if c == '>' {
        Some(TokenKind::Greater)
    } else {
        None
    }
}

/// Whether the operator opened by `c` combines with a following `=` into
/// a two-character operator.
pub open spec fn punct_is_two(c: char, d: char) -> bool {
    (c == '!' || c == '=' || c == '<' || c == '>') && d == '='
}

/// The kind of the two-character operator opened by `c`.
pub open spec fn punct_kind_two(c: char) -> TokenKind {
    if c == '!' {
        TokenKind::BangEqual
    } else if c == '=' {
        TokenKind::EqualEqual
    } else if c == '<' {
        TokenKind::LessEqual
    } else {
        TokenKind::GreaterEqual
    }
}

// ---------------------------------------------------------------------
// One scan step
// ---------------------------------------------------------------------
/// What one classification step at position `pos` on line `line` does:
/// where the cursor moves, what the line counter becomes, and the token
/// or diagnostic the step produces, if any.
pub struct StepRes {
    pub next: int,
    pub line2: int,
    pub tok: Option<TokenModel>,
    pub rep: Option<ReportModel>,
}

/// One step of the scanner at `pos < s.len()`, classified by lookahead
/// on the current character only. Tokens and diagnostics carry the line
/// of their opening character.
pub open spec fn scan_step(s: Seq<char>, pos: int, line: int) -> StepRes {
    let c = s[pos];
    if char_is_digit(c) {
        let end = digit_run_end(s, pos);
        StepRes {
            next: end,
            line2: line,
            tok: Some(
                TokenModel {
                    kind: TokenKind::NumberLiteral(num_value(s, pos, end)),
                    line,
                    start: pos,
                    end,
                    text: s.subrange(pos, end),
                },
            ),
            rep: None,
        }
    } else if c == '"' {
        let close = string_close(s, pos + 1);
        if close >= s.len() {
            StepRes {
                next: s.len() as int,
                line2: line + newline_count(s, pos + 1, s.len() as int),
                tok: None,
                rep: Some(ReportModel { line, context: ""@, message: "Unterminated string."@ }),
            }
        } else {
            StepRes {
                next: close + 1,
                line2: line + newline_count(s, pos + 1, close),
                tok: Some(
                    TokenModel {
                        kind: TokenKind::StringLiteral,
                        line,
                        start: pos,
                        end: close + 1,
                        text: s.subrange(pos + 1, close),
                    },
                ),
                rep: None,
            }
        }
    } else if char_is_alpha(c) {
        let end = ident_run_end(s, pos);
        let text = s.subrange(pos, end);
        let kind = match spec_keyword(text) {
            Some(k) => k,
            None => TokenKind::Identifier,
        };
        StepRes {
            next: end,
            line2: line,
            tok: Some(TokenModel { kind, line, start: pos, end, text }),
            rep: None,
        }
    } else if c == '\n' {
        StepRes { next: pos + 1, line2: line + 1, tok: None, rep: None }
    } else if c == ' ' || c == '\r' || c == '\t' {
        StepRes { next: pos + 1, line2: line, tok: None, rep: None }
    } else if c == '/' && pos + 1 < s.len() && s[pos + 1] == '/' {
        StepRes { next: comment_end(s, pos + 2), line2: line, tok: None, rep: None }
    } else if punct_kind_one(c) is Some {
        if pos + 1 < s.len() && punct_is_two(c, s[pos + 1]) {
            StepRes {
                next: pos + 2,
                line2: line,
                tok: Some(
                    TokenModel {
                        kind: punct_kind_two(c),
                        line,
                        start: pos,
                        end: pos + 2,
                        text: s.subrange(pos, pos + 2),
                    },
                ),
                rep: None,
            }
        } else {
            let kind = match punct_kind_one(c) {
                Some(k) => k,
                None => TokenKind::Invalid,
            };
            StepRes {
                next: pos + 1,
                line2: line,
                tok: Some(
                    TokenModel { kind, line, start: pos, end: pos + 1, text: s.subrange(pos, pos + 1) },
                ),
                rep: None,
            }
        }
    } else {
        StepRes {
            next: pos + 1,
            line2: line,
            tok: None,
            rep: Some(
                ReportModel {
                    line,
                    context: s.subrange(pos, pos + 1),
                    message: "Unexpected character."@,
                },
            ),
        }
    }
}

// ---------------------------------------------------------------------
// The whole scan
// ---------------------------------------------------------------------
/// One consumed range of the pass: `[start, end)`, together with the
/// token it produced, or `None` where the range was skipped (whitespace,
/// a comment body, a reported character, a truncated string).
pub struct CoverRange {
    pub start: int,
    pub end: int,
    pub tok: Option<TokenModel>,
}

/// Everything one scan yields: the token sequence (terminated by
/// `EndOfInput`), the diagnostics, and the covering ranges.
pub struct ScanOut {
    pub tokens: Seq<TokenModel>,
    pub reports: Seq<ReportModel>,
    pub cover: Seq<CoverRange>,
}

/// A singleton sequence, or the empty one.
pub open spec fn opt_seq<A>(o: Option<A>) -> Seq<A> {
    match o {
        Some(x) => seq![x],
        None => Seq::empty(),
    }
}

/// The terminating token: an empty span at a fixed sentinel position.
pub open spec fn eof_token(line: int) -> TokenModel {
    TokenModel { kind: TokenKind::EndOfInput, line, start: 0, end: 0, text: Seq::empty() }
}

/// Prepends what one step produced to the output of the rest of the scan.
pub open spec fn step_cons(st: StepRes, pos: int, rest: ScanOut) -> ScanOut {
    ScanOut {
        tokens: opt_seq(st.tok) + rest.tokens,
        reports: opt_seq(st.rep) + rest.reports,
        cover: seq![CoverRange { start: pos, end: st.next, tok: st.tok }] + rest.cover,
    }
}

/// The scan of `s` from position `pos` on line `line`: the token
/// sequence, the diagnostics, and the covering ranges of the remainder
/// of the pass. On exhausted input it yields the single `EndOfInput`
/// token.
pub open spec fn scan_from(s: Seq<char>, pos: int, line: int) -> ScanOut
    decreases s.len() - pos,
{
    if pos < 0 || pos >= s.len() {
        ScanOut { tokens: seq![eof_token(line)], reports: Seq::empty(), cover: Seq::empty() }
    } else {
        let st = scan_step(s, pos, line);
        proof {
            lemma_scan_step_next(s, pos, line);
        }
        step_cons(st, pos, scan_from(s, st.next, st.line2))
    }
}

/// The scan of a whole source: from its first character, on line 1.
pub open spec fn spec_scan(s: Seq<char>) -> ScanOut {
    scan_from(s, 0, 1)
}

// ---------------------------------------------------------------------
// Bounds of the searches, and progress of a step
// ---------------------------------------------------------------------
pub proof fn lemma_digit_run_end(s: Seq<char>, pos: int)
    requires
        0 <= pos <= s.len(),
    ensures
        pos <= digit_run_end(s, pos) <= s.len(),
        forall|i: int| pos <= i < digit_run_end(s, pos) ==> char_is_digit(s[i]),
        digit_run_end(s, pos) < s.len() ==> !char_is_digit(s[digit_run_end(s, pos)]),
    decreases s.len() - pos,
{
    if pos < s.len() && char_is_digit(s[pos]) {
        lemma_digit_run_end(s, pos + 1);
    }
}

pub proof fn lemma_ident_run_end(s: Seq<char>, pos: int)
    requires
        0 <= pos <= s.len(),
    ensures
        pos <= ident_run_end(s, pos) <= s.len(),
        forall|i: int| pos <= i < ident_run_end(s, pos) ==> char_is_alnum(s[i]),
        ident_run_end(s, pos) < s.len() ==> !char_is_alnum(s[ident_run_end(s, pos)]),
    decreases s.len() - pos,
{
    if pos < s.len() && char_is_alnum(s[pos]) {
        lemma_ident_run_end(s, pos + 1);
    }
}

pub proof fn lemma_string_close(s: Seq<char>, pos: int)
    requires
        0 <= pos <= s.len(),
    ensures
        pos <= string_close(s, pos) <= s.len(),
        forall|i: int| pos <= i < string_close(s, pos) ==> s[i] != '"',
        string_close(s, pos) < s.len() ==> s[string_close(s, pos)] == '"',
    decreases s.len() - pos,
{
    if pos < s.len() && s[pos] != '"' {
        lemma_string_close(s, pos + 1);
    }
}

pub proof fn lemma_comment_end(s: Seq<char>, pos: int)
    requires
        0 <= pos <= s.len(),
    ensures
        pos <= comment_end(s, pos) <= s.len(),
        forall|i: int| pos <= i < comment_end(s, pos) ==> s[i] != '\n',
        comment_end(s, pos) < s.len() ==> s[comment_end(s, pos)] == '\n',
    decreases s.len() - pos,
{
    if pos < s.len() && s[pos] != '\n' {
        lemma_comment_end(s, pos + 1);
    }
}

pub proof fn lemma_newline_count(s: Seq<char>, from: int, to: int)
    requires
        from <= to,
    ensures
        0 <= newline_count(s, from, to) <= to - from,
    decreases to - from,
{
    if from < to {
        lemma_newline_count(s, from, to - 1);
    }
}

/// Every step consumes at least one character and stays within bounds.
pub proof fn lemma_scan_step_next(s: Seq<char>, pos: int, line: int)
    requires
        0 <= pos < s.len(),
    ensures
        pos < scan_step(s, pos, line).next <= s.len(),
{
    let c = s[pos];
    if char_is_digit(c) {
        lemma_digit_run_end(s, pos + 1);
        assert(digit_run_end(s, pos) == digit_run_end(s, pos + 1));
    } else if c == '"' {
        lemma_string_close(s, pos + 1);
    } else if char_is_alpha(c) {
        lemma_ident_run_end(s, pos + 1);
        assert(ident_run_end(s, pos) == ident_run_end(s, pos + 1));
    } else if c == '/' && pos + 1 < s.len() && s[pos + 1] == '/' {
        lemma_comment_end(s, pos + 2);
    }
}

/// The line counter never moves backwards, and moves forward by at most
/// one per consumed character.
pub proof fn lemma_scan_step_line(s: Seq<char>, pos: int, line: int)
    requires
        0 <= pos < s.len(),
    ensures
        line <= scan_step(s, pos, line).line2 <= line + (scan_step(s, pos, line).next - pos),
{
    let c = s[pos];
    lemma_scan_step_next(s, pos, line);
    if c == '"' {
        let close = string_close(s, pos + 1);
        lemma_string_close(s, pos + 1);
        if close >= s.len() {
            lemma_newline_count(s, pos + 1, s.len() as int);
        } else {
            lemma_newline_count(s, pos + 1, close);
        }
    }
}

// ---------------------------------------------------------------------
// Views of the executable output
// ---------------------------------------------------------------------
/// The mathematical image of a stored token sequence.
pub open spec fn view_tokens(ts: Seq<Token>) -> Seq<TokenModel> {
    Seq::new(ts.len(), |i: int| ts[i]@)
}

/// The mathematical image of a stored diagnostic sequence.
pub open spec fn view_reports(rs: Seq<Report>) -> Seq<ReportModel> {
    Seq::new(rs.len(), |i: int| rs[i]@)
}

pub proof fn lemma_view_tokens_snoc(ts: Seq<Token>, t: Token)
    ensures
        view_tokens(ts.push(t)) =~= view_tokens(ts) + seq![t@],
{
}

pub proof fn lemma_view_reports_snoc(rs: Seq<Report>, r: Report)
    ensures
        view_reports(rs.push(r)) =~= view_reports(rs) + seq![r@],
{
}

// ---------------------------------------------------------------------
// The executable scanner
// ---------------------------------------------------------------------
/// The scanner's state for one pass: the borrowed source, the cursor and
/// the start of the lexeme under scan, the 1-based line counter, the
/// tokens and diagnostics gathered so far, and the shared keyword table.
#[derive(Debug, Clone, PartialEq, Eq)]
pub struct Scanner<'a> {
    pub source: &'a str,
    pub cur_pos: usize,
    pub start: usize,
    pub line: u32,
    pub tokens: Vec<Token>,
    pub diagnostics: Vec<Report>,
    pub keywords_map: Vec<(String, TokenKind)>,
}

impl<'a> Scanner<'a> {
    /// The scanner's invariant: the cursor stays within the source, the
    /// line counter stays 1-based and cannot outrun the cursor, the
    /// source is small enough for the 32-bit line counter, and the
    /// keyword table is the fixed one.
    pub open spec fn wf(self) -> bool {
        &&& self.cur_pos <= self.source@.len()
        &&& 1 <= self.line
        &&& self.line as int - 1 <= self.cur_pos as int
        &&& self.source@.len() < 0xFFFF_FFFF
        &&& keyword_table_wf(self.keywords_map@)
    }

    /// `post` differs from `pre` at most in the cursor.
    pub open spec fn cursor_only(pre: Scanner<'a>, post: Scanner<'a>) -> bool {
        &&& post.source@ == pre.source@
        &&& post.start == pre.start
        &&& post.line == pre.line
        &&& post.tokens == pre.tokens
        &&& post.diagnostics == pre.diagnostics
        &&& post.keywords_map == pre.keywords_map
    }

    /// What one executable dispatch step must achieve: exactly what the
    /// model's `scan_step` says at the pre-state's cursor and line.
    pub open spec fn step_post(pre: Scanner<'a>, post: Scanner<'a>) -> bool {
        let src = pre.source@;
        let st = scan_step(src, pre.cur_pos as int, pre.line as int);
        &&& post.wf()
        &&& post.source@ == src
        &&& post.keywords_map == pre.keywords_map
        &&& post.cur_pos as int == st.next
        &&& post.line as int == st.line2
        &&& view_tokens(post.tokens@) == view_tokens(pre.tokens@) + opt_seq(st.tok)
        &&& view_reports(post.diagnostics@) == view_reports(pre.diagnostics@) + opt_seq(st.rep)
    }

    pub fn new(source: &'a str) -> (s: Scanner<'a>)
        requires
            source@.len() < 0xFFFF_FFFF,
        ensures
            s.wf(),
            s.source@ == source@,
            s.cur_pos == 0,
            s.start == 0,
            s.line == 1,
            s.tokens@ == Seq::<Token>::empty(),
            s.diagnostics@ == Seq::<Report>::empty(),
    {
        let keywords_map = generate_identifier_map();
        Scanner {
            source,
            tokens: Vec::new(),
            diagnostics: Vec::new(),
            cur_pos: 0,
            start: 0,
            line: 1,
            keywords_map,
        }
    }

    /// The diagnostics the latest pass recorded.
    pub fn diagnostics(&self) -> (r: &Vec<Report>)
        ensures
            r@ == self.diagnostics@,
    {
        &self.diagnostics
    }

    fn is_at_end(&self) -> (r: bool)
        ensures
            r == (self.cur_pos >= self.source@.len()),
    {
        self.cur_pos >= self.source.unicode_len()
    }

    fn current_char(&self) -> (r: Option<char>)
        ensures
            self.cur_pos < self.source@.len() ==> r == Some(self.source@[self.cur_pos as int]),
            self.cur_pos >= self.source@.len() ==> r is None,
    {
        if self.cur_pos < self.source.unicode_len() {
            Some(self.source.get_char(self.cur_pos))
        } else {
            None
        }
    }

    fn peek(&self) -> (c: char)
        ensures
            self.cur_pos < self.source@.len() ==> c == self.source@[self.cur_pos as int],
            self.cur_pos >= self.source@.len() ==> c == '\0',
    {
        if self.is_at_end() {
            return '\0';
        }
        self.current_char().unwrap()
    }

    fn consume(&mut self) -> (r: Option<char>)
        requires
            old(self).wf(),
        ensures
            final(self).wf(),
            Self::cursor_only(*old(self), *final(self)),
            old(self).cur_pos < old(self).source@.len() ==> {
                &&& final(self).cur_pos == old(self).cur_pos + 1
                &&& r == Some(old(self).source@[old(self).cur_pos as int])
            },
            old(self).cur_pos >= old(self).source@.len() ==> {
                &&& final(self).cur_pos == old(self).cur_pos
                &&& r is None
            },
    {
        if self.is_at_end() {
            return None;
        }
        let c = self.current_char();
        self.cur_pos += 1;
        c
    }

    fn is_match(&mut self, expected: char) -> (r: bool)
        requires
            old(self).wf(),
            expected != '\0',
        ensures
            final(self).wf(),
            Self::cursor_only(*old(self), *final(self)),
            if old(self).cur_pos < old(self).source@.len() && old(self).source@[old(
                self,
            ).cur_pos as int] == expected {
                r && final(self).cur_pos == old(self).cur_pos + 1
            } else {
                !r && final(self).cur_pos == old(self).cur_pos
            },
    {
        let next_c = self.peek();
        if next_c == expected {
            self.consume();
            return true;
        }
        false
    }

    fn is_alpha(&self) -> (r: bool)
        requires
            self.cur_pos < self.source@.len(),
        ensures
            r == char_is_alpha(self.source@[self.cur_pos as int]),
    {
        let c = self.current_char().unwrap();
        (c >= 'a' && c <= 'z') || (c >= 'A' && c <= 'Z') || (c == '_')
    }

    fn is_alpha_numeric(&self, c: char) -> (r: bool)
        ensures
            r == char_is_alnum(c),
    {
        (c >= 'a' && c <= 'z') || (c >= 'A' && c <= 'Z') || (c == '_') || (c >= '0' && c <= '9')
    }

    fn is_string_start(&self, c: Option<char>) -> (r: bool)
        requires
            c is None ==> self.cur_pos < self.source@.len(),
        ensures
            r == ((match c {
                Some(cc) => cc,
                None => self.source@[self.cur_pos as int],
            }) == '"'),
    {
        let cc = if c.is_some() {
            c.unwrap()
        } else {
            self.current_char().unwrap()
        };
        cc == '"'
    }

    fn is_number_start(&self) -> (r: bool)
        requires
            self.cur_pos < self.source@.len(),
        ensures
            r == char_is_digit(self.source@[self.cur_pos as int]),
    {
        let c = self.current_char().unwrap();
        c >= '0' && c <= '9'
    }

    /// Appends one token whose span runs from `start` to the cursor.
    /// The literal is the given payload, or the spanned text itself.
    fn add_token(&mut self, kind: TokenKind, literal_props: Option<String>)
        requires
            old(self).wf(),
            old(self).start <= old(self).cur_pos,
        ensures
            final(self).wf(),
            final(self).source@ == old(self).source@,
            final(self).cur_pos == old(self).cur_pos,
            final(self).start == old(self).start,
            final(self).line == old(self).line,
            final(self).diagnostics == old(self).diagnostics,
            final(self).keywords_map == old(self).keywords_map,
            view_tokens(final(self).tokens@) == view_tokens(old(self).tokens@) + seq![
                TokenModel {
                    kind,
                    line: old(self).line as int,
                    start: old(self).start as int,
                    end: old(self).cur_pos as int,
                    text: match literal_props {
                        Some(l) => l@,
                        None => old(self).source@.subrange(
                            old(self).start as int,
                            old(self).cur_pos as int,
                        ),
                    },
                },
            ],
    {
        let literal = if literal_props.is_some() {
            literal_props.unwrap()
        } else {
            let src = self.source;
            src.substring_char(self.start, self.cur_pos).to_owned()
        };
        let token = Token::new(kind, self.line, TextSpan::new(self.start, self.cur_pos, literal));
        let ghost tokg = token;
        self.tokens.push(token);
        proof {
            lemma_view_tokens_snoc(old(self).tokens@, tokg);
        }
    }

    /// Scans a maximal run of digits and emits the `NumberLiteral` token
    /// it denotes, with wraparound-on-overflow accumulation.
    fn consume_number(&mut self)
        requires
            old(self).wf(),
            old(self).cur_pos < old(self).source@.len(),
            char_is_digit(old(self).source@[old(self).cur_pos as int]),
            old(self).start == old(self).cur_pos,
        ensures
            Self::step_post(*old(self), *final(self)),
    {
        let ghost pre = *self;
        let ghost src = self.source@;
        let ghost pos0 = self.cur_pos as int;
        let mut number: i64 = 0;
        loop
            invariant
                self.wf(),
                self.source@ == src,
                pos0 <= self.cur_pos as int <= src.len(),
                self.start == pre.start,
                self.line == pre.line,
                self.tokens == pre.tokens,
                self.diagnostics == pre.diagnostics,
                self.keywords_map == pre.keywords_map,
                digit_run_end(src, self.cur_pos as int) == digit_run_end(src, pos0),
                forall|i: int| pos0 <= i < self.cur_pos as int ==> char_is_digit(src[i]),
                number == num_value(src, pos0, self.cur_pos as int),
            ensures
                self.wf(),
                self.source@ == src,
                pos0 <= self.cur_pos as int <= src.len(),
                self.start == pre.start,
                self.line == pre.line,
                self.tokens == pre.tokens,
                self.diagnostics == pre.diagnostics,
                self.keywords_map == pre.keywords_map,
                self.cur_pos as int == digit_run_end(src, pos0),
                number == num_value(src, pos0, self.cur_pos as int),
            decreases src.len() - self.cur_pos,
        {
            let oc = self.current_char();
            match oc {
                Some(n) => {
                    if n >= '0' && n <= '9' {
                        proof {
                            assert(digit_run_end(src, self.cur_pos as int) == digit_run_end(
                                src,
                                self.cur_pos as int + 1,
                            ));
                        }
                        self.consume();
                        let d = ((n as u32) - 48) as i64;
                        number = number.wrapping_mul(10).wrapping_add(d);
                    } else {
                        proof {
                            assert(digit_run_end(src, self.cur_pos as int) == self.cur_pos as int);
                        }
                        break;
                    }
                },
                None => {
                    proof {
                        assert(digit_run_end(src, self.cur_pos as int) == self.cur_pos as int);
                    }
                    break;
                },
            }
        }
        self.add_token(TokenKind::NumberLiteral(number), None);
        proof {
            let st = scan_step(src, pos0, pre.line as int);
            assert(view_tokens(self.tokens@) =~= view_tokens(pre.tokens@) + opt_seq(st.tok));
            assert(view_reports(self.diagnostics@) =~= view_reports(pre.diagnostics@) + opt_seq(
                st.rep,
            ));
        }
    }

    /// Scans a maximal run of letters, digits and underscores, and emits
    /// the keyword the spelling maps to, or an `Identifier`.
    fn consume_identifier(&mut self)
        requires
            old(self).wf(),
            old(self).cur_pos < old(self).source@.len(),
            char_is_alpha(old(self).source@[old(self).cur_pos as int]),
            old(self).start == old(self).cur_pos,
        ensures
            Self::step_post(*old(self), *final(self)),
    {
        let ghost pre = *self;
        let ghost src = self.source@;
        let ghost pos0 = self.cur_pos as int;
        loop
            invariant
                self.wf(),
                self.source@ == src,
                pos0 <= self.cur_pos as int <= src.len(),
                self.start == pre.start,
                self.line == pre.line,
                self.tokens == pre.tokens,
                self.diagnostics == pre.diagnostics,
                self.keywords_map == pre.keywords_map,
                ident_run_end(src, self.cur_pos as int) == ident_run_end(src, pos0),
            ensures
                self.wf(),
                self.source@ == src,
                pos0 <= self.cur_pos as int <= src.len(),
                self.start == pre.start,
                self.line == pre.line,
                self.tokens == pre.tokens,
                self.diagnostics == pre.diagnostics,
                self.keywords_map == pre.keywords_map,
                self.cur_pos as int == ident_run_end(src, pos0),
            decreases src.len() - self.cur_pos,
        {
            let oc = self.current_char();
            match oc {
                Some(cc) => {
                    if self.is_alpha_numeric(cc) {
                        proof {
                            assert(ident_run_end(src, self.cur_pos as int) == ident_run_end(
                                src,
                                self.cur_pos as int + 1,
                            ));
                        }
                        self.consume();
                    } else {
                        proof {
                            assert(ident_run_end(src, self.cur_pos as int) == self.cur_pos as int);
                        }
                        break;
                    }
                },
                None => {
                    proof {
                        assert(ident_run_end(src, self.cur_pos as int) == self.cur_pos as int);
                    }
                    break;
                },
            }
        }
        let src_ref = self.source;
        let literal = src_ref.substring_char(self.start, self.cur_pos).to_owned();
        let cur_type = keyword_lookup(&self.keywords_map, &literal);
        match cur_type {
            Some(k) => self.add_token(k, Some(literal)),
            None => self.add_token(TokenKind::Identifier, Some(literal)),
        }
        proof {
            let st = scan_step(src, pos0, pre.line as int);
            assert(view_tokens(self.tokens@) =~= view_tokens(pre.tokens@) + opt_seq(st.tok));
            assert(view_reports(self.diagnostics@) =~= view_reports(pre.diagnostics@) + opt_seq(
                st.rep,
            ));
        }
    }

    /// Scans a string literal. The token's payload is the text strictly
    /// between the quotes, with no escape processing; its line is the
    /// line of the opening quote. A literal whose closing quote never
    /// comes consumes the rest of the input and leaves a diagnostic
    /// instead of a token.
    fn consume_string(&mut self)
        requires
            old(self).wf(),
            old(self).cur_pos < old(self).source@.len(),
            old(self).source@[old(self).cur_pos as int] == '"',
            old(self).start == old(self).cur_pos,
        ensures
            Self::step_post(*old(self), *final(self)),
    {
        let ghost pre = *self;
        let ghost src = self.source@;
        let ghost pos0 = self.cur_pos as int;
        let line_open = self.line;
        self.consume();
        loop
            invariant
                self.wf(),
                pre.wf(),
                pre.cur_pos == pos0,
                pre.source@ == src,
                self.source@ == src,
                pos0 + 1 <= self.cur_pos as int <= src.len(),
                self.start == pre.start,
                self.tokens == pre.tokens,
                self.diagnostics == pre.diagnostics,
                self.keywords_map == pre.keywords_map,
                string_close(src, self.cur_pos as int) == string_close(src, pos0 + 1),
                self.line as int == pre.line + newline_count(src, pos0 + 1, self.cur_pos as int),
            ensures
                self.wf(),
                self.source@ == src,
                pos0 + 1 <= self.cur_pos as int <= src.len(),
                self.start == pre.start,
                self.tokens == pre.tokens,
                self.diagnostics == pre.diagnostics,
                self.keywords_map == pre.keywords_map,
                self.cur_pos as int == string_close(src, pos0 + 1),
                self.line as int == pre.line + newline_count(src, pos0 + 1, self.cur_pos as int),
            decreases src.len() - self.cur_pos,
        {
            if self.is_at_end() {
                break;
            }
            let c = self.peek();
            if c == '"' {
                proof {
                    assert(string_close(src, self.cur_pos as int) == self.cur_pos as int);
                }
                break;
            }
            proof {
                assert(string_close(src, self.cur_pos as int) == string_close(
                    src,
                    self.cur_pos as int + 1,
                ));
                lemma_newline_count(src, pos0 + 1, self.cur_pos as int);
            }
            if c == '\n' {
                self.line = self.line + 1;
            }
            self.consume();
        }
        proof {
            lemma_string_close(src, pos0 + 1);
        }
        if self.is_at_end() {
            let r = Report::new(line_open, "", "Unterminated string.");
            let ghost rg = r;
            self.diagnostics.push(r);
            proof {
                lemma_view_reports_snoc(pre.diagnostics@, rg);
                let st = scan_step(src, pos0, pre.line as int);
                assert(view_tokens(self.tokens@) =~= view_tokens(pre.tokens@) + opt_seq(st.tok));
                assert(view_reports(self.diagnostics@) =~= view_reports(pre.diagnostics@)
                    + opt_seq(st.rep));
            }
            return ;
        }
        self.consume();
        let src_ref = self.source;
        let literal = src_ref.substring_char(self.start + 1, self.cur_pos - 1).to_owned();
        let token = Token::new(
            TokenKind::StringLiteral,
            line_open,
            TextSpan::new(self.start, self.cur_pos, literal),
        );
        let ghost tokg = token;
        self.tokens.push(token);
        proof {
            lemma_view_tokens_snoc(pre.tokens@, tokg);
            let st = scan_step(src, pos0, pre.line as int);
            assert(view_tokens(self.tokens@) =~= view_tokens(pre.tokens@) + opt_seq(st.tok));
            assert(view_reports(self.diagnostics@) =~= view_reports(pre.diagnostics@) + opt_seq(
                st.rep,
            ));
        }
    }

    /// Classifies one punctuation or operator character, combining `!`,
    /// `=`, `<`, `>` with a following `=` by one character of lookahead.
    /// `//` discards the rest of the physical line; whitespace is
    /// discarded; a newline only advances the line counter; any other
    /// unrecognized character is recorded as a diagnostic and skipped.
    fn consume_punctuation(&mut self)
        requires
            old(self).wf(),
            old(self).cur_pos < old(self).source@.len(),
            !char_is_digit(old(self).source@[old(self).cur_pos as int]),
            old(self).source@[old(self).cur_pos as int] != '"',
            !char_is_alpha(old(self).source@[old(self).cur_pos as int]),
            old(self).start == old(self).cur_pos,
        ensures
            Self::step_post(*old(self), *final(self)),
    {
        let ghost pre = *self;
        let ghost src = self.source@;
        let ghost pos0 = self.cur_pos as int;
        let oc = self.consume();
        let c = oc.unwrap();
        let mut kind = TokenKind::Invalid;
        match c {
            '(' => {
                kind = TokenKind::LeftParen;
            },
            ')' => {
                kind = TokenKind::RightParen;
            },
            '{' => {
                kind = TokenKind::LeftBrace;
            },
            '}' => {
                kind = TokenKind::RightBrace;
            },
            ',' => {
                kind = TokenKind::Comma;
            },
            '.' => {
                kind = TokenKind::Dot;
            },
            '-' => {
                kind = TokenKind::Minus;
            },
            '+' => {
                kind = TokenKind::Plus;
            },
            '*' => {
                kind = TokenKind::Star;
            },
            '/' => {
                if self.is_match('/') {
                    loop
                        invariant
                            self.wf(),
                            self.source@ == src,
                            pos0 + 2 <= self.cur_pos as int <= src.len(),
                            Self::cursor_only(pre, *self),
                            comment_end(src, self.cur_pos as int) == comment_end(src, pos0 + 2),
                        ensures
                            self.wf(),
                            self.source@ == src,
                            pos0 + 2 <= self.cur_pos as int <= src.len(),
                            Self::cursor_only(pre, *self),
                            self.cur_pos as int == comment_end(src, pos0 + 2),
                        decreases src.len() - self.cur_pos,
                    {
                        if self.is_at_end() {
                            break;
                        }
                        if self.peek() == '\n' {
                            proof {
                                assert(comment_end(src, self.cur_pos as int)
                                    == self.cur_pos as int);
                            }
                            break;
                        }
                        proof {
                            assert(comment_end(src, self.cur_pos as int) == comment_end(
                                src,
                                self.cur_pos as int + 1,
                            ));
                        }
                        self.consume();
                    }
                    proof {
                        let st = scan_step(src, pos0, pre.line as int);
                        assert(view_tokens(self.tokens@) =~= view_tokens(pre.tokens@) + opt_seq(
                            st.tok,
                        ));
                        assert(view_reports(self.diagnostics@) =~= view_reports(pre.diagnostics@)
                            + opt_seq(st.rep));
                    }
                    return ;
                } else {
                    kind = TokenKind::Slash;
                }
            },
            ';' => {
                kind = TokenKind::Semicolon;
            },
            '!' => {
                kind = if self.is_match('=') {
                    TokenKind::BangEqual
                } else {
                    TokenKind::Bang
                };
            },
            '=' => {
                kind = if self.is_match('=') {
                    TokenKind::EqualEqual
                } else {
                    TokenKind::Equal
                };
            },
            '<' => {
                kind = if self.is_match('=') {
                    TokenKind::LessEqual
                } else {
                    TokenKind::Less
                };
            },
            '>' => {
                kind = if self.is_match('=') {
                    TokenKind::GreaterEqual
                } else {
                    TokenKind::Greater
                };
            },
            '\r' | ' ' | '\t' => {
                proof {
                    let st = scan_step(src, pos0, pre.line as int);
                    assert(view_tokens(self.tokens@) =~= view_tokens(pre.tokens@) + opt_seq(
                        st.tok,
                    ));
                    assert(view_reports(self.diagnostics@) =~= view_reports(pre.diagnostics@)
                        + opt_seq(st.rep));
                }
                return ;
            },
            '\n' => {
                self.line = self.line + 1;
                proof {
                    let st = scan_step(src, pos0, pre.line as int);
                    assert(view_tokens(self.tokens@) =~= view_tokens(pre.tokens@) + opt_seq(
                        st.tok,
                    ));
                    assert(view_reports(self.diagnostics@) =~= view_reports(pre.diagnostics@)
                        + opt_seq(st.rep));
                }
                return ;
            },
            _ => {
                let src_ref = self.source;
                let ctx = src_ref.substring_char(self.start, self.start + 1);
                let r = Report::new(self.line, ctx, "Unexpected character.");
                let ghost rg = r;
                self.diagnostics.push(r);
                proof {
                    lemma_view_reports_snoc(pre.diagnostics@, rg);
                    let st = scan_step(src, pos0, pre.line as int);
                    assert(view_tokens(self.tokens@) =~= view_tokens(pre.tokens@) + opt_seq(
                        st.tok,
                    ));
                    assert(view_reports(self.diagnostics@) =~= view_reports(pre.diagnostics@)
                        + opt_seq(st.rep));
                }
                return ;
            },
        }
        self.add_token(kind, None);
        proof {
            let st = scan_step(src, pos0, pre.line as int);
            assert(view_tokens(self.tokens@) =~= view_tokens(pre.tokens@) + opt_seq(st.tok));
            assert(view_reports(self.diagnostics@) =~= view_reports(pre.diagnostics@) + opt_seq(
                st.rep,
            ));
        }
    }

    /// Scans the source to completion. The result holds the recognized
    /// tokens in source order, terminated by exactly one `EndOfInput`;
    /// whitespace and comments are skipped; malformed input is recorded
    /// under `diagnostics` and scanning continues. Tokens and
    /// diagnostics are exactly what the model `spec_scan` says of the
    /// source text.
    pub fn scan_tokens(&mut self) -> (r: Vec<Token>)
        requires
            old(self).wf(),
            old(self).cur_pos == 0,
            old(self).line == 1,
            old(self).tokens@ == Seq::<Token>::empty(),
            old(self).diagnostics@ == Seq::<Report>::empty(),
        ensures
            final(self).wf(),
            final(self).source@ == old(self).source@,
            view_tokens(r@) == spec_scan(old(self).source@).tokens,
            view_tokens(final(self).tokens@) == spec_scan(old(self).source@).tokens,
            view_reports(final(self).diagnostics@) == spec_scan(old(self).source@).reports,
    {
        let ghost src = self.source@;
        proof {
            assert(view_tokens(self.tokens@) =~= Seq::<TokenModel>::empty());
            assert(view_reports(self.diagnostics@) =~= Seq::<ReportModel>::empty());
            assert(Seq::<TokenModel>::empty() + scan_from(src, 0, 1).tokens =~= scan_from(
                src,
                0,
                1,
            ).tokens);
            assert(Seq::<ReportModel>::empty() + scan_from(src, 0, 1).reports =~= scan_from(
                src,
                0,
                1,
            ).reports);
        }
        loop
            invariant
                self.wf(),
                self.source@ == src,
                view_tokens(self.tokens@) + scan_from(
                    src,
                    self.cur_pos as int,
                    self.line as int,
                ).tokens == spec_scan(src).tokens,
                view_reports(self.diagnostics@) + scan_from(
                    src,
                    self.cur_pos as int,
                    self.line as int,
                ).reports == spec_scan(src).reports,
            ensures
                self.wf(),
                self.source@ == src,
                self.cur_pos as int == src.len(),
                view_tokens(self.tokens@) + scan_from(
                    src,
                    self.cur_pos as int,
                    self.line as int,
                ).tokens == spec_scan(src).tokens,
                view_reports(self.diagnostics@) + scan_from(
                    src,
                    self.cur_pos as int,
                    self.line as int,
                ).reports == spec_scan(src).reports,
            decreases src.len() - self.cur_pos,
        {
            if self.is_at_end() {
                break;
            }
            self.start = self.cur_pos;
            let ghost pos = self.cur_pos as int;
            let ghost line = self.line as int;
            let ghost done_t = view_tokens(self.tokens@);
            let ghost done_r = view_reports(self.diagnostics@);
            if self.is_number_start() {
                self.consume_number();
            } else if self.is_string_start(None) {
                self.consume_string();
            } else if self.is_alpha() {
                self.consume_identifier();
            } else {
                self.consume_punctuation();
            }
            proof {
                let st = scan_step(src, pos, line);
                lemma_scan_step_next(src, pos, line);
                assert((done_t + opt_seq(st.tok)) + scan_from(src, st.next, st.line2).tokens
                    =~= done_t + (opt_seq(st.tok) + scan_from(src, st.next, st.line2).tokens));
                assert((done_r + opt_seq(st.rep)) + scan_from(src, st.next, st.line2).reports
                    =~= done_r + (opt_seq(st.rep) + scan_from(src, st.next, st.line2).reports));
            }
        }
        let ghost toks_before = self.tokens@;
        let ghost done_t = view_tokens(self.tokens@);
        let ghost done_r = view_reports(self.diagnostics@);
        let token = Token::new(TokenKind::EndOfInput, self.line, TextSpan::new(0, 0, String::new()));
        let ghost tokg = token;
        self.tokens.push(token);
        proof {
            lemma_view_tokens_snoc(toks_before, tokg);
            assert(tokg@ == eof_token(self.line as int));
            assert(done_t + seq![tokg@] =~= spec_scan(src).tokens);
            assert(view_tokens(self.tokens@) =~= spec_scan(src).tokens);
            assert(done_r + Seq::<ReportModel>::empty() =~= done_r);
        }
        clone_tokens(&self.tokens)
    }
}

/// Copies a gathered token sequence for handing out, leaving the
/// scanner's own record in place.
fn clone_tokens(v: &Vec<Token>) -> (r: Vec<Token>)
    ensures
        view_tokens(r@) == view_tokens(v@),
{
    let mut r: Vec<Token> = Vec::new();
    let mut i: usize = 0;
    while i < v.len()
        invariant
            0 <= i <= v@.len(),
            r@.len() == i,
            forall|j: int| 0 <= j < i ==> r@[j]@ == v@[j]@,
        decreases v@.len() - i,
    {
        let t = &v[i];
        let copied = Token::new(
            t.kind,
            t.line,
            TextSpan::new(t.span.start, t.span.end, t.span.literal.clone()),
        );
        r.push(copied);
        i += 1;
    }
    proof {
        assert(view_tokens(r@) =~= view_tokens(v@));
    }
    r
}

} // verus!
