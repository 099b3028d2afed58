//! The cursor over a scanned token sequence that a recursive-descent
//! parser drives: peeking, matching and consuming tokens. The grammar
//! itself is out of scope here; these are the primitives it relies on.

use crate::token::{Token, TokenKind};
use vstd::prelude::*;

verus! {

/// A cursor over a token sequence that ends with `EndOfInput`.
pub struct Parser {
    pub tokens: Vec<Token>,
    pub cur_pos: usize,
}

impl Parser {
    /// The parser's invariant: the sequence is non-empty, its last
    /// token is `EndOfInput`, and the cursor stays on a token.
    pub open spec fn wf(self) -> bool {
        &&& self.tokens@.len() >= 1
        &&& self.tokens@[self.tokens@.len() - 1]@.kind is EndOfInput
        &&& self.cur_pos < self.tokens@.len()
    }

    /// The kind under the cursor.
    pub open spec fn cur_kind(self) -> TokenKind {
        self.tokens@[self.cur_pos as int]@.kind
    }

    pub fn new(tokens: Vec<Token>) -> (p: Parser)
        requires
            tokens@.len() >= 1,
            tokens@[tokens@.len() - 1]@.kind is EndOfInput,
        ensures
            p.wf(),
            p.tokens@ == tokens@,
            p.cur_pos == 0,
    {
        Parser { tokens, cur_pos: 0 }
    }

    /// Consumes the current token if its kind equals one of the given
    /// kinds and the input is not exhausted.
    pub fn is_match(&mut self, kinds: Vec<TokenKind>) -> (r: bool)
        requires
            old(self).wf(),
        ensures
            final(self).wf(),
            final(self).tokens == old(self).tokens,
            if !(old(self).cur_kind() is EndOfInput) && kinds@.contains(old(self).cur_kind()) {
                r && final(self).cur_pos == old(self).cur_pos + 1
            } else {
                !r && final(self).cur_pos == old(self).cur_pos
            },
    {
        let mut i: usize = 0;
        while i < kinds.len()
            invariant
                self.wf(),
                self == old(self),
                0 <= i <= kinds@.len(),
                forall|j: int|
                    0 <= j < i ==> (self.cur_kind() is EndOfInput || self.cur_kind()
                        != kinds@[j]),
            decreases kinds@.len() - i,
        {
            if self.check(kinds[i]) {
                self.consume();
                return true;
            }
            i += 1;
        }
        false
    }

    /// The token under the cursor.
    pub fn peek(&self) -> (r: Option<&Token>)
        requires
            self.wf(),
        ensures
            r matches Some(t) && *t == self.tokens@[self.cur_pos as int],
    {
        if self.cur_pos < self.tokens.len() {
            Some(&self.tokens[self.cur_pos])
        } else {
            None
        }
    }

    /// Whether the cursor has reached the terminating token.
    pub fn is_at_end(&self) -> (r: bool)
        requires
            self.wf(),
        ensures
            r == (self.cur_kind() is EndOfInput),
    {
        match self.peek().unwrap().kind {
            TokenKind::EndOfInput => true,
            _ => false,
        }
    }

    /// The token just before the cursor.
    pub fn previous(&self) -> (r: Option<&Token>)
        requires
            self.wf(),
            self.cur_pos >= 1,
        ensures
            r matches Some(t) && *t == self.tokens@[self.cur_pos - 1],
    {
        if self.cur_pos >= 1 && self.cur_pos - 1 < self.tokens.len() {
            Some(&self.tokens[self.cur_pos - 1])
        } else {
            None
        }
    }

    /// Advances past the current token, unless the input is exhausted,
    /// and hands back the token the cursor moved over (or rests on).
    pub fn consume(&mut self) -> (r: Option<&Token>)
        requires
            old(self).wf(),
            old(self).cur_pos >= 1 || !(old(self).cur_kind() is EndOfInput),
        ensures
            final(self).wf(),
            final(self).tokens == old(self).tokens,
            !(old(self).cur_kind() is EndOfInput) ==> final(self).cur_pos == old(self).cur_pos
                + 1,
            old(self).cur_kind() is EndOfInput ==> final(self).cur_pos == old(self).cur_pos,
            r matches Some(t) && *t == final(self).tokens@[final(self).cur_pos - 1],
    {
        if !(self.is_at_end()) {
            let n = self.tokens.len();
            proof {
                assert(self.cur_pos + 1 < n);
            }
            self.cur_pos += 1;
        }
        self.previous()
    }

    /// Whether the current token has the given kind; never true on the
    /// terminating token.
    pub fn check(&self, kind: TokenKind) -> (r: bool)
        requires
            self.wf(),
        ensures
            r == (!(self.cur_kind() is EndOfInput) && self.cur_kind() == kind),
    {
        if self.is_at_end() {
            false
        } else {
            match self.peek() {
                Some(t) => t.kind == kind,
                None => false,
            }
        }
    }
}

} // verus!
