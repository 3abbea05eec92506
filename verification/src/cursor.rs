//! The parser's token cursor. The token stream is held twice: the generic
//! grammar's own tokens, for the constructs delegated to it, and their
//! mirror in the library's token model, over which the extension grammar is
//! parsed and verified. One position indexes both.
use vstd::prelude::*;
use crate::errors::ParseError;
use crate::tokens::Lexeme;
use crate::tokens::LexemeV;
use crate::tokens::spec_display_token;
use crate::tokens::spec_is_kw;
use crate::tokens::word_is_kw;

verus! {

/// The SQL parser: a cursor over the token stream, together with the scope
/// (catalog, schema, table, filename) the statements are read under.
pub struct DFParser {
    /// The generic grammar's tokens, for the constructs delegated to it.
    pub sql_tokens: Vec<sqlparser::tokenizer::Token>,
    /// The same tokens, mirrored into the library's token model.
    pub toks: Vec<Lexeme>,
    /// The cursor: the index of the next unread token, in both streams.
    pub pos: usize,
    /// The active catalog.
    pub catalog: String,
    /// The active schema.
    pub schema: String,
    /// The active table.
    pub table: String,
    /// The file the text was read from; empty outside a file.
    pub filename: String,
}

/// The position after any whitespace from `pos` on.
pub open spec fn spec_skip_ws(toks: Seq<LexemeV>, pos: int) -> int
    decreases toks.len() - pos,
{
    if 0 <= pos < toks.len() && toks[pos] is Whitespace {
        spec_skip_ws(toks, pos + 1)
    } else {
        pos
    }
}

pub proof fn lemma_skip_ws(toks: Seq<LexemeV>, pos: int)
    requires
        0 <= pos <= toks.len(),
    ensures
        pos <= spec_skip_ws(toks, pos) <= toks.len(),
        spec_skip_ws(toks, pos) < toks.len() ==> !(toks[spec_skip_ws(toks, pos)] is Whitespace),
    decreases toks.len() - pos,
{
    if pos < toks.len() && toks[pos] is Whitespace {
        lemma_skip_ws(toks, pos + 1);
    }
}

/// The first non-whitespace token at or after `pos`; end of input reads as
/// `Eof`.
pub open spec fn spec_peek(toks: Seq<LexemeV>, pos: int) -> LexemeV {
    if spec_skip_ws(toks, pos) < toks.len() {
        toks[spec_skip_ws(toks, pos)]
    } else {
        LexemeV::Eof
    }
}

/// The position after consuming the token `spec_peek` reads.
pub open spec fn spec_advance(toks: Seq<LexemeV>, pos: int) -> int {
    if spec_skip_ws(toks, pos) < toks.len() {
        spec_skip_ws(toks, pos) + 1
    } else {
        spec_skip_ws(toks, pos)
    }
}

pub proof fn lemma_advance(toks: Seq<LexemeV>, pos: int)
    requires
        0 <= pos <= toks.len(),
    ensures
        pos <= spec_advance(toks, pos) <= toks.len(),
        !(spec_peek(toks, pos) is Eof) ==> pos < spec_advance(toks, pos),
{
    lemma_skip_ws(toks, pos);
}

/// The message of an unexpected-token error: `Expected <what>, found:
/// <token>`.
pub open spec fn spec_expected_msg(what: Seq<char>, found: LexemeV) -> Seq<char> {
    "Expected "@ + what + ", found: "@ + spec_display_token(found)
}

fn is_ws(t: &Lexeme) -> (r: bool)
    ensures
        r == (t@ is Whitespace),
{
    match t {
        Lexeme::Whitespace => true,
        _ => false,
    }
}

pub fn is_comma(t: &Lexeme) -> (r: bool)
    ensures
        r == (t@ is Comma),
{
    match t {
        Lexeme::Comma => true,
        _ => false,
    }
}

pub fn is_period(t: &Lexeme) -> (r: bool)
    ensures
        r == (t@ is Period),
{
    match t {
        Lexeme::Period => true,
        _ => false,
    }
}

pub fn is_lparen(t: &Lexeme) -> (r: bool)
    ensures
        r == (t@ is LParen),
{
    match t {
        Lexeme::LParen => true,
        _ => false,
    }
}

pub fn is_rparen(t: &Lexeme) -> (r: bool)
    ensures
        r == (t@ is RParen),
{
    match t {
        Lexeme::RParen => true,
        _ => false,
    }
}

pub fn is_semicolon(t: &Lexeme) -> (r: bool)
    ensures
        r == (t@ is SemiColon),
{
    match t {
        Lexeme::SemiColon => true,
        _ => false,
    }
}

pub fn is_eof(t: &Lexeme) -> (r: bool)
    ensures
        r == (t@ is Eof),
{
    match t {
        Lexeme::Eof => true,
        _ => false,
    }
}

pub fn is_word(t: &Lexeme) -> (r: bool)
    ensures
        r == (t@ is Word),
{
    match t {
        Lexeme::Word { .. } => true,
        _ => false,
    }
}

impl DFParser {
    /// The mirrored token stream, as mathematical values.
    pub open spec fn views(&self) -> Seq<LexemeV> {
        self.toks.deep_view()
    }

    /// The cursor is inside the stream, and the two token streams run in
    /// step.
    pub open spec fn wf(&self) -> bool {
        &&& self.pos <= self.toks@.len()
        &&& self.toks@.len() == self.sql_tokens@.len()
    }

    /// The other parser reads the same stream under the same scope: only the
    /// position may differ.
    pub open spec fn same_stream(&self, other: &DFParser) -> bool {
        &&& self.sql_tokens == other.sql_tokens
        &&& self.toks == other.toks
        &&& self.catalog == other.catalog
        &&& self.schema == other.schema
        &&& self.table == other.table
        &&& self.filename == other.filename
    }

    fn skip_ws_pos(&self) -> (i: usize)
        requires
            self.wf(),
        ensures
            i == spec_skip_ws(self.views(), self.pos as int),
            self.pos <= i <= self.toks@.len(),
    {
        let n = self.toks.len();
        let mut i: usize = self.pos;
        while i < n && is_ws(&self.toks[i])
            invariant
                self.wf(),
                self.pos <= i <= n,
                n == self.toks@.len(),
                spec_skip_ws(self.views(), self.pos as int) == spec_skip_ws(
                    self.views(),
                    i as int,
                ),
            decreases n - i,
        {
            proof {
                assert(self.views()[i as int] == self.toks@[i as int]@);
            }
            i = i + 1;
        }
        proof {
            if i < n {
                assert(self.views()[i as int] == self.toks@[i as int]@);
            }
        }
        i
    }

    /// The next token to be read, without consuming it.
    pub fn peek(&self) -> (r: Lexeme)
        requires
            self.wf(),
        ensures
            r@ == spec_peek(self.views(), self.pos as int),
    {
        let i = self.skip_ws_pos();
        if i < self.toks.len() {
            proof {
                assert(self.views()[i as int] == self.toks@[i as int]@);
            }
            self.toks[i].dup()
        } else {
            Lexeme::Eof
        }
    }

    /// Consume and return the next token; at end of input, `Eof`.
    pub fn next_token(&mut self) -> (r: Lexeme)
        requires
            old(self).wf(),
        ensures
            final(self).wf(),
            old(self).same_stream(final(self)),
            r@ == spec_peek(old(self).views(), old(self).pos as int),
            final(self).pos == spec_advance(old(self).views(), old(self).pos as int),
            old(self).pos <= final(self).pos,
    {
        let i = self.skip_ws_pos();
        if i < self.toks.len() {
            let r = self.toks[i].dup();
            proof {
                assert(self.views()[i as int] == self.toks@[i as int]@);
            }
            self.pos = i + 1;
            r
        } else {
            self.pos = i;
            Lexeme::Eof
        }
    }

    /// Consume the next token when it is the keyword `kw` (an unquoted word,
    /// compared without regard to ASCII letter case).
    pub fn parse_keyword(&mut self, kw: &str) -> (r: bool)
        requires
            old(self).wf(),
        ensures
            final(self).wf(),
            old(self).same_stream(final(self)),
            r == spec_is_kw(spec_peek(old(self).views(), old(self).pos as int), kw@),
            r ==> final(self).pos == spec_advance(old(self).views(), old(self).pos as int),
            !r ==> final(self).pos == old(self).pos,
            old(self).pos <= final(self).pos,
    {
        let t = self.peek();
        if word_is_kw(&t, kw) {
            let _ = self.next_token();
            true
        } else {
            false
        }
    }

    /// Consume the next two tokens when they are the keywords `a` then `b`;
    /// otherwise consume nothing.
    pub fn parse_keyword2(&mut self, a: &str, b: &str) -> (r: bool)
        requires
            old(self).wf(),
        ensures
            final(self).wf(),
            old(self).same_stream(final(self)),
            ({
                let toks = old(self).views();
                let p0 = old(self).pos as int;
                let p1 = spec_advance(toks, p0);
                if spec_is_kw(spec_peek(toks, p0), a@) && spec_is_kw(spec_peek(toks, p1), b@) {
                    r && final(self).pos == spec_advance(toks, p1)
                } else {
                    !r && final(self).pos == p0
                }
            }),
            old(self).pos <= final(self).pos,
    {
        let start = self.pos;
        if !self.parse_keyword(a) {
            return false;
        }
        if !self.parse_keyword(b) {
            self.pos = start;
            return false;
        }
        true
    }

    /// Consume the next three tokens when they are the keywords `a`, `b`,
    /// `c`; otherwise consume nothing.
    pub fn parse_keyword3(&mut self, a: &str, b: &str, c: &str) -> (r: bool)
        requires
            old(self).wf(),
        ensures
            final(self).wf(),
            old(self).same_stream(final(self)),
            ({
                let toks = old(self).views();
                let p0 = old(self).pos as int;
                let p1 = spec_advance(toks, p0);
                let p2 = spec_advance(toks, p1);
                if spec_is_kw(spec_peek(toks, p0), a@) && spec_is_kw(spec_peek(toks, p1), b@)
                    && spec_is_kw(spec_peek(toks, p2), c@) {
                    r && final(self).pos == spec_advance(toks, p2)
                } else {
                    !r && final(self).pos == p0
                }
            }),
            old(self).pos <= final(self).pos,
    {
        let start = self.pos;
        if !self.parse_keyword(a) {
            return false;
        }
        if !self.parse_keyword(b) {
            self.pos = start;
            return false;
        }
        if !self.parse_keyword(c) {
            self.pos = start;
            return false;
        }
        true
    }

    /// Consume the next token when it is a comma.
    pub fn consume_comma(&mut self) -> (r: bool)
        requires
            old(self).wf(),
        ensures
            final(self).wf(),
            old(self).same_stream(final(self)),
            r == (spec_peek(old(self).views(), old(self).pos as int) is Comma),
            r ==> final(self).pos == spec_advance(old(self).views(), old(self).pos as int),
            !r ==> final(self).pos == old(self).pos,
            old(self).pos <= final(self).pos,
    {
        let t = self.peek();
        if is_comma(&t) {
            let _ = self.next_token();
            true
        } else {
            false
        }
    }

    /// Consume the next token when it is an opening parenthesis.
    pub fn consume_lparen(&mut self) -> (r: bool)
        requires
            old(self).wf(),
        ensures
            final(self).wf(),
            old(self).same_stream(final(self)),
            r == (spec_peek(old(self).views(), old(self).pos as int) is LParen),
            r ==> final(self).pos == spec_advance(old(self).views(), old(self).pos as int),
            !r ==> final(self).pos == old(self).pos,
            old(self).pos <= final(self).pos,
    {
        let t = self.peek();
        if is_lparen(&t) {
            let _ = self.next_token();
            true
        } else {
            false
        }
    }

    /// Consume the next token when it is a closing parenthesis.
    pub fn consume_rparen(&mut self) -> (r: bool)
        requires
            old(self).wf(),
        ensures
            final(self).wf(),
            old(self).same_stream(final(self)),
            r == (spec_peek(old(self).views(), old(self).pos as int) is RParen),
            r ==> final(self).pos == spec_advance(old(self).views(), old(self).pos as int),
            !r ==> final(self).pos == old(self).pos,
            old(self).pos <= final(self).pos,
    {
        let t = self.peek();
        if is_rparen(&t) {
            let _ = self.next_token();
            true
        } else {
            false
        }
    }

    /// Consume the next token when it is a semicolon.
    pub fn consume_semicolon(&mut self) -> (r: bool)
        requires
            old(self).wf(),
        ensures
            final(self).wf(),
            old(self).same_stream(final(self)),
            r == (spec_peek(old(self).views(), old(self).pos as int) is SemiColon),
            r ==> final(self).pos == spec_advance(old(self).views(), old(self).pos as int),
            !r ==> final(self).pos == old(self).pos,
            old(self).pos <= final(self).pos,
    {
        let t = self.peek();
        if is_semicolon(&t) {
            let _ = self.next_token();
            true
        } else {
            false
        }
    }

    /// Consume the next token when it is a period.
    pub fn consume_period(&mut self) -> (r: bool)
        requires
            old(self).wf(),
        ensures
            final(self).wf(),
            old(self).same_stream(final(self)),
            r == (spec_peek(old(self).views(), old(self).pos as int) is Period),
            r ==> final(self).pos == spec_advance(old(self).views(), old(self).pos as int),
            !r ==> final(self).pos == old(self).pos,
            old(self).pos <= final(self).pos,
    {
        let t = self.peek();
        if is_period(&t) {
            let _ = self.next_token();
            true
        } else {
            false
        }
    }

    /// Move the cursor forward by `n` tokens, capped at the end of the
    /// stream; used after a construct was consumed by the generic grammar.
    pub fn advance_by(&mut self, n: usize)
        requires
            old(self).wf(),
        ensures
            final(self).wf(),
            old(self).same_stream(final(self)),
            old(self).pos <= final(self).pos,
            final(self).pos == (if old(self).pos + n <= old(self).toks@.len() {
                old(self).pos + n
            } else {
                old(self).toks@.len() as int
            }),
    {
        let len = self.toks.len();
        if n <= len - self.pos {
            self.pos = self.pos + n;
        } else {
            self.pos = len;
        }
    }

    /// An error for an unexpected token: `Expected <what>, found: <token>`.
    pub fn expected_error(&self, what: &str, found: &Lexeme) -> (r: ParseError)
        ensures
            r matches ParseError::ParseError(m) && m@ == spec_expected_msg(what@, found@),
    {
        let mut msg = String::from_str("Expected ");
        msg.append(what);
        msg.append(", found: ");
        let shown = found.display();
        msg.append(shown.as_str());
        proof {
            assert(msg@ =~= spec_expected_msg(what@, found@));
        }
        ParseError::ParseError(msg)
    }
}

} // verus!
