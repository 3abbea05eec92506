//! The library's own token model. The generic SQL tokenizer produces a token
//! stream; each token is mirrored here as a plain value so that the extension
//! grammar can be parsed, and reasoned about, entirely over these values.
use vstd::prelude::*;
use crate::strutil::char_string;
use crate::strutil::eq_icase;
use crate::strutil::eq_ignore_case;

verus! {

/// A token of the extension grammar. Tokens that the extension never
/// inspects are carried as `Other` with their display text.
#[derive(Debug)]
pub enum Lexeme {
    /// A word: a keyword, or an optionally quoted identifier. `kw` records
    /// whether the tokenizer recognized the word as a SQL keyword.
    Word { value: String, quote: Option<char>, kw: bool },
    SingleQuoted(String),
    DoubleQuoted(String),
    Comma,
    Period,
    LParen,
    RParen,
    SemiColon,
    Whitespace,
    Eof,
    Other(String),
}

/// The mathematical value of a token.
pub enum LexemeV {
    Word { value: Seq<char>, quote: Option<char>, kw: bool },
    SingleQuoted(Seq<char>),
    DoubleQuoted(Seq<char>),
    Comma,
    Period,
    LParen,
    RParen,
    SemiColon,
    Whitespace,
    Eof,
    Other(Seq<char>),
}

impl View for Lexeme {
    type V = LexemeV;

    open spec fn view(&self) -> LexemeV {
        match self {
            Lexeme::Word { value, quote, kw } => LexemeV::Word {
                value: value@,
                quote: *quote,
                kw: *kw,
            },
            Lexeme::SingleQuoted(s) => LexemeV::SingleQuoted(s@),
            Lexeme::DoubleQuoted(s) => LexemeV::DoubleQuoted(s@),
            Lexeme::Comma => LexemeV::Comma,
            Lexeme::Period => LexemeV::Period,
            Lexeme::LParen => LexemeV::LParen,
            Lexeme::RParen => LexemeV::RParen,
            Lexeme::SemiColon => LexemeV::SemiColon,
            Lexeme::Whitespace => LexemeV::Whitespace,
            Lexeme::Eof => LexemeV::Eof,
            Lexeme::Other(s) => LexemeV::Other(s@),
        }
    }
}

impl DeepView for Lexeme {
    type V = LexemeV;

    open spec fn deep_view(&self) -> LexemeV {
        self.view()
    }
}

/// The closing quote that matches an opening identifier quote.
pub open spec fn spec_end_quote(q: char) -> char {
    if q == '[' {
        ']'
    } else {
        q
    }
}

/// The display text of a token, as the generic grammar would print it in an
/// error message.
pub open spec fn spec_display_token(t: LexemeV) -> Seq<char> {
    match t {
        LexemeV::Word { value, quote, .. } => match quote {
            Some(q) => seq![q] + value + seq![spec_end_quote(q)],
            None => value,
        },
        LexemeV::SingleQuoted(s) => seq!['\''] + s + seq!['\''],
        LexemeV::DoubleQuoted(s) => seq!['"'] + s + seq!['"'],
        LexemeV::Comma => seq![','],
        LexemeV::Period => seq!['.'],
        LexemeV::LParen => seq!['('],
        LexemeV::RParen => seq![')'],
        LexemeV::SemiColon => seq![';'],
        LexemeV::Whitespace => seq![' '],
        LexemeV::Eof => seq!['E', 'O', 'F'],
        LexemeV::Other(s) => s,
    }
}

pub fn end_quote_exec(q: char) -> (r: char)
    ensures
        r == spec_end_quote(q),
{
    if q == '[' {
        ']'
    } else {
        q
    }
}

impl Lexeme {
    /// Render the token as the generic grammar would in an error message.
    pub fn display(&self) -> (r: String)
        ensures
            r@ == spec_display_token(self@),
    {
        match self {
            Lexeme::Word { value, quote, .. } => match quote {
                Some(q) => {
                    let mut out = char_string(*q);
                    out.append(value.as_str());
                    crate::strutil::push_char(&mut out, end_quote_exec(*q));
                    proof {
                        assert(out@ =~= seq![*q] + value@ + seq![spec_end_quote(*q)]);
                    }
                    out
                },
                None => value.clone(),
            },
            Lexeme::SingleQuoted(s) => {
                let mut out = char_string('\'');
                out.append(s.as_str());
                crate::strutil::push_char(&mut out, '\'');
                proof {
                    assert(out@ =~= seq!['\''] + s@ + seq!['\'']);
                }
                out
            },
            Lexeme::DoubleQuoted(s) => {
                let mut out = char_string('"');
                out.append(s.as_str());
                crate::strutil::push_char(&mut out, '"');
                proof {
                    assert(out@ =~= seq!['"'] + s@ + seq!['"']);
                }
                out
            },
            Lexeme::Comma => char_string(','),
            Lexeme::Period => char_string('.'),
            Lexeme::LParen => char_string('('),
            Lexeme::RParen => char_string(')'),
            Lexeme::SemiColon => char_string(';'),
            Lexeme::Whitespace => char_string(' '),
            Lexeme::Eof => {
                let r = String::from_str("EOF");
                proof {
                    reveal_strlit("EOF");
                    assert(r@ =~= seq!['E', 'O', 'F']);
                }
                r
            },
            Lexeme::Other(s) => s.clone(),
        }
    }

    /// An exact copy of the token.
    pub fn dup(&self) -> (r: Lexeme)
        ensures
            r@ == self@,
    {
        match self {
            Lexeme::Word { value, quote, kw } => Lexeme::Word {
                value: value.clone(),
                quote: *quote,
                kw: *kw,
            },
            Lexeme::SingleQuoted(s) => Lexeme::SingleQuoted(s.clone()),
            Lexeme::DoubleQuoted(s) => Lexeme::DoubleQuoted(s.clone()),
            Lexeme::Comma => Lexeme::Comma,
            Lexeme::Period => Lexeme::Period,
            Lexeme::LParen => Lexeme::LParen,
            Lexeme::RParen => Lexeme::RParen,
            Lexeme::SemiColon => Lexeme::SemiColon,
            Lexeme::Whitespace => Lexeme::Whitespace,
            Lexeme::Eof => Lexeme::Eof,
            Lexeme::Other(s) => Lexeme::Other(s.clone()),
        }
    }
}

/// The token is an unquoted word that matches the keyword `kw` up to ASCII
/// letter case.
pub open spec fn spec_is_kw(t: LexemeV, kw: Seq<char>) -> bool {
    &&& t matches LexemeV::Word { value, quote, .. }
    &&& quote is None
    &&& eq_icase(value, kw)
}

pub fn word_is_kw(t: &Lexeme, kw: &str) -> (r: bool)
    ensures
        r == spec_is_kw(t@, kw@),
{
    match t {
        Lexeme::Word { value, quote: None, .. } => eq_ignore_case(value.as_str(), kw),
        _ => false,
    }
}

} // verus!
