//! The extension grammar. Each parse step has a specification over the token
//! values — `spec_parse_*` — and an executable counterpart proved to follow
//! it exactly: position moved, value produced, and error message, all pinned.
use vstd::prelude::*;
use crate::ast::DfStatement;
use crate::ast::Ident;
use crate::ast::IdentV;
use crate::ast::StatementMeta;
use crate::compression::CompressionTypeVariant;
use crate::compression::spec_compression_of;
use crate::compression::spec_unsupported_compression_message;
use crate::cursor::DFParser;
use crate::cursor::lemma_advance;
use crate::cursor::lemma_skip_ws;
use crate::cursor::spec_advance;
use crate::cursor::spec_expected_msg;
use crate::cursor::spec_peek;
use crate::errors::ParseError;
use crate::session::ResolutionSession;
use crate::sqlbridge::spec_column_option_parse;
use crate::sqlbridge::spec_create_parse;
use crate::sqlbridge::spec_data_type_parse;
use crate::sqlbridge::spec_lexeme_of;
use crate::sqlbridge::spec_mirror;
use crate::sqlbridge::spec_query_parse;
use crate::sqlbridge::spec_statement_parse;
use crate::sqlbridge::spec_table_constraint_parse;
use crate::sqlbridge::spec_tokenize;
use crate::session::spec_normalized_location;
use crate::strutil::split_seq;
use crate::strutil::upper_seq;
use crate::tokens::Lexeme;
use crate::tokens::LexemeV;
use crate::tokens::spec_is_kw;

verus! {

/// The outcome of one parse step: the parsed value and the position after
/// it, or an error message (a tokenizer error when `tok_err`) and the
/// position at which parsing stopped.
pub enum Parsed<T> {
    Done { v: T, end: int },
    Fail { msg: Seq<char>, tok_err: bool, end: int },
}

/// Parsing one identifier: a word, or a single- or double-quoted string.
/// The token is consumed either way, as the generic grammar does.
pub open spec fn spec_parse_identifier(toks: Seq<LexemeV>, pos: int) -> Parsed<IdentV> {
    let t = spec_peek(toks, pos);
    let end = spec_advance(toks, pos);
    match t {
        LexemeV::Word { value, quote, .. } => Parsed::Done { v: IdentV { value, quote }, end },
        LexemeV::SingleQuoted(s) => Parsed::Done { v: IdentV { value: s, quote: Some('\'') }, end },
        LexemeV::DoubleQuoted(s) => Parsed::Done { v: IdentV { value: s, quote: Some('"') }, end },
        _ => Parsed::Fail { msg: spec_expected_msg("identifier"@, t), tok_err: false, end },
    }
}

/// Parsing a literal string: an unquoted non-keyword word, or a quoted
/// string. The token is consumed either way.
pub open spec fn spec_parse_literal_string(toks: Seq<LexemeV>, pos: int) -> Parsed<Seq<char>> {
    let t = spec_peek(toks, pos);
    let end = spec_advance(toks, pos);
    match t {
        LexemeV::Word { value, kw: false, .. } => Parsed::Done { v: value, end },
        LexemeV::SingleQuoted(s) => Parsed::Done { v: s, end },
        LexemeV::DoubleQuoted(s) => Parsed::Done { v: s, end },
        _ => Parsed::Fail { msg: spec_expected_msg("literal string"@, t), tok_err: false, end },
    }
}

/// Parsing a dotted object name: identifiers separated by periods.
pub open spec fn spec_parse_object_name(toks: Seq<LexemeV>, pos: int) -> Parsed<Seq<IdentV>>
    decreases toks.len() - pos,
    when 0 <= pos <= toks.len()
    via spec_parse_object_name_dec
{
    match spec_parse_identifier(toks, pos) {
        Parsed::Fail { msg, tok_err, end } => Parsed::Fail { msg, tok_err, end },
        Parsed::Done { v, end } => {
            if spec_peek(toks, end) is Period {
                match spec_parse_object_name(toks, spec_advance(toks, end)) {
                    Parsed::Done { v: rest, end: e2 } => Parsed::Done { v: seq![v] + rest, end: e2 },
                    Parsed::Fail { msg, tok_err, end: e2 } => Parsed::Fail {
                        msg,
                        tok_err,
                        end: e2,
                    },
                }
            } else {
                Parsed::Done { v: seq![v], end }
            }
        },
    }
}

#[via_fn]
proof fn spec_parse_object_name_dec(toks: Seq<LexemeV>, pos: int) {
    lemma_advance(toks, pos);
    lemma_advance(toks, spec_advance(toks, pos));
}

/// A parse outcome for a list, with the pieces parsed so far prepended.
pub open spec fn spec_prepend<T>(pre: Seq<T>, p: Parsed<Seq<T>>) -> Parsed<Seq<T>> {
    match p {
        Parsed::Done { v, end } => Parsed::Done { v: pre + v, end },
        Parsed::Fail { msg, tok_err, end } => Parsed::Fail { msg, tok_err, end },
    }
}

impl DFParser {
    /// Parse one identifier: a word, or a quoted string. As in the generic
    /// grammar, the token is consumed even when it is not an identifier.
    pub fn parse_identifier(&mut self) -> (r: Result<Ident, ParseError>)
        requires
            old(self).wf(),
        ensures
            final(self).wf(),
            old(self).same_stream(final(self)),
            old(self).pos <= final(self).pos,
            ({
                let sp = spec_parse_identifier(old(self).views(), old(self).pos as int);
                match r {
                    Ok(id) => sp matches Parsed::Done { v, end } && id@ == v && final(self).pos
                        == end,
                    Err(e) => sp matches Parsed::Fail { msg, tok_err: false, end } && final(self).pos == end && (e matches ParseError::ParseError(m) && m@ == msg),
                }
            }),
    {
        let t = self.next_token();
        match t {
            Lexeme::Word { value, quote, .. } => Ok(Ident { value, quote }),
            Lexeme::SingleQuoted(s) => Ok(Ident { value: s, quote: Some('\'') }),
            Lexeme::DoubleQuoted(s) => Ok(Ident { value: s, quote: Some('"') }),
            other => Err(self.expected_error("identifier", &other)),
        }
    }

    /// Parse a literal string: an unquoted non-keyword word, or a quoted
    /// string. The token is consumed even when it does not fit.
    pub fn parse_literal_string(&mut self) -> (r: Result<String, ParseError>)
        requires
            old(self).wf(),
        ensures
            final(self).wf(),
            old(self).same_stream(final(self)),
            old(self).pos <= final(self).pos,
            ({
                let sp = spec_parse_literal_string(old(self).views(), old(self).pos as int);
                match r {
                    Ok(s) => sp matches Parsed::Done { v, end } && s@ == v && final(self).pos == end,
                    Err(e) => sp matches Parsed::Fail { msg, tok_err: false, end } && final(self).pos == end && (e matches ParseError::ParseError(m) && m@ == msg),
                }
            }),
    {
        let t = self.next_token();
        match t {
            Lexeme::Word { value, quote, kw: false } => Ok(value),
            Lexeme::SingleQuoted(s) => Ok(s),
            Lexeme::DoubleQuoted(s) => Ok(s),
            other => Err(self.expected_error("literal string", &other)),
        }
    }

    /// Parse a dotted object name: identifiers separated by periods.
    #[verifier::loop_isolation(false)]
    pub fn parse_object_name(&mut self) -> (r: Result<Vec<Ident>, ParseError>)
        requires
            old(self).wf(),
        ensures
            final(self).wf(),
            old(self).same_stream(final(self)),
            old(self).pos <= final(self).pos,
            ({
                let sp = spec_parse_object_name(old(self).views(), old(self).pos as int);
                match r {
                    Ok(ids) => sp matches Parsed::Done { v, end } && ids.deep_view() == v && final(self).pos == end,
                    Err(e) => sp matches Parsed::Fail { msg, tok_err: false, end } && final(self).pos == end && (e matches ParseError::ParseError(m) && m@ == msg),
                }
            }),
    {
        let ghost toks = self.views();
        let ghost p0 = self.pos as int;
        let mut parts: Vec<Ident> = Vec::new();
        proof {
            assert(parts.deep_view() =~= Seq::<IdentV>::empty());
        }
        loop
            invariant
                self.wf(),
                old(self).same_stream(self),
                toks == self.views(),
                0 <= p0 <= self.pos <= toks.len(),
                spec_parse_object_name(toks, p0) == spec_prepend(
                    parts.deep_view(),
                    spec_parse_object_name(toks, self.pos as int),
                ),
            decreases toks.len() - self.pos,
        {
            let ghost p_before = self.pos as int;
            let ghost pre = parts.deep_view();
            match self.parse_identifier() {
                Err(e) => {
                    return Err(e);
                },
                Ok(id) => {
                    let ghost idv = id@;
                    parts.push(id);
                    proof {
                        assert(parts.deep_view() =~= pre.push(idv));
                    }
                    if !self.consume_period() {
                        proof {
                            assert(spec_parse_object_name(toks, p_before) matches Parsed::Done {
                                v,
                                end,
                            } && v == seq![idv] && end == self.pos as int);
                            assert(pre + seq![idv] =~= parts.deep_view());
                        }
                        return Ok(parts);
                    }
                    proof {
                        lemma_advance(toks, p_before);
                        lemma_advance(toks, spec_advance(toks, p_before));
                        assert(spec_parse_object_name(toks, p_before) == spec_prepend(
                            seq![idv],
                            spec_parse_object_name(toks, self.pos as int),
                        ));
                        let q = spec_parse_object_name(toks, self.pos as int);
                        match q {
                            Parsed::Done { v, end } => {
                                assert(pre + (seq![idv] + v) =~= pre.push(idv) + v);
                            },
                            Parsed::Fail { .. } => {
                            },
                        }
                        assert(spec_prepend(pre, spec_prepend(seq![idv], q)) == spec_prepend(
                            pre.push(idv),
                            q,
                        ));
                    }
                },
            }
        }
    }
}


/// Parsing the file format after `STORED AS`: any word, normalized to ASCII
/// uppercase. The token is consumed either way.
pub open spec fn spec_parse_file_format(toks: Seq<LexemeV>, pos: int) -> Parsed<Seq<char>> {
    let t = spec_peek(toks, pos);
    let end = spec_advance(toks, pos);
    match t {
        LexemeV::Word { value, .. } => Parsed::Done { v: upper_seq(value), end },
        _ => Parsed::Fail {
            msg: spec_expected_msg("one of PARQUET, NDJSON, or CSV"@, t),
            tok_err: false,
            end,
        },
    }
}

/// Parsing the compression tag after `COMPRESSION TYPE`: a word naming one
/// of the enumerated compression types. The token is consumed either way.
pub open spec fn spec_parse_compression(toks: Seq<LexemeV>, pos: int) -> Parsed<
    CompressionTypeVariant,
> {
    let t = spec_peek(toks, pos);
    let end = spec_advance(toks, pos);
    match t {
        LexemeV::Word { value, .. } => match spec_compression_of(value) {
            Some(c) => Parsed::Done { v: c, end },
            None => Parsed::Fail {
                msg: spec_unsupported_compression_message(value),
                tok_err: false,
                end,
            },
        },
        _ => Parsed::Fail {
            msg: spec_expected_msg("one of GZIP, BZIP2, XZ"@, t),
            tok_err: false,
            end,
        },
    }
}

/// Parsing the delimiter literal after `DELIMITER`: a literal string of
/// exactly one character.
pub open spec fn spec_parse_delimiter(toks: Seq<LexemeV>, pos: int) -> Parsed<char> {
    match spec_parse_literal_string(toks, pos) {
        Parsed::Fail { msg, tok_err, end } => Parsed::Fail { msg, tok_err, end },
        Parsed::Done { v, end } => {
            if v.len() == 1 {
                Parsed::Done { v: v[0], end }
            } else {
                Parsed::Fail { msg: "Delimiter must be a single char"@, tok_err: true, end }
            }
        },
    }
}

/// Parsing the items of a `PARTITIONED BY` list, after its `(`: bare
/// identifiers separated by commas, a trailing comma tolerated, closed by
/// `)`. A typed column is rejected at its type word.
pub open spec fn spec_partitions_items(toks: Seq<LexemeV>, pos: int) -> Parsed<Seq<Seq<char>>>
    decreases toks.len() - pos,
    when 0 <= pos <= toks.len()
    via spec_partitions_items_dec
{
    let t = spec_peek(toks, pos);
    if !(t is Word) {
        Parsed::Fail { msg: spec_expected_msg("partition name"@, t), tok_err: false, end: pos }
    } else {
        match spec_parse_identifier(toks, pos) {
            Parsed::Fail { msg, tok_err, end } => Parsed::Fail { msg, tok_err, end },
            Parsed::Done { v, end } => {
                let shown = crate::ast::spec_display_ident(v);
                let comma = spec_peek(toks, end) is Comma;
                let p2 = if comma {
                    spec_advance(toks, end)
                } else {
                    end
                };
                if spec_peek(toks, p2) is RParen {
                    Parsed::Done { v: seq![shown], end: spec_advance(toks, p2) }
                } else if !comma {
                    Parsed::Fail {
                        msg: spec_expected_msg(
                            "',' or ')' after partition definition"@,
                            spec_peek(toks, p2),
                        ),
                        tok_err: false,
                        end: p2,
                    }
                } else {
                    spec_prepend(seq![shown], spec_partitions_items(toks, p2))
                }
            },
        }
    }
}

#[via_fn]
proof fn spec_partitions_items_dec(toks: Seq<LexemeV>, pos: int) {
    lemma_advance(toks, pos);
    lemma_advance(toks, spec_advance(toks, pos));
}

/// Parsing a `PARTITIONED BY` list: absent or empty parentheses yield no
/// partition columns.
pub open spec fn spec_parse_partitions(toks: Seq<LexemeV>, pos: int) -> Parsed<Seq<Seq<char>>> {
    if !(spec_peek(toks, pos) is LParen) {
        Parsed::Done { v: Seq::empty(), end: pos }
    } else {
        let p1 = spec_advance(toks, pos);
        if spec_peek(toks, p1) is RParen {
            Parsed::Done { v: Seq::empty(), end: spec_advance(toks, p1) }
        } else {
            spec_partitions_items(toks, p1)
        }
    }
}

/// Parsing the items of an `OPTIONS` list, after its `(`: literal-string
/// key/value pairs separated by commas, a trailing comma tolerated, closed
/// by `)`.
pub open spec fn spec_options_items(toks: Seq<LexemeV>, pos: int) -> Parsed<
    Seq<(Seq<char>, Seq<char>)>,
>
    decreases toks.len() - pos,
    when 0 <= pos <= toks.len()
    via spec_options_items_dec
{
    match spec_parse_literal_string(toks, pos) {
        Parsed::Fail { msg, tok_err, end } => Parsed::Fail { msg, tok_err, end },
        Parsed::Done { v: key, end: p1 } => match spec_parse_literal_string(toks, p1) {
            Parsed::Fail { msg, tok_err, end } => Parsed::Fail { msg, tok_err, end },
            Parsed::Done { v: value, end: p2 } => {
                let comma = spec_peek(toks, p2) is Comma;
                let p3 = if comma {
                    spec_advance(toks, p2)
                } else {
                    p2
                };
                if spec_peek(toks, p3) is RParen {
                    Parsed::Done { v: seq![(key, value)], end: spec_advance(toks, p3) }
                } else if !comma {
                    Parsed::Fail {
                        msg: spec_expected_msg(
                            "',' or ')' after option definition"@,
                            spec_peek(toks, p3),
                        ),
                        tok_err: false,
                        end: p3,
                    }
                } else {
                    spec_prepend(seq![(key, value)], spec_options_items(toks, p3))
                }
            },
        },
    }
}

#[via_fn]
proof fn spec_options_items_dec(toks: Seq<LexemeV>, pos: int) {
    lemma_advance(toks, pos);
    let p1 = spec_advance(toks, pos);
    lemma_advance(toks, p1);
    let p2 = spec_advance(toks, p1);
    lemma_advance(toks, p2);
    let p3 = spec_advance(toks, p2);
    lemma_advance(toks, p3);
}

/// Parsing an `OPTIONS` list: the opening `(` is required.
pub open spec fn spec_parse_options(toks: Seq<LexemeV>, pos: int) -> Parsed<
    Seq<(Seq<char>, Seq<char>)>,
> {
    if !(spec_peek(toks, pos) is LParen) {
        Parsed::Fail {
            msg: spec_expected_msg("("@, spec_peek(toks, pos)),
            tok_err: false,
            end: pos,
        }
    } else {
        spec_options_items(toks, spec_advance(toks, pos))
    }
}

impl DFParser {
    /// Parse the file format word after `STORED AS`, normalized to ASCII
    /// uppercase.
    pub fn parse_file_format(&mut self) -> (r: Result<String, ParseError>)
        requires
            old(self).wf(),
        ensures
            final(self).wf(),
            old(self).same_stream(final(self)),
            old(self).pos <= final(self).pos,
            ({
                let sp = spec_parse_file_format(old(self).views(), old(self).pos as int);
                match r {
                    Ok(s) => sp matches Parsed::Done { v, end } && s@ == v && final(self).pos == end,
                    Err(e) => sp matches Parsed::Fail { msg, tok_err: false, end } && final(self).pos == end
                        && (e matches ParseError::ParseError(m) && m@ == msg),
                }
            }),
    {
        let t = self.next_token();
        match t {
            Lexeme::Word { value, .. } => Ok(crate::strutil::to_upper_ascii(value.as_str())),
            other => Err(self.expected_error("one of PARQUET, NDJSON, or CSV", &other)),
        }
    }

    /// Parse the compression tag after `COMPRESSION TYPE`.
    pub fn parse_file_compression_type(&mut self) -> (r: Result<CompressionTypeVariant, ParseError>)
        requires
            old(self).wf(),
        ensures
            final(self).wf(),
            old(self).same_stream(final(self)),
            old(self).pos <= final(self).pos,
            ({
                let sp = spec_parse_compression(old(self).views(), old(self).pos as int);
                match r {
                    Ok(c) => sp matches Parsed::Done { v, end } && c == v && final(self).pos == end,
                    Err(e) => sp matches Parsed::Fail { msg, tok_err: false, end } && final(self).pos == end
                        && (e matches ParseError::ParseError(m) && m@ == msg),
                }
            }),
    {
        let t = self.next_token();
        match t {
            Lexeme::Word { value, .. } => crate::compression::parse_compression_tag(
                value.as_str(),
            ),
            other => Err(self.expected_error("one of GZIP, BZIP2, XZ", &other)),
        }
    }

    /// Parse the delimiter literal after `DELIMITER`: exactly one character.
    pub fn parse_delimiter(&mut self) -> (r: Result<char, ParseError>)
        requires
            old(self).wf(),
        ensures
            final(self).wf(),
            old(self).same_stream(final(self)),
            old(self).pos <= final(self).pos,
            ({
                let sp = spec_parse_delimiter(old(self).views(), old(self).pos as int);
                match r {
                    Ok(c) => sp matches Parsed::Done { v, end } && c == v && final(self).pos == end,
                    Err(e) => sp matches Parsed::Fail { msg, tok_err, end } && final(self).pos == end
                        && (tok_err ==> (e matches ParseError::TokenizerError(m) && m@ == msg))
                        && (!tok_err ==> (e matches ParseError::ParseError(m) && m@ == msg)),
                }
            }),
    {
        match self.parse_literal_string() {
            Err(e) => Err(e),
            Ok(s) => {
                if s.as_str().unicode_len() == 1 {
                    Ok(s.as_str().get_char(0))
                } else {
                    Err(
                        ParseError::TokenizerError(
                            String::from_str("Delimiter must be a single char"),
                        ),
                    )
                }
            },
        }
    }

    /// Parse a `PARTITIONED BY` column list: bare identifiers between
    /// parentheses; absent or empty parentheses yield no columns.
    #[verifier::loop_isolation(false)]
    pub fn parse_partitions(&mut self) -> (r: Result<Vec<String>, ParseError>)
        requires
            old(self).wf(),
        ensures
            final(self).wf(),
            old(self).same_stream(final(self)),
            old(self).pos <= final(self).pos,
            ({
                let sp = spec_parse_partitions(old(self).views(), old(self).pos as int);
                match r {
                    Ok(cols) => sp matches Parsed::Done { v, end } && cols.deep_view() == v
                        && final(self).pos == end,
                    Err(e) => sp matches Parsed::Fail { msg, tok_err: false, end } && final(self).pos == end
                        && (e matches ParseError::ParseError(m) && m@ == msg),
                }
            }),
    {
        let ghost toks = self.views();
        let mut cols: Vec<String> = Vec::new();
        proof {
            assert(cols.deep_view() =~= Seq::<Seq<char>>::empty());
        }
        if !self.consume_lparen() {
            return Ok(cols);
        }
        if self.consume_rparen() {
            return Ok(cols);
        }
        let ghost p_items = self.pos as int;
        loop
            invariant
                self.wf(),
                old(self).same_stream(self),
                toks == self.views(),
                0 <= self.pos <= toks.len(),
                old(self).pos <= self.pos,
                spec_parse_partitions(toks, old(self).pos as int) == spec_prepend(
                    cols.deep_view(),
                    spec_partitions_items(toks, self.pos as int),
                ),
            decreases toks.len() - self.pos,
        {
            let ghost p_before = self.pos as int;
            let ghost pre = cols.deep_view();
            let t = self.peek();
            if !crate::cursor::is_word(&t) {
                return Err(self.expected_error("partition name", &t));
            }
            match self.parse_identifier() {
                Err(e) => {
                    return Err(e);
                },
                Ok(id) => {
                    let shown = id.to_display_string();
                    let ghost shownv = shown@;
                    cols.push(shown);
                    proof {
                        assert(cols.deep_view() =~= pre.push(shownv));
                    }
                    let comma = self.consume_comma();
                    if self.consume_rparen() {
                        proof {
                            assert(pre + seq![shownv] =~= cols.deep_view());
                        }
                        return Ok(cols);
                    }
                    if !comma {
                        let u = self.peek();
                        return Err(
                            self.expected_error("',' or ')' after partition definition", &u),
                        );
                    }
                    proof {
                        lemma_advance(toks, p_before);
                        lemma_advance(toks, spec_advance(toks, p_before));
                        let q = spec_partitions_items(toks, self.pos as int);
                        match q {
                            Parsed::Done { v, end } => {
                                assert(pre + (seq![shownv] + v) =~= pre.push(shownv) + v);
                            },
                            Parsed::Fail { .. } => {
                            },
                        }
                        assert(spec_prepend(pre, spec_prepend(seq![shownv], q)) == spec_prepend(
                            pre.push(shownv),
                            q,
                        ));
                    }
                },
            }
        }
    }

    /// Parse an `OPTIONS` list: literal-string key/value pairs between
    /// parentheses, in written order.
    #[verifier::loop_isolation(false)]
    pub fn parse_options(&mut self) -> (r: Result<Vec<(String, String)>, ParseError>)
        requires
            old(self).wf(),
        ensures
            final(self).wf(),
            old(self).same_stream(final(self)),
            old(self).pos <= final(self).pos,
            ({
                let sp = spec_parse_options(old(self).views(), old(self).pos as int);
                match r {
                    Ok(opts) => sp matches Parsed::Done { v, end } && opts.deep_view() == v
                        && final(self).pos == end,
                    Err(e) => sp matches Parsed::Fail { msg, tok_err: false, end } && final(self).pos == end
                        && (e matches ParseError::ParseError(m) && m@ == msg),
                }
            }),
    {
        let ghost toks = self.views();
        let mut opts: Vec<(String, String)> = Vec::new();
        proof {
            assert(opts.deep_view() =~= Seq::<(Seq<char>, Seq<char>)>::empty());
        }
        if !self.consume_lparen() {
            let t = self.peek();
            return Err(self.expected_error("(", &t));
        }
        loop
            invariant
                self.wf(),
                old(self).same_stream(self),
                toks == self.views(),
                0 <= self.pos <= toks.len(),
                old(self).pos <= self.pos,
                spec_parse_options(toks, old(self).pos as int) == spec_prepend(
                    opts.deep_view(),
                    spec_options_items(toks, self.pos as int),
                ),
            decreases toks.len() - self.pos,
        {
            let ghost p_before = self.pos as int;
            let ghost pre = opts.deep_view();
            let key = match self.parse_literal_string() {
                Err(e) => {
                    return Err(e);
                },
                Ok(k) => k,
            };
            let value = match self.parse_literal_string() {
                Err(e) => {
                    return Err(e);
                },
                Ok(v) => v,
            };
            let ghost kv = (key@, value@);
            opts.push((key, value));
            proof {
                assert(opts.deep_view() =~= pre.push(kv));
            }
            let comma = self.consume_comma();
            if self.consume_rparen() {
                proof {
                    assert(pre + seq![kv] =~= opts.deep_view());
                }
                return Ok(opts);
            }
            if !comma {
                let u = self.peek();
                return Err(self.expected_error("',' or ')' after option definition", &u));
            }
            proof {
                lemma_advance(toks, p_before);
                let p1 = spec_advance(toks, p_before);
                lemma_advance(toks, p1);
                let p2 = spec_advance(toks, p1);
                lemma_advance(toks, p2);
                let p3 = spec_advance(toks, p2);
                lemma_advance(toks, p3);
                let q = spec_options_items(toks, self.pos as int);
                match q {
                    Parsed::Done { v, end } => {
                        assert(pre + (seq![kv] + v) =~= pre.push(kv) + v);
                    },
                    Parsed::Fail { .. } => {
                    },
                }
                assert(spec_prepend(pre, spec_prepend(seq![kv], q)) == spec_prepend(
                    pre.push(kv),
                    q,
                ));
            }
        }
    }
}



impl DFParser {
    /// Parse one column definition, exactly as `spec_step_column_def`
    /// describes it: name, data type, optional `COLLATE`, and the column
    /// options that follow. The data type and each option are read by the
    /// generic grammar; an error of theirs is forwarded verbatim.
    #[verifier::loop_isolation(false)]
    pub fn parse_column_def(&mut self) -> (r: Result<crate::ast::ColumnDef, ParseError>)
        requires
            old(self).wf(),
        ensures
            final(self).wf(),
            old(self).same_stream(final(self)),
            old(self).pos <= final(self).pos,
            r is Ok ==> old(self).pos < final(self).pos,
            ({
                let ms = spec_step_column_def(
                    old(self).views(),
                    old(self).sql_tokens@,
                    old(self).pos as int,
                );
                match r {
                    Ok(cd) => ms matches Step::Done { v, end } && cd.name@ == v && final(self).pos
                        == end,
                    Err(e) => ms matches Step::Fail { msg, tok_err } && (msg matches Some(m) ==> ((
                    tok_err ==> (e matches ParseError::TokenizerError(em) && em@ == m)) && (
                    !tok_err ==> (e matches ParseError::ParseError(em) && em@ == m)))),
                }
            }),
    {
        let ghost toks = self.views();
        let ghost sqlt = self.sql_tokens@;
        let ghost p0 = self.pos as int;
        let name = match self.parse_identifier() {
            Err(e) => {
                return Err(e);
            },
            Ok(i) => i,
        };
        proof {
            lemma_advance(toks, p0);
        }
        let (data_type, consumed) = match crate::sqlbridge::delegate_data_type(
            &self.sql_tokens,
            self.pos,
        ) {
            Err(e) => {
                return Err(e);
            },
            Ok(p) => p,
        };
        self.advance_by(consumed);
        let collation = if self.parse_keyword("COLLATE") {
            match self.parse_object_name() {
                Err(e) => {
                    return Err(e);
                },
                Ok(parts) => Some(crate::ast::ObjectName(parts)),
            }
        } else {
            None
        };
        let ghost p_loop = self.pos as int;
        let ghost mut fuel_cur: nat = spec_fuel(toks.len() as int, p_loop);
        let mut options: Vec<crate::ast::ColumnOptionDef> = Vec::new();
        loop
            invariant
                self.wf(),
                old(self).same_stream(self),
                toks == self.views(),
                sqlt == self.sql_tokens@,
                p0 < self.pos <= toks.len(),
                spec_step_colopts(toks, sqlt, p_loop) == spec_step_colopts_fueled(
                    toks,
                    sqlt,
                    self.pos as int,
                    fuel_cur,
                ),
                fuel_cur >= 1 + toks.len() - self.pos,
            decreases toks.len() - self.pos,
        {
            let ghost p_iter = self.pos as int;
            if self.parse_keyword("CONSTRAINT") {
                proof {
                    lemma_advance(toks, p_iter);
                }
                let cname = match self.parse_identifier() {
                    Err(e) => {
                        return Err(e);
                    },
                    Ok(i) => i,
                };
                let (opt, consumed2) = match crate::sqlbridge::delegate_column_option(
                    &self.sql_tokens,
                    self.pos,
                ) {
                    Err(e) => {
                        return Err(e);
                    },
                    Ok(p) => p,
                };
                self.advance_by(consumed2);
                match opt {
                    Some(option) => {
                        options.push(crate::ast::ColumnOptionDef { name: Some(cname), option });
                        proof {
                            fuel_cur = (fuel_cur - 1) as nat;
                        }
                    },
                    None => {
                        let t = self.peek();
                        return Err(
                            self.expected_error("constraint details after CONSTRAINT <name>", &t),
                        );
                    },
                }
            } else {
                let (opt, consumed2) = match crate::sqlbridge::delegate_column_option(
                    &self.sql_tokens,
                    self.pos,
                ) {
                    Err(e) => {
                        return Err(e);
                    },
                    Ok(p) => p,
                };
                self.advance_by(consumed2);
                match opt {
                    Some(option) => {
                        options.push(crate::ast::ColumnOptionDef { name: None, option });
                        proof {
                            fuel_cur = (fuel_cur - 1) as nat;
                        }
                    },
                    None => {
                        return Ok(crate::ast::ColumnDef { name, data_type, collation, options });
                    },
                }
            }
        }
    }

    /// Parse a parenthesized list of column definitions and table
    /// constraints, comma-separated, a trailing comma tolerated, exactly as
    /// `spec_step_columns` describes it. Absent or empty parentheses yield
    /// nothing; the parsed columns carry the names that spec-level list
    /// holds, in order.
    #[verifier::loop_isolation(false)]
    pub fn parse_columns(&mut self) -> (r: Result<
        (Vec<crate::ast::ColumnDef>, Vec<sqlparser::ast::TableConstraint>),
        ParseError,
    >)
        requires
            old(self).wf(),
        ensures
            final(self).wf(),
            old(self).same_stream(final(self)),
            old(self).pos <= final(self).pos,
            ({
                let ms = spec_step_columns(
                    old(self).views(),
                    old(self).sql_tokens@,
                    old(self).pos as int,
                );
                match r {
                    Ok(p) => ms matches Step::Done { v, end } && p.0@.map_values(
                        |cd: crate::ast::ColumnDef| cd.name@,
                    ) == v && final(self).pos == end,
                    Err(e) => ms matches Step::Fail { msg, tok_err } && (msg matches Some(m) ==> ((
                    tok_err ==> (e matches ParseError::TokenizerError(em) && em@ == m)) && (
                    !tok_err ==> (e matches ParseError::ParseError(em) && em@ == m)))),
                }
            }),
    {
        let ghost toks = self.views();
        let ghost sqlt = self.sql_tokens@;
        let ghost p0 = self.pos as int;
        let mut columns: Vec<crate::ast::ColumnDef> = Vec::new();
        let mut constraints: Vec<sqlparser::ast::TableConstraint> = Vec::new();
        proof {
            assert(columns@.map_values(|cd: crate::ast::ColumnDef| cd.name@) =~= Seq::<
                IdentV,
            >::empty());
        }
        if !self.consume_lparen() {
            return Ok((columns, constraints));
        }
        if self.consume_rparen() {
            return Ok((columns, constraints));
        }
        let ghost p_items = self.pos as int;
        let ghost mut fuel_cur: nat = spec_fuel(toks.len() as int, p_items);
        loop
            invariant
                self.wf(),
                old(self).same_stream(self),
                toks == self.views(),
                sqlt == self.sql_tokens@,
                0 <= p_items <= self.pos <= toks.len(),
                old(self).pos <= self.pos,
                spec_step_columns(toks, sqlt, p0) == step_prepend(
                    columns@.map_values(|cd: crate::ast::ColumnDef| cd.name@),
                    spec_step_columns_items_fueled(toks, sqlt, self.pos as int, fuel_cur),
                ),
                fuel_cur >= 1 + toks.len() - self.pos,
            decreases toks.len() - self.pos,
        {
            let ghost p_iter = self.pos as int;
            let ghost pre = columns@.map_values(|cd: crate::ast::ColumnDef| cd.name@);
            let ghost mut added: Seq<IdentV> = Seq::empty();
            let (constraint, consumed) = match crate::sqlbridge::delegate_table_constraint(
                &self.sql_tokens,
                self.pos,
            ) {
                Err(e) => {
                    return Err(e);
                },
                Ok(p) => p,
            };
            self.advance_by(consumed);
            match constraint {
                Some(c) => {
                    constraints.push(c);
                },
                None => {
                    let t = self.peek();
                    if crate::cursor::is_word(&t) {
                        proof {
                            lemma_advance(toks, p_iter);
                        }
                        match self.parse_column_def() {
                            Err(e) => {
                                return Err(e);
                            },
                            Ok(cd) => {
                                proof {
                                    added = seq![cd.name@];
                                }
                                columns.push(cd);
                            },
                        }
                    } else {
                        return Err(
                            self.expected_error("column name or constraint definition", &t),
                        );
                    }
                },
            }
            let ghost mid = columns@.map_values(|cd: crate::ast::ColumnDef| cd.name@);
            proof {
                assert(pre + added =~= mid);
            }
            let comma = self.consume_comma();
            if self.consume_rparen() {
                proof {
                    assert(spec_step_columns_items_fueled(toks, sqlt, p_iter, fuel_cur)
                        == Step::<Seq<IdentV>>::Done { v: added, end: self.pos as int });
                    assert(pre + added =~= mid);
                }
                return Ok((columns, constraints));
            }
            if !comma {
                let u = self.peek();
                return Err(self.expected_error("',' or ')' after column definition", &u));
            }
            proof {
                let q = spec_step_columns_items_fueled(
                    toks,
                    sqlt,
                    self.pos as int,
                    (fuel_cur - 1) as nat,
                );
                lemma_step_prepend_empty(q);
                lemma_step_prepend_assoc(pre, added, q);
                assert(spec_step_columns_items_fueled(toks, sqlt, p_iter, fuel_cur)
                    == step_prepend(added, q));
                fuel_cur = (fuel_cur - 1) as nat;
            }
        }
    }
}

/// One resolved statement, or a `USE` request for the caller to resolve
/// against the filesystem and the session.
#[derive(Debug)]
pub enum ParsedItem {
    /// A parsed statement with its location record.
    Statement(DfStatement, StatementMeta),
    /// A `USE catalog.schema.table` read under an active catalog: the caller
    /// resolves it to a file and parses that file.
    Use { catalog: String, schema: String, table: String },
}

/// The identifier path read by a `USE` statement: up to three dot-separated
/// parts; a missing part reads as empty. The first token is consumed even
/// when it is not a word.
pub struct UseScopeV {
    pub catalog: Seq<char>,
    pub schema: Seq<char>,
    pub table: Seq<char>,
}

/// Parsing the identifier path of a `USE`: a word, then optionally
/// `.schema` and `.table`; a part that fails to parse reads as empty, its
/// token consumed, as the original grammar reads it.
pub open spec fn spec_parse_use_scope(toks: Seq<LexemeV>, pos: int) -> Parsed<UseScopeV> {
    let t = spec_peek(toks, pos);
    match t {
        LexemeV::Word { value, .. } => {
            let p1 = spec_advance(toks, pos);
            let p2 = if spec_peek(toks, p1) is Period {
                spec_advance(toks, p1)
            } else {
                p1
            };
            let (schema, p3): (Seq<char>, int) = match spec_parse_identifier(toks, p2) {
                Parsed::Done { v, end } => (v.value, end),
                Parsed::Fail { end, .. } => (Seq::empty(), end),
            };
            let p4 = if spec_peek(toks, p3) is Period {
                spec_advance(toks, p3)
            } else {
                p3
            };
            let (table, p5): (Seq<char>, int) = match spec_parse_identifier(toks, p4) {
                Parsed::Done { v, end } => (v.value, end),
                Parsed::Fail { end, .. } => (Seq::empty(), end),
            };
            Parsed::Done { v: UseScopeV { catalog: value, schema, table }, end: p5 }
        },
        _ => Parsed::Fail {
            msg: spec_expected_msg("Object identifier"@, t),
            tok_err: false,
            end: spec_advance(toks, pos),
        },
    }
}

impl DFParser {
    /// Read the identifier path of a `USE` statement (the `USE` keyword
    /// already consumed). Outside a catalog context the statement is
    /// skipped: it yields no items. Inside one, it yields a `Use` request
    /// for the caller to resolve.
    pub fn parse_use_stmt(&mut self) -> (r: Result<Vec<ParsedItem>, ParseError>)
        requires
            old(self).wf(),
        ensures
            final(self).wf(),
            old(self).same_stream(final(self)),
            old(self).pos <= final(self).pos,
            ({
                let sp = spec_parse_use_scope(old(self).views(), old(self).pos as int);
                match r {
                    Ok(items) => sp matches Parsed::Done { v, end } && final(self).pos == end && (
                    if old(self).catalog@.len() == 0 {
                        items@.len() == 0
                    } else {
                        items@.len() == 1 && (items@[0] matches ParsedItem::Use {
                            catalog: c,
                            schema: s,
                            table: t,
                        } && c@ == v.catalog && s@ == v.schema && t@ == v.table)
                    }),
                    Err(e) => sp matches Parsed::Fail { msg, tok_err: false, end } && final(self).pos == end && (e matches ParseError::ParseError(m) && m@ == msg),
                }
            }),
    {
        let next = self.next_token();
        match next {
            Lexeme::Word { value, .. } => {
                let catalog = value;
                let _ = self.consume_period();
                let schema = match self.parse_identifier() {
                    Ok(id) => id.value,
                    Err(_) => String::new(),
                };
                let _ = self.consume_period();
                let table = match self.parse_identifier() {
                    Ok(id) => id.value,
                    Err(_) => String::new(),
                };
                if self.catalog.as_str().unicode_len() == 0 {
                    Ok(Vec::new())
                } else {
                    let mut items: Vec<ParsedItem> = Vec::new();
                    items.push(ParsedItem::Use { catalog, schema, table });
                    Ok(items)
                }
            },
            other => Err(self.expected_error("Object identifier", &other)),
        }
    }

    /// Parse the target of a `DESCRIBE` statement: an object name, resolved
    /// against the default catalog and schema for the location record,
    /// exactly as `spec_step_describe` describes it.
    pub fn parse_describe(&mut self) -> (r: Result<(DfStatement, StatementMeta), ParseError>)
        requires
            old(self).wf(),
        ensures
            final(self).wf(),
            old(self).same_stream(final(self)),
            old(self).pos <= final(self).pos,
            ({
                let ms = spec_step_describe(
                    old(self).views(),
                    old(self).pos as int,
                    old(self).filename@,
                );
                match r {
                    Ok(p) => ms matches Step::Done { v, end } && stmt_view(p.0) == v.0 && p.1@
                        == v.1 && final(self).pos == end && p.0 is DescribeTable,
                    Err(e) => ms matches Step::Fail { msg: Some(m), tok_err } && ((tok_err ==> (
                    e matches ParseError::TokenizerError(em) && em@ == m)) && (!tok_err ==> (
                    e matches ParseError::ParseError(em) && em@ == m))),
                }
            }),
    {
        let parts = match self.parse_object_name() {
            Err(e) => {
                return Err(e);
            },
            Ok(p) => p,
        };
        let name = crate::ast::ObjectName(parts);
        let shown = name.to_display_string();
        let meta = match crate::ast::meta_for_table_string(shown.as_str(), self.filename.as_str()) {
            Err(e) => {
                return Err(e);
            },
            Ok(m) => m,
        };
        Ok((DfStatement::DescribeTable(crate::ast::DescribeTable { table_name: name }), meta))
    }
}



/// The position after the keyword `kw`, when it is next.
pub open spec fn spec_kw1(toks: Seq<LexemeV>, pos: int, kw: Seq<char>) -> Option<int> {
    if spec_is_kw(spec_peek(toks, pos), kw) {
        Some(spec_advance(toks, pos))
    } else {
        None
    }
}

/// The position after the keywords `a b`, when both are next.
pub open spec fn spec_kw2(toks: Seq<LexemeV>, pos: int, a: Seq<char>, b: Seq<char>) -> Option<
    int,
> {
    match spec_kw1(toks, pos, a) {
        Some(p) => spec_kw1(toks, p, b),
        None => None,
    }
}

/// The position after the keywords `a b c`, when all three are next.
pub open spec fn spec_kw3(
    toks: Seq<LexemeV>,
    pos: int,
    a: Seq<char>,
    b: Seq<char>,
    c: Seq<char>,
) -> Option<int> {
    match spec_kw2(toks, pos, a, b) {
        Some(p) => spec_kw1(toks, p, c),
        None => None,
    }
}

/// The clause values of a `CREATE EXTERNAL TABLE`, from `STORED AS` on.
pub struct CetTailV {
    /// Format tag, normalized to ASCII uppercase.
    pub file_type: Seq<char>,
    /// Whether `WITH HEADER ROW` was written.
    pub has_header: bool,
    /// The declared delimiter; `,` when none was written.
    pub delimiter: char,
    /// The declared compression; UNCOMPRESSED when none was written.
    pub compression: CompressionTypeVariant,
    /// The `PARTITIONED BY` columns; empty when none were written.
    pub partitions: Seq<Seq<char>>,
    /// The `OPTIONS` pairs; empty when none were written.
    pub options: Seq<(Seq<char>, Seq<char>)>,
    /// The `LOCATION` literal.
    pub location: Seq<char>,
}

/// The `LOCATION` clause, closing the statement.
pub open spec fn spec_cet_from_location(
    toks: Seq<LexemeV>,
    pos: int,
    ft: Seq<char>,
    hh: bool,
    d: char,
    c: CompressionTypeVariant,
    parts: Seq<Seq<char>>,
    opts: Seq<(Seq<char>, Seq<char>)>,
) -> Parsed<CetTailV> {
    match spec_kw1(toks, pos, "LOCATION"@) {
        None => Parsed::Fail {
            msg: spec_expected_msg("LOCATION"@, spec_peek(toks, pos)),
            tok_err: false,
            end: pos,
        },
        Some(p) => match spec_parse_literal_string(toks, p) {
            Parsed::Fail { msg, tok_err, end } => Parsed::Fail { msg, tok_err, end },
            Parsed::Done { v: loc, end } => Parsed::Done {
                v: CetTailV {
                    file_type: ft,
                    has_header: hh,
                    delimiter: d,
                    compression: c,
                    partitions: parts,
                    options: opts,
                    location: loc,
                },
                end,
            },
        },
    }
}

/// The optional `OPTIONS` clause, then the rest.
pub open spec fn spec_cet_from_options(
    toks: Seq<LexemeV>,
    pos: int,
    ft: Seq<char>,
    hh: bool,
    d: char,
    c: CompressionTypeVariant,
    parts: Seq<Seq<char>>,
) -> Parsed<CetTailV> {
    match spec_kw1(toks, pos, "OPTIONS"@) {
        Some(p) => match spec_parse_options(toks, p) {
            Parsed::Fail { msg, tok_err, end } => Parsed::Fail { msg, tok_err, end },
            Parsed::Done { v: opts, end } => spec_cet_from_location(
                toks,
                end,
                ft,
                hh,
                d,
                c,
                parts,
                opts,
            ),
        },
        None => spec_cet_from_location(toks, pos, ft, hh, d, c, parts, Seq::empty()),
    }
}

/// The optional `PARTITIONED BY` clause, then the rest.
pub open spec fn spec_cet_from_partitions(
    toks: Seq<LexemeV>,
    pos: int,
    ft: Seq<char>,
    hh: bool,
    d: char,
    c: CompressionTypeVariant,
) -> Parsed<CetTailV> {
    match spec_kw2(toks, pos, "PARTITIONED"@, "BY"@) {
        Some(p) => match spec_parse_partitions(toks, p) {
            Parsed::Fail { msg, tok_err, end } => Parsed::Fail { msg, tok_err, end },
            Parsed::Done { v: parts, end } => spec_cet_from_options(toks, end, ft, hh, d, c, parts),
        },
        None => spec_cet_from_options(toks, pos, ft, hh, d, c, Seq::empty()),
    }
}

/// The optional `COMPRESSION TYPE` clause, then the rest.
pub open spec fn spec_cet_from_compression(
    toks: Seq<LexemeV>,
    pos: int,
    ft: Seq<char>,
    hh: bool,
    d: char,
) -> Parsed<CetTailV> {
    match spec_kw2(toks, pos, "COMPRESSION"@, "TYPE"@) {
        Some(p) => match spec_parse_compression(toks, p) {
            Parsed::Fail { msg, tok_err, end } => Parsed::Fail { msg, tok_err, end },
            Parsed::Done { v: c, end } => spec_cet_from_partitions(toks, end, ft, hh, d, c),
        },
        None => spec_cet_from_partitions(
            toks,
            pos,
            ft,
            hh,
            d,
            CompressionTypeVariant::UNCOMPRESSED,
        ),
    }
}

/// The optional `DELIMITER` clause, then the rest. An omitted delimiter is
/// the comma.
pub open spec fn spec_cet_from_delimiter(
    toks: Seq<LexemeV>,
    pos: int,
    ft: Seq<char>,
    hh: bool,
) -> Parsed<CetTailV> {
    match spec_kw1(toks, pos, "DELIMITER"@) {
        Some(p) => match spec_parse_delimiter(toks, p) {
            Parsed::Fail { msg, tok_err, end } => Parsed::Fail { msg, tok_err, end },
            Parsed::Done { v: d, end } => spec_cet_from_compression(toks, end, ft, hh, d),
        },
        None => spec_cet_from_compression(toks, pos, ft, hh, ','),
    }
}

/// The optional `WITH HEADER ROW` clause (compared without regard to letter
/// case, as every keyword is), then the rest. Omission reads as no header.
pub open spec fn spec_cet_from_header(toks: Seq<LexemeV>, pos: int, ft: Seq<char>) -> Parsed<
    CetTailV,
> {
    match spec_kw3(toks, pos, "WITH"@, "HEADER"@, "ROW"@) {
        Some(p) => spec_cet_from_delimiter(toks, p, ft, true),
        None => spec_cet_from_delimiter(toks, pos, ft, false),
    }
}

/// The clause sequence of a `CREATE EXTERNAL TABLE` from `STORED AS` on:
/// format, optional header flag, delimiter, compression, partition columns
/// and options, then the required `LOCATION`.
pub open spec fn spec_parse_cet_tail(toks: Seq<LexemeV>, pos: int) -> Parsed<CetTailV> {
    match spec_kw1(toks, pos, "STORED"@) {
        None => Parsed::Fail {
            msg: spec_expected_msg("STORED"@, spec_peek(toks, pos)),
            tok_err: false,
            end: pos,
        },
        Some(pa) => match spec_kw1(toks, pa, "AS"@) {
            None => Parsed::Fail {
                msg: spec_expected_msg("AS"@, spec_peek(toks, pa)),
                tok_err: false,
                end: pa,
            },
            Some(pb) => match spec_parse_file_format(toks, pb) {
                Parsed::Fail { msg, tok_err, end } => Parsed::Fail { msg, tok_err, end },
                Parsed::Done { v: ft, end } => spec_cet_from_header(toks, end, ft),
            },
        },
    }
}

impl DFParser {
    /// Parse the clause values of a `CREATE EXTERNAL TABLE` from `STORED AS`
    /// on, exactly as `spec_parse_cet_tail` describes them.
    #[verifier::rlimit(60)]
    pub fn parse_cet_tail(&mut self) -> (r: Result<
        (String, bool, char, CompressionTypeVariant, Vec<String>, Vec<(String, String)>, String),
        ParseError,
    >)
        requires
            old(self).wf(),
        ensures
            final(self).wf(),
            old(self).same_stream(final(self)),
            old(self).pos <= final(self).pos,
            ({
                let sp = spec_parse_cet_tail(old(self).views(), old(self).pos as int);
                match r {
                    Ok(t) => sp matches Parsed::Done { v, end } && final(self).pos == end && t.0@
                        == v.file_type && t.1 == v.has_header && t.2 == v.delimiter && t.3
                        == v.compression && t.4.deep_view() == v.partitions && t.5.deep_view()
                        == v.options && t.6@ == v.location,
                    Err(e) => sp matches Parsed::Fail { msg, tok_err, end } && final(self).pos
                        == end && (tok_err ==> (e matches ParseError::TokenizerError(m) && m@
                        == msg)) && (!tok_err ==> (e matches ParseError::ParseError(m) && m@
                        == msg)),
                }
            }),
    {
        if !self.parse_keyword("STORED") {
            let t = self.peek();
            return Err(self.expected_error("STORED", &t));
        }
        if !self.parse_keyword("AS") {
            let t = self.peek();
            return Err(self.expected_error("AS", &t));
        }
        let file_type = match self.parse_file_format() {
            Err(e) => {
                return Err(e);
            },
            Ok(f) => f,
        };
        let has_header = self.parse_keyword3("WITH", "HEADER", "ROW");
        let delimiter: char = if self.parse_keyword("DELIMITER") {
            match self.parse_delimiter() {
                Err(e) => {
                    return Err(e);
                },
                Ok(d) => d,
            }
        } else {
            ','
        };
        let compression = if self.parse_keyword2("COMPRESSION", "TYPE") {
            match self.parse_file_compression_type() {
                Err(e) => {
                    return Err(e);
                },
                Ok(c) => c,
            }
        } else {
            CompressionTypeVariant::UNCOMPRESSED
        };
        let partitions: Vec<String> = if self.parse_keyword2("PARTITIONED", "BY") {
            match self.parse_partitions() {
                Err(e) => {
                    return Err(e);
                },
                Ok(p) => p,
            }
        } else {
            let empty: Vec<String> = Vec::new();
            proof {
                assert(empty.deep_view() =~= Seq::<Seq<char>>::empty());
            }
            empty
        };
        let options: Vec<(String, String)> = if self.parse_keyword("OPTIONS") {
            match self.parse_options() {
                Err(e) => {
                    return Err(e);
                },
                Ok(o) => o,
            }
        } else {
            let empty: Vec<(String, String)> = Vec::new();
            proof {
                assert(empty.deep_view() =~= Seq::<(Seq<char>, Seq<char>)>::empty());
            }
            empty
        };
        if !self.parse_keyword("LOCATION") {
            let t = self.peek();
            return Err(self.expected_error("LOCATION", &t));
        }
        let location = match self.parse_literal_string() {
            Err(e) => {
                return Err(e);
            },
            Ok(l) => l,
        };
        Ok((file_type, has_header, delimiter, compression, partitions, options, location))
    }
}



impl DFParser {
    /// Parse a `CREATE EXTERNAL TABLE` statement (the `CREATE EXTERNAL`
    /// words already consumed): the table name, the column list, the clause
    /// values exactly as `spec_parse_cet_tail` describes them, and the
    /// statement's location record. On success the table's location is
    /// recorded in the session's registry under the fully qualified name.
    /// Checking the location against the filesystem is the caller's later
    /// step (`validate_location`), so a location that then fails its check
    /// has already been recorded here.
    pub fn parse_create_external_table(&mut self, session: &mut ResolutionSession) -> (r: Result<
        (DfStatement, StatementMeta),
        ParseError,
    >)
        requires
            old(self).wf(),
        ensures
            final(self).wf(),
            old(self).same_stream(final(self)),
            old(self).pos <= final(self).pos,
            final(session).visited_files.deep_view() == old(session).visited_files.deep_view(),
            final(session).visited_catalogs.deep_view() == old(
                session,
            ).visited_catalogs.deep_view(),
            final(session).visited_schemas.deep_view() == old(session).visited_schemas.deep_view(),
            r is Err ==> final(session).locations.deep_view() == old(
                session,
            ).locations.deep_view(),
            old(session).locations.deep_view().is_prefix_of(final(session).locations.deep_view()),
            ({
                let ms = spec_step_cet(
                    old(self).views(),
                    old(self).sql_tokens@,
                    old(self).pos as int,
                    old(self).filename@,
                );
                match r {
                    Ok(p) => ms matches Step::Done { v, end } && (p.0
                        matches DfStatement::CreateExternalTable(c) && cet_view(c) == v.0) && p.1@
                        == v.1 && final(self).pos == end && final(session).locations.deep_view() == old(session).locations.deep_view().push(
                        (
                            v.1.catalog + seq!['.'] + v.1.schema + seq!['.'] + v.1.table,
                            spec_normalized_location(v.0.location),
                        ),
                    ),
                    Err(e) => ms matches Step::Fail { msg, tok_err } && (msg matches Some(m) ==> ((
                    tok_err ==> (e matches ParseError::TokenizerError(em) && em@ == m)) && (
                    !tok_err ==> (e matches ParseError::ParseError(em) && em@ == m)))),
                }
            }),
    {
        if !self.parse_keyword("TABLE") {
            let t = self.peek();
            return Err(self.expected_error("TABLE", &t));
        }
        let if_not_exists = self.parse_keyword3("IF", "NOT", "EXISTS");
        let parts = match self.parse_object_name() {
            Err(e) => {
                return Err(e);
            },
            Ok(p) => p,
        };
        let name_obj = crate::ast::ObjectName(parts);
        let shown = name_obj.to_display_string();
        let (columns, _constraints) = match self.parse_columns() {
            Err(e) => {
                return Err(e);
            },
            Ok(p) => p,
        };
        let ghost p_mid = self.pos as int;
        let tail = match self.parse_cet_tail() {
            Err(e) => {
                return Err(e);
            },
            Ok(t) => t,
        };
        let (file_type, has_header, delimiter, compression, partitions, options, location) = tail;
        let name = crate::paths::qualify_name(
            self.catalog.as_str(),
            self.schema.as_str(),
            shown.as_str(),
        );
        let meta = match crate::ast::meta_for_table_string(name.as_str(), self.filename.as_str()) {
            Err(e) => {
                return Err(e);
            },
            Ok(m) => m,
        };
        let mut key = meta.catalog.clone();
        crate::strutil::push_char(&mut key, '.');
        key.append(meta.schema.as_str());
        crate::strutil::push_char(&mut key, '.');
        key.append(meta.table.as_str());
        proof {
            assert(key@ =~= meta.catalog@ + seq!['.'] + meta.schema@ + seq!['.'] + meta.table@);
        }
        crate::session::register_location(session, key.as_str(), location.as_str());
        proof {
            assert(old(session).locations.deep_view().is_prefix_of(
                session.locations.deep_view(),
            )) by {
                assert(old(session).locations.deep_view() =~= session.locations.deep_view()
                    .subrange(0, old(session).locations.deep_view().len() as int));
            }
        }
        let create = crate::ast::CreateExternalTable {
            name,
            columns,
            file_type,
            has_header,
            delimiter,
            location,
            table_partition_cols: partitions,
            if_not_exists,
            file_compression_type: compression,
            options,
        };
        Ok((DfStatement::CreateExternalTable(create), meta))
    }

    /// Parse a `CREATE` statement (the `CREATE` word already consumed): the
    /// extension grammar for `CREATE EXTERNAL TABLE`, the generic grammar
    /// for everything else.
    pub fn parse_create(&mut self, session: &mut ResolutionSession) -> (r: Result<
        (DfStatement, StatementMeta),
        ParseError,
    >)
        requires
            old(self).wf(),
        ensures
            final(self).wf(),
            old(self).same_stream(final(self)),
            old(self).pos <= final(self).pos,
            final(session).visited_files.deep_view() == old(session).visited_files.deep_view(),
            final(session).visited_catalogs.deep_view() == old(
                session,
            ).visited_catalogs.deep_view(),
            final(session).visited_schemas.deep_view() == old(session).visited_schemas.deep_view(),
            r is Err ==> final(session).locations.deep_view() == old(
                session,
            ).locations.deep_view(),
            old(session).locations.deep_view().is_prefix_of(final(session).locations.deep_view()),
            ({
                let ms = spec_step_create(
                    old(self).views(),
                    old(self).sql_tokens@,
                    old(self).pos as int,
                    old(self).filename@,
                );
                match r {
                    Ok(p) => ms matches Step::Done { v, end } && stmt_view(p.0) == v.0 && p.1@
                        == v.1 && final(self).pos == end,
                    Err(e) => ms matches Step::Fail { msg, tok_err } && (msg matches Some(m) ==> ((
                    tok_err ==> (e matches ParseError::TokenizerError(em) && em@ == m)) && (
                    !tok_err ==> (e matches ParseError::ParseError(em) && em@ == m)))),
                }
            }),
    {
        if self.parse_keyword("EXTERNAL") {
            self.parse_create_external_table(session)
        } else {
            let (stmt, consumed) = match crate::sqlbridge::delegate_create(
                &self.sql_tokens,
                self.pos,
            ) {
                Err(e) => {
                    return Err(e);
                },
                Ok(p) => p,
            };
            self.advance_by(consumed);
            let ghost oc = spec_create_parse(old(self).sql_tokens@, old(self).pos as int + 1);
            let name_parts: Vec<Ident> = match crate::sqlbridge::statement_object_name(&stmt) {
                Some(pairs) => {
                    let ids = idents_from_pairs(pairs);
                    proof {
                        assert(crate::sqlbridge::spec_object_name_of(stmt) matches Some(ps)
                            ==> ids.deep_view() =~= ps.map_values(
                            |p: (Seq<char>, Option<char>)| IdentV { value: p.0, quote: p.1 },
                        ));
                    }
                    ids
                },
                None => {
                    let empty: Vec<Ident> = Vec::new();
                    proof {
                        assert(empty.deep_view() =~= Seq::<IdentV>::empty());
                    }
                    empty
                },
            };
            let meta = match crate::ast::meta_for_name_parts(
                &name_parts,
                self.filename.as_str(),
            ) {
                Err(e) => {
                    return Err(e);
                },
                Ok(m) => m,
            };
            Ok((DfStatement::Statement(Box::new(stmt)), meta))
        }
    }

    /// Parse one statement: `CREATE` and `DESCRIBE` through the extension
    /// grammar; a query under a file scope is wrapped as a `CREATE TABLE ..
    /// AS` named after the file; everything else through the generic
    /// grammar.
    pub fn parse_statement(&mut self, session: &mut ResolutionSession) -> (r: Result<
        (DfStatement, StatementMeta),
        ParseError,
    >)
        requires
            old(self).wf(),
        ensures
            final(self).wf(),
            old(self).same_stream(final(self)),
            old(self).pos <= final(self).pos,
            r is Ok ==> old(self).pos < final(self).pos,
            final(session).visited_files.deep_view() == old(session).visited_files.deep_view(),
            final(session).visited_catalogs.deep_view() == old(
                session,
            ).visited_catalogs.deep_view(),
            final(session).visited_schemas.deep_view() == old(session).visited_schemas.deep_view(),
            r is Err ==> final(session).locations.deep_view() == old(
                session,
            ).locations.deep_view(),
            old(session).locations.deep_view().is_prefix_of(final(session).locations.deep_view()),
            ({
                let ms = spec_step_statement(
                    old(self).views(),
                    old(self).sql_tokens@,
                    old(self).pos as int,
                    old(self).filename@,
                );
                match r {
                    Ok(p) => ms matches Step::Done { v, end } && stmt_view(p.0) == v.0 && p.1@
                        == v.1 && final(self).pos == end,
                    Err(e) => ms matches Step::Fail { msg, tok_err } && (msg matches Some(m) ==> ((
                    tok_err ==> (e matches ParseError::TokenizerError(em) && em@ == m)) && (
                    !tok_err ==> (e matches ParseError::ParseError(em) && em@ == m)))),
                }
            }),
    {
        let ghost toks = self.views();
        let ghost p0 = self.pos as int;
        proof {
            lemma_advance(toks, p0);
        }
        let t = self.peek();
        if self.parse_keyword("CREATE") {
            self.parse_create(session)
        } else if self.parse_keyword("DESCRIBE") {
            match self.parse_describe() {
                Err(e) => Err(e),
                Ok(p) => Ok(p),
            }
        } else if crate::cursor::is_word(&t) && (crate::tokens::word_is_kw(&t, "SELECT")
            || crate::tokens::word_is_kw(&t, "WITH") || crate::tokens::word_is_kw(&t, "VALUES")) {
            let (q, consumed) = match crate::sqlbridge::delegate_query(&self.sql_tokens, self.pos) {
                Err(e) => {
                    return Err(e);
                },
                Ok(p) => p,
            };
            proof {
                lemma_skip_ws(toks, p0);
            }
            self.advance_by(consumed);
            let stmt = if self.filename.as_str().unicode_len() != 0 {
                let base = crate::paths::basename(self.filename.as_str());
                let table_ident = crate::paths::strip_extension(base.as_str(), ".sql");
                crate::sqlbridge::make_create_table_statement(
                    self.catalog.as_str(),
                    self.schema.as_str(),
                    table_ident.as_str(),
                    q,
                )
            } else {
                crate::sqlbridge::make_query_statement(q)
            };
            proof {
                reveal_strlit("");
                assert(""@ =~= Seq::<char>::empty());
                assert(split_seq(""@, '.').len() == 1);
            }
            let meta = match crate::ast::meta_for_table_string("", self.filename.as_str()) {
                Err(e) => {
                    return Err(e);
                },
                Ok(m) => m,
            };
            Ok((DfStatement::Statement(Box::new(stmt)), meta))
        } else {
            let (stmt, consumed) = match crate::sqlbridge::delegate_statement(
                &self.sql_tokens,
                self.pos,
            ) {
                Err(e) => {
                    return Err(e);
                },
                Ok(p) => p,
            };
            proof {
                lemma_skip_ws(toks, p0);
            }
            self.advance_by(consumed);
            proof {
                reveal_strlit("");
                assert(""@ =~= Seq::<char>::empty());
                assert(split_seq(""@, '.').len() == 1);
            }
            let meta = match crate::ast::meta_for_table_string("", self.filename.as_str()) {
                Err(e) => {
                    return Err(e);
                },
                Ok(m) => m,
            };
            Ok((DfStatement::Statement(Box::new(stmt)), meta))
        }
    }

    /// Run the statement dispatcher to the end of the input: statements
    /// separated by semicolons (empty statements ignored), `USE` statements
    /// handed back as resolution requests, everything else parsed. A missing
    /// separator between statements is an error. Visited-state in the
    /// session is untouched; each `CREATE EXTERNAL TABLE` appends to the
    /// session's location registry.
    #[verifier::loop_isolation(false)]
    pub fn run_statements(&mut self, session: &mut ResolutionSession) -> (r: Result<
        Vec<ParsedItem>,
        ParseError,
    >)
        requires
            old(self).wf(),
        ensures
            final(self).wf(),
            old(self).same_stream(final(self)),
            old(self).pos <= final(self).pos,
            final(session).visited_files.deep_view() == old(session).visited_files.deep_view(),
            final(session).visited_catalogs.deep_view() == old(
                session,
            ).visited_catalogs.deep_view(),
            final(session).visited_schemas.deep_view() == old(session).visited_schemas.deep_view(),
            old(session).locations.deep_view().is_prefix_of(final(session).locations.deep_view()),
            ({
                let ms = spec_step_statements(
                    old(self).views(),
                    old(self).sql_tokens@,
                    old(self).pos as int,
                    false,
                    old(self).catalog@,
                    old(self).filename@,
                );
                match r {
                    Ok(out) => ms matches Step::Done { v, end } && items_view(out@) == v && final(self).pos == end,
                    Err(e) => ms matches Step::Fail { msg, tok_err } && (msg matches Some(m) ==> ((
                    tok_err ==> (e matches ParseError::TokenizerError(em) && em@ == m)) && (
                    !tok_err ==> (e matches ParseError::ParseError(em) && em@ == m)))),
                }
            }),
    {
        let ghost toks = self.views();
        let ghost sqlt = self.sql_tokens@;
        let ghost p0 = self.pos as int;
        let mut items: Vec<ParsedItem> = Vec::new();
        let mut expecting = false;
        let ghost mut fuel_cur: nat = spec_fuel(toks.len() as int, p0);
        proof {
            assert(items_view(items@) =~= Seq::<ItemV>::empty());
        }
        loop
            invariant
                self.wf(),
                old(self).same_stream(self),
                toks == self.views(),
                sqlt == self.sql_tokens@,
                old(self).pos <= self.pos <= toks.len(),
                session.visited_files.deep_view() == old(session).visited_files.deep_view(),
                session.visited_catalogs.deep_view() == old(session).visited_catalogs.deep_view(),
                session.visited_schemas.deep_view() == old(session).visited_schemas.deep_view(),
                old(session).locations.deep_view().is_prefix_of(session.locations.deep_view()),
                spec_step_statements(toks, sqlt, p0, false, old(self).catalog@, old(self).filename@)
                    == step_prepend(
                    items_view(items@),
                    spec_step_statements_fueled(
                        toks,
                        sqlt,
                        self.pos as int,
                        expecting,
                        old(self).catalog@,
                        old(self).filename@,
                        fuel_cur,
                    ),
                ),
                fuel_cur >= 1 + toks.len() - self.pos,
            decreases toks.len() - self.pos,
        {
            let ghost p_iter = self.pos as int;
            let ghost pre = items_view(items@);
            let ghost ghost_locations_pre = session.locations.deep_view();
            if self.consume_semicolon() {
                expecting = false;
                proof {
                    lemma_advance(toks, p_iter);
                    fuel_cur = (fuel_cur - 1) as nat;
                }
                continue ;
            }
            let t = self.peek();
            if crate::cursor::is_eof(&t) {
                proof {
                    assert(pre + Seq::<ItemV>::empty() =~= pre);
                }
                return Ok(items);
            }
            if expecting {
                return Err(self.expected_error("End of statement", &t));
            }
            if crate::cursor::is_word(&t) {
                let ghost mut added: Seq<ItemV> = Seq::empty();
                if crate::tokens::word_is_kw(&t, "USE") {
                    let _ = self.next_token();
                    proof {
                        lemma_advance(toks, p_iter);
                    }
                    let mut more = match self.parse_use_stmt() {
                        Err(e) => {
                            return Err(e);
                        },
                        Ok(v) => v,
                    };
                    proof {
                        added = items_view(more@);
                        let sp = spec_parse_use_scope(toks, spec_advance(toks, p_iter));
                        match sp {
                            Parsed::Done { v: scope, .. } => {
                                if old(self).catalog@.len() == 0 {
                                    assert(added =~= Seq::<ItemV>::empty());
                                } else {
                                    assert(more@[0] matches ParsedItem::Use {
                                        catalog: c,
                                        schema: sc,
                                        table: tb,
                                    } && c@ == scope.catalog && sc@ == scope.schema && tb@
                                        == scope.table);
                                    assert(added =~= seq![
                                        ItemV::Use {
                                            catalog: scope.catalog,
                                            schema: scope.schema,
                                            table: scope.table,
                                        },
                                    ]);
                                }
                            },
                            Parsed::Fail { .. } => {
                            },
                        }
                        assert(items_view(items@ + more@) =~= pre + added);
                    }
                    items.append(&mut more);
                } else {
                    match self.parse_statement(session) {
                        Err(e) => {
                            return Err(e);
                        },
                        Ok(p) => {
                            let ghost sv = stmt_view(p.0);
                            let ghost mv = p.1@;
                            items.push(ParsedItem::Statement(p.0, p.1));
                            proof {
                                added = seq![ItemV::Statement(sv, mv)];
                                assert(items_view(items@) =~= pre + added);
                            }
                        },
                    }
                }
                proof {
                    let q = spec_step_statements_fueled(
                        toks,
                        sqlt,
                        self.pos as int,
                        true,
                        old(self).catalog@,
                        old(self).filename@,
                        (fuel_cur - 1) as nat,
                    );
                    lemma_step_prepend_empty(q);
                    lemma_step_prepend_assoc(pre, added, q);
                    assert(spec_step_statements_fueled(
                        toks,
                        sqlt,
                        p_iter,
                        expecting,
                        old(self).catalog@,
                        old(self).filename@,
                        fuel_cur,
                    ) == step_prepend(added, q));
                    assert(pre + added =~= items_view(items@));
                    fuel_cur = (fuel_cur - 1) as nat;
                }
            } else {
                return Err(self.expected_error("End of statement", &t));
            }
            expecting = true;
            proof {
                lemma_prefix_trans(
                    old(session).locations.deep_view(),
                    ghost_locations_pre,
                    session.locations.deep_view(),
                );
            }
        }
    }
}

/// A prefix of a prefix is a prefix.
proof fn lemma_prefix_trans<A>(a: Seq<A>, b: Seq<A>, c: Seq<A>)
    requires
        a.is_prefix_of(b),
        b.is_prefix_of(c),
    ensures
        a.is_prefix_of(c),
{
    assert(a =~= c.subrange(0, a.len() as int));
}

/// Identifiers from plain (value, quote) pairs.
fn idents_from_pairs(pairs: Vec<(String, Option<char>)>) -> (r: Vec<Ident>)
    ensures
        r@.len() == pairs@.len(),
        forall|i: int|
            0 <= i < pairs@.len() ==> r@[i].value@ == pairs@[i].0@ && r@[i].quote == pairs@[i].1,
{
    let n = pairs.len();
    let mut out: Vec<Ident> = Vec::new();
    let mut i: usize = 0;
    while i < n
        invariant
            i <= n,
            n == pairs@.len(),
            out@.len() == i,
            forall|j: int|
                0 <= j < i ==> out@[j].value@ == pairs@[j].0@ && out@[j].quote == pairs@[j].1,
        decreases n - i,
    {
        out.push(Ident { value: pairs[i].0.clone(), quote: pairs[i].1 });
        i = i + 1;
    }
    out
}

/// Whether a location must be backed by a local file: remote locations
/// (an `s3://` scheme) are accepted as they are.
pub fn location_needs_local_file(location: &str) -> (r: bool)
    ensures
        r == !crate::strutil::has_prefix(location@, "s3://"@),
{
    !crate::strutil::starts_with_str(location, "s3://")
}

/// The message reported for a local location that does not exist.
pub open spec fn spec_missing_file_message(location: Seq<char>) -> Seq<char> {
    "Missing external file '"@ + location + seq!['\'']
}

/// Check a parsed location against the filesystem: a remote `s3://`
/// location is always valid; a local one is valid exactly when the caller
/// found it on disk. This check runs after the clause parsed, so the
/// session's location registry already holds the statement's entry when the
/// check rejects it.
pub fn validate_location(location: &str, local_file_exists: bool) -> (r: Result<(), ParseError>)
    ensures
        r is Ok <==> (crate::strutil::has_prefix(location@, "s3://"@) || local_file_exists),
        r matches Err(e) ==> (e matches ParseError::ParseError(m) && m@
            == spec_missing_file_message(location@)),
{
    if crate::strutil::starts_with_str(location, "s3://") || local_file_exists {
        Ok(())
    } else {
        let mut msg = String::from_str("Missing external file '");
        msg.append(location);
        crate::strutil::push_char(&mut msg, '\'');
        proof {
            assert(msg@ =~= spec_missing_file_message(location@));
        }
        Err(ParseError::ParseError(msg))
    }
}

/// A message of the form `'<filename>': <inner>` starts with
/// `'<filename>': `.
proof fn lemma_wrap_prefix(filename: Seq<char>, inner: Seq<char>, m: Seq<char>)
    requires
        m == seq!['\''] + filename + "': "@ + inner,
    ensures
        crate::strutil::has_prefix(m, seq!['\''] + filename + "': "@),
{
    let pfx = seq!['\''] + filename + "': "@;
    assert(pfx =~= m.subrange(0, pfx.len() as int));
}

/// An error from a nested file parse, wrapped with the file's name:
/// `'<filename>': <message>`.
pub fn wrap_file_error(filename: &str, e: ParseError) -> (r: ParseError)
    ensures
        r matches ParseError::ParseError(m) && m@ == seq!['\''] + filename@ + "': "@ + (match e {
            ParseError::ParseError(s) => s@,
            ParseError::TokenizerError(s) => s@,
            ParseError::RecursionLimitExceeded => "Recursion Limit Exceeded!"@,
        }),
{
    let mut msg = crate::strutil::char_string('\'');
    msg.append(filename);
    msg.append("': ");
    let inner = match e {
        ParseError::ParseError(s) => s,
        ParseError::TokenizerError(s) => s,
        ParseError::RecursionLimitExceeded => String::from_str("Recursion Limit Exceeded!"),
    };
    msg.append(inner.as_str());
    proof {
        assert(msg@ =~= seq!['\''] + filename@ + "': "@ + inner@);
    }
    ParseError::ParseError(msg)
}

impl DFParser {
    /// A parser over the given text, with an empty scope. It succeeds
    /// exactly when the text tokenizes; the parser then holds that token
    /// stream and its mirror.
    pub fn new(sql: &str) -> (r: Result<DFParser, ParseError>)
        ensures
            (r is Ok <==> spec_tokenize(sql@) is Some),
            r matches Ok(p) ==> p.wf() && p.pos == 0 && p.catalog@.len() == 0 && p.schema@.len()
                == 0 && p.table@.len() == 0 && p.filename@.len() == 0 && Some(p.sql_tokens@)
                == spec_tokenize(sql@) && p.views() == spec_mirror(p.sql_tokens@),
            r matches Err(e) ==> e is TokenizerError,
    {
        proof {
            reveal_strlit("");
        }
        DFParser::new_with_scope(sql, String::new(), String::new(), String::new(), String::new())
    }

    /// A parser over the given text, under an explicit scope. It succeeds
    /// exactly when the text tokenizes; the parser then holds that token
    /// stream and its mirror.
    pub fn new_with_scope(
        sql: &str,
        filename: String,
        catalog: String,
        schema: String,
        table: String,
    ) -> (r: Result<DFParser, ParseError>)
        ensures
            (r is Ok <==> spec_tokenize(sql@) is Some),
            r matches Ok(p) ==> p.wf() && p.pos == 0 && p.catalog@ == catalog@ && p.schema@
                == schema@ && p.table@ == table@ && p.filename@ == filename@ && Some(p.sql_tokens@)
                == spec_tokenize(sql@) && p.views() == spec_mirror(p.sql_tokens@),
            r matches Err(e) ==> e is TokenizerError,
    {
        let sql_tokens = match crate::sqlbridge::tokenize_sql(sql) {
            Err(e) => {
                return Err(e);
            },
            Ok(t) => t,
        };
        let n = sql_tokens.len();
        let mut toks: Vec<Lexeme> = Vec::new();
        let mut i: usize = 0;
        while i < n
            invariant
                i <= n,
                n == sql_tokens@.len(),
                toks@.len() == i,
                forall|j: int| 0 <= j < i ==> toks@[j]@ == spec_lexeme_of(sql_tokens@[j]),
            decreases n - i,
        {
            toks.push(crate::sqlbridge::convert_token(&sql_tokens[i]));
            i = i + 1;
        }
        proof {
            assert forall|j: int| 0 <= j < n implies toks.deep_view()[j] == spec_mirror(
                sql_tokens@,
            )[j] by {
                assert(toks@[j]@ == spec_lexeme_of(sql_tokens@[j]));
            }
            assert(toks.deep_view() =~= spec_mirror(sql_tokens@));
        }
        Ok(DFParser { sql_tokens, toks, pos: 0, catalog, schema, table, filename })
    }

    /// Parse a text into statements, with an empty scope and a fresh
    /// session: the statements the dispatcher yields, in order. Outside a
    /// catalog context every `USE` is skipped, so only plain statements come
    /// back. It fails exactly when the text does not tokenize or the
    /// dispatcher fails.
    #[verifier::loop_isolation(false)]
    pub fn parse_sql(sql: &str) -> (r: Result<Vec<DfStatement>, ParseError>)
        ensures
            ({
                match spec_tokenize(sql@) {
                    None => r is Err,
                    Some(tokens) => {
                        let ms = spec_step_statements(
                            spec_mirror(tokens),
                            tokens,
                            0,
                            false,
                            Seq::empty(),
                            Seq::empty(),
                        );
                        match ms {
                            Step::Done { v, .. } => r matches Ok(stmts) && stmts@.map_values(
                                |st: DfStatement| stmt_view(st),
                            ) == spec_statements_only(v),
                            Step::Fail { msg, tok_err } => r matches Err(e) && (msg matches Some(m)
                                ==> ((tok_err ==> (e matches ParseError::TokenizerError(em) && em@
                                == m)) && (!tok_err ==> (e matches ParseError::ParseError(em)
                                && em@ == m)))),
                        }
                    },
                }
            }),
    {
        let mut parser = match DFParser::new(sql) {
            Err(e) => {
                return Err(e);
            },
            Ok(p) => p,
        };
        proof {
            assert(parser.catalog@ =~= Seq::<char>::empty());
            assert(parser.filename@ =~= Seq::<char>::empty());
        }
        let mut session = ResolutionSession::new();
        let items = match parser.run_statements(&mut session) {
            Err(e) => {
                return Err(e);
            },
            Ok(v) => v,
        };
        let ghost iv = items_view(items@);
        let ghost orig = items@;
        let mut stmts: Vec<DfStatement> = Vec::new();
        let n = items.len();
        let mut consumed_items = items;
        let mut i: usize = 0;
        proof {
            assert(stmts@.map_values(|st: DfStatement| stmt_view(st)) =~= Seq::<StmtV>::empty());
            assert(iv.take(0) =~= Seq::<ItemV>::empty());
        }
        while i < n
            invariant
                i <= n,
                n == orig.len(),
                consumed_items@ == orig.skip(i as int),
                stmts@.map_values(|st: DfStatement| stmt_view(st)) == spec_statements_only(
                    iv.take(i as int),
                ),
            decreases n - i,
        {
            let ghost pre = stmts@.map_values(|st: DfStatement| stmt_view(st));
            let item = consumed_items.remove(0);
            proof {
                assert(consumed_items@ =~= orig.skip(i + 1 as int));
                assert(item == orig[i as int]);
                assert(iv[i as int] == item_view(orig[i as int]));
                assert(iv.take(i + 1 as int).drop_last() =~= iv.take(i as int));
                assert(iv.take(i + 1 as int).last() == iv[i as int]);
            }
            match item {
                ParsedItem::Statement(stmt, _) => {
                    let ghost sv = stmt_view(stmt);
                    stmts.push(stmt);
                    proof {
                        assert(stmts@.map_values(|st: DfStatement| stmt_view(st)) =~= pre.push(
                            sv,
                        ));
                        assert(spec_statements_only(iv.take(i + 1 as int)) =~= pre.push(sv));
                    }
                },
                ParsedItem::Use { .. } => {
                    proof {
                        assert(spec_statements_only(iv.take(i + 1 as int)) =~= pre);
                    }
                },
            }
            i = i + 1;
        }
        proof {
            assert(iv.take(n as int) =~= iv);
        }
        Ok(stmts)
    }

    /// Parse a text into statements and `USE` requests, under an explicit
    /// scope and session: the dispatcher's items, passed through unmodified.
    /// A failure is wrapped with the file's name: `'<filename>': <message>`.
    pub fn parse_sql_with_scope(
        sql: &str,
        filename: &str,
        catalog: &str,
        schema: &str,
        table: &str,
        session: &mut ResolutionSession,
    ) -> (r: Result<Vec<ParsedItem>, ParseError>)
        ensures
            final(session).visited_files.deep_view() == old(session).visited_files.deep_view(),
            final(session).visited_catalogs.deep_view() == old(
                session,
            ).visited_catalogs.deep_view(),
            final(session).visited_schemas.deep_view() == old(session).visited_schemas.deep_view(),
            old(session).locations.deep_view().is_prefix_of(final(session).locations.deep_view()),
            r matches Err(e) ==> (e matches ParseError::ParseError(m) && crate::strutil::has_prefix(
                m@,
                seq!['\''] + filename@ + "': "@,
            )),
            ({
                match spec_tokenize(sql@) {
                    None => r is Err,
                    Some(tokens) => {
                        let ms = spec_step_statements(
                            spec_mirror(tokens),
                            tokens,
                            0,
                            false,
                            catalog@,
                            filename@,
                        );
                        match ms {
                            Step::Done { v, .. } => r matches Ok(items) && items_view(items@) == v,
                            Step::Fail { msg, .. } => r matches Err(e) && (msg matches Some(inner)
                                ==> (e matches ParseError::ParseError(m) && m@ == seq!['\'']
                                + filename@ + "': "@ + inner)),
                        }
                    },
                }
            }),
    {
        let mut parser = match DFParser::new_with_scope(
            sql,
            filename.to_owned(),
            catalog.to_owned(),
            schema.to_owned(),
            table.to_owned(),
        ) {
            Err(e) => {
                let ghost inner = (match &e {
                    ParseError::ParseError(s) => s@,
                    ParseError::TokenizerError(s) => s@,
                    ParseError::RecursionLimitExceeded => "Recursion Limit Exceeded!"@,
                });
                let wrapped = wrap_file_error(filename, e);
                proof {
                    lemma_wrap_prefix(filename@, inner, wrapped->ParseError_0@);
                }
                return Err(wrapped);
            },
            Ok(p) => p,
        };
        match parser.run_statements(session) {
            Err(e) => {
                let ghost inner = (match &e {
                    ParseError::ParseError(s) => s@,
                    ParseError::TokenizerError(s) => s@,
                    ParseError::RecursionLimitExceeded => "Recursion Limit Exceeded!"@,
                });
                let wrapped = wrap_file_error(filename, e);
                proof {
                    lemma_wrap_prefix(filename@, inner, wrapped->ParseError_0@);
                }
                Err(wrapped)
            },
            Ok(v) => Ok(v),
        }
    }
}



/// The clause values flow unchanged through the `LOCATION` clause.
proof fn lemma_flow_location(
    toks: Seq<LexemeV>,
    pos: int,
    ft: Seq<char>,
    hh: bool,
    d: char,
    c: CompressionTypeVariant,
    parts: Seq<Seq<char>>,
    opts: Seq<(Seq<char>, Seq<char>)>,
)
    ensures
        spec_cet_from_location(toks, pos, ft, hh, d, c, parts, opts) matches Parsed::Done {
            v,
            ..
        } ==> v.file_type == ft && v.has_header == hh && v.delimiter == d && v.compression == c
            && v.partitions == parts && v.options == opts,
{
}

/// The clause values fixed before the `OPTIONS` clause flow unchanged
/// through it.
proof fn lemma_flow_options(
    toks: Seq<LexemeV>,
    pos: int,
    ft: Seq<char>,
    hh: bool,
    d: char,
    c: CompressionTypeVariant,
    parts: Seq<Seq<char>>,
)
    ensures
        spec_cet_from_options(toks, pos, ft, hh, d, c, parts) matches Parsed::Done { v, .. }
            ==> v.file_type == ft && v.has_header == hh && v.delimiter == d && v.compression == c
            && v.partitions == parts,
{
    match spec_kw1(toks, pos, "OPTIONS"@) {
        Some(p) => match spec_parse_options(toks, p) {
            Parsed::Done { v: opts, end } => {
                lemma_flow_location(toks, end, ft, hh, d, c, parts, opts);
            },
            Parsed::Fail { .. } => {
            },
        },
        None => {
            lemma_flow_location(toks, pos, ft, hh, d, c, parts, Seq::empty());
        },
    }
}

/// The clause values fixed before `PARTITIONED BY` flow unchanged through
/// it.
proof fn lemma_flow_partitions(
    toks: Seq<LexemeV>,
    pos: int,
    ft: Seq<char>,
    hh: bool,
    d: char,
    c: CompressionTypeVariant,
)
    ensures
        spec_cet_from_partitions(toks, pos, ft, hh, d, c) matches Parsed::Done { v, .. }
            ==> v.file_type == ft && v.has_header == hh && v.delimiter == d && v.compression == c,
{
    match spec_kw2(toks, pos, "PARTITIONED"@, "BY"@) {
        Some(p) => match spec_parse_partitions(toks, p) {
            Parsed::Done { v: parts, end } => {
                lemma_flow_options(toks, end, ft, hh, d, c, parts);
            },
            Parsed::Fail { .. } => {
            },
        },
        None => {
            lemma_flow_options(toks, pos, ft, hh, d, c, Seq::empty());
        },
    }
}

/// The clause values fixed before `COMPRESSION TYPE` flow unchanged through
/// it.
proof fn lemma_flow_compression(toks: Seq<LexemeV>, pos: int, ft: Seq<char>, hh: bool, d: char)
    ensures
        spec_cet_from_compression(toks, pos, ft, hh, d) matches Parsed::Done { v, .. }
            ==> v.file_type == ft && v.has_header == hh && v.delimiter == d,
{
    match spec_kw2(toks, pos, "COMPRESSION"@, "TYPE"@) {
        Some(p) => match spec_parse_compression(toks, p) {
            Parsed::Done { v: c, end } => {
                lemma_flow_partitions(toks, end, ft, hh, d, c);
            },
            Parsed::Fail { .. } => {
            },
        },
        None => {
            lemma_flow_partitions(toks, pos, ft, hh, d, CompressionTypeVariant::UNCOMPRESSED);
        },
    }
}

/// The format tag and header flag flow unchanged through the `DELIMITER`
/// clause; an omitted delimiter is the comma, a declared one is the parsed
/// character.
pub proof fn lemma_delimiter_clause(toks: Seq<LexemeV>, pos: int, ft: Seq<char>, hh: bool)
    ensures
        spec_cet_from_delimiter(toks, pos, ft, hh) matches Parsed::Done { v, .. } ==> v.file_type
            == ft && v.has_header == hh,
        spec_kw1(toks, pos, "DELIMITER"@) is None ==> (spec_cet_from_delimiter(
            toks,
            pos,
            ft,
            hh,
        ) matches Parsed::Done { v, .. } ==> v.delimiter == ','),
        spec_kw1(toks, pos, "DELIMITER"@) matches Some(p) ==> (spec_parse_delimiter(
            toks,
            p,
        ) matches Parsed::Done { v: d, .. } ==> (spec_cet_from_delimiter(
            toks,
            pos,
            ft,
            hh,
        ) matches Parsed::Done { v, .. } ==> v.delimiter == d)),
{
    match spec_kw1(toks, pos, "DELIMITER"@) {
        Some(p) => match spec_parse_delimiter(toks, p) {
            Parsed::Done { v: d, end } => {
                lemma_flow_compression(toks, end, ft, hh, d);
            },
            Parsed::Fail { .. } => {
            },
        },
        None => {
            lemma_flow_compression(toks, pos, ft, hh, ',');
        },
    }
}

/// The delimiter defaults to `,` when the `DELIMITER` clause is omitted; a
/// declared delimiter is the literal's single character; a literal that is
/// not a single character makes the whole clause sequence fail.
pub proof fn lemma_delimiter_law(toks: Seq<LexemeV>, pos: int, ft: Seq<char>, hh: bool)
    ensures
        spec_kw1(toks, pos, "DELIMITER"@) is None ==> (spec_cet_from_delimiter(
            toks,
            pos,
            ft,
            hh,
        ) matches Parsed::Done { v, .. } ==> v.delimiter == ','),
        spec_kw1(toks, pos, "DELIMITER"@) matches Some(p) ==> (spec_parse_literal_string(
            toks,
            p,
        ) matches Parsed::Done { v: s, .. } ==> (s.len() == 1 ==> (spec_cet_from_delimiter(
            toks,
            pos,
            ft,
            hh,
        ) matches Parsed::Done { v, .. } ==> v.delimiter == s[0]))),
        spec_kw1(toks, pos, "DELIMITER"@) matches Some(p) ==> (spec_parse_literal_string(
            toks,
            p,
        ) matches Parsed::Done { v: s, .. } ==> (s.len() != 1 ==> (spec_cet_from_delimiter(
            toks,
            pos,
            ft,
            hh,
        ) matches Parsed::Fail { msg, tok_err, .. } && (msg == "Delimiter must be a single char"@
            && tok_err)))),
{
    lemma_delimiter_clause(toks, pos, ft, hh);
}

/// `WITH HEADER ROW` in any letter case sets the header flag; omission
/// leaves it unset.
pub proof fn lemma_header_law(toks: Seq<LexemeV>, pos: int, ft: Seq<char>)
    ensures
        spec_kw3(toks, pos, "WITH"@, "HEADER"@, "ROW"@) is Some ==> (spec_cet_from_header(
            toks,
            pos,
            ft,
        ) matches Parsed::Done { v, .. } ==> v.has_header),
        spec_kw3(toks, pos, "WITH"@, "HEADER"@, "ROW"@) is None ==> (spec_cet_from_header(
            toks,
            pos,
            ft,
        ) matches Parsed::Done { v, .. } ==> !v.has_header),
        spec_cet_from_header(toks, pos, ft) matches Parsed::Done { v, .. } ==> v.file_type == ft,
{
    match spec_kw3(toks, pos, "WITH"@, "HEADER"@, "ROW"@) {
        Some(p) => {
            lemma_delimiter_clause(toks, p, ft, true);
        },
        None => {
            lemma_delimiter_clause(toks, pos, ft, false);
        },
    }
}

/// The parsed format tag is the written format word, normalized to ASCII
/// uppercase, whatever letter case it was written in.
pub proof fn lemma_format_uppercase(toks: Seq<LexemeV>, pos: int)
    ensures
        spec_parse_file_format(toks, pos) matches Parsed::Done { v, .. } ==> (spec_peek(
            toks,
            pos,
        ) matches LexemeV::Word { value, .. } && v == upper_seq(value)),
        spec_parse_cet_tail(toks, pos) matches Parsed::Done { v, .. } ==> (spec_kw1(
            toks,
            pos,
            "STORED"@,
        ) matches Some(pa) && (spec_kw1(toks, pa, "AS"@) matches Some(pb) && (spec_peek(
            toks,
            pb,
        ) matches LexemeV::Word { value, .. } && v.file_type == upper_seq(value)))),
{
    match spec_kw1(toks, pos, "STORED"@) {
        Some(pa) => match spec_kw1(toks, pa, "AS"@) {
            Some(pb) => match spec_parse_file_format(toks, pb) {
                Parsed::Done { v: ft, end } => {
                    lemma_header_law(toks, end, ft);
                },
                Parsed::Fail { .. } => {
                },
            },
            None => {
            },
        },
        None => {
        },
    }
}

/// In a partition list, what follows a partition name must be `,` or `)`:
/// anything else (for instance the type of a typed column) fails the parse
/// with a message naming the offending token.
pub proof fn lemma_partitions_typed_column_fails(toks: Seq<LexemeV>, pos: int)
    requires
        0 <= pos <= toks.len(),
    ensures
        (spec_peek(toks, pos) is Word && !(spec_peek(toks, spec_advance(toks, pos)) is Comma)
            && !(spec_peek(toks, spec_advance(toks, pos)) is RParen)) ==> (spec_partitions_items(
            toks,
            pos,
        ) matches Parsed::Fail { msg, .. } && msg == spec_expected_msg(
            "',' or ')' after partition definition"@,
            spec_peek(toks, spec_advance(toks, pos)),
        )),
{
}

/// Serializing a `CREATE EXTERNAL TABLE` value embeds its table name,
/// format tag and location verbatim, each at its fixed offset: the
/// serialization preserves those fields.
pub proof fn lemma_display_cet_embeds(ine: bool, name: Seq<char>, ft: Seq<char>, loc: Seq<char>)
    ensures
        ({
            let d = crate::ast::spec_display_cet(ine, name, ft, loc);
            let p = 22 + (if ine {
                14int
            } else {
                0int
            });
            &&& d.len() == p + name.len() + 11 + ft.len() + 10 + loc.len() + 1
            &&& d.subrange(p, p + name.len()) == name
            &&& d.subrange(p + name.len() + 11, p + name.len() + 11 + ft.len()) == ft
            &&& d.subrange(
                p + name.len() + 11 + ft.len() + 10,
                p + name.len() + 11 + ft.len() + 10 + loc.len(),
            ) == loc
        }),
{
    reveal_strlit("CREATE EXTERNAL TABLE ");
    reveal_strlit("IF NOT EXISTS ");
    reveal_strlit(" STORED AS ");
    reveal_strlit(" LOCATION ");
    reveal_strlit(" ");
    assert("CREATE EXTERNAL TABLE "@.len() == 22);
    assert("IF NOT EXISTS "@.len() == 14);
    assert(" STORED AS "@.len() == 11);
    assert(" LOCATION "@.len() == 10);
    assert(" "@.len() == 1);
    let d = crate::ast::spec_display_cet(ine, name, ft, loc);
    let p = 22 + (if ine {
        14int
    } else {
        0int
    });
    assert(d.subrange(p, p + name.len() as int) =~= name);
    assert(d.subrange(p + name.len() + 11, p + name.len() + 11 + ft.len() as int) =~= ft);
    assert(d.subrange(
        p + name.len() + 11 + ft.len() + 10,
        p + name.len() + 11 + ft.len() + 10 + loc.len() as int,
    ) =~= loc);
}



/// The position after the generic grammar consumed `consumed` tokens from
/// `pos`, capped at the end of the stream, as the cursor caps it.
pub open spec fn spec_jump(len: int, pos: int, consumed: int) -> int {
    if pos + consumed <= len {
        pos + consumed
    } else {
        len
    }
}

/// The fuel that always suffices for a parse from `pos`: one unit per
/// remaining token, and one more. Every recursive step of the grammar
/// consumes at least one token, so a parse from `pos` unfolds fewer times
/// than this.
pub open spec fn spec_fuel(len: int, pos: int) -> nat {
    if 0 <= pos <= len {
        (len - pos + 1) as nat
    } else {
        1nat
    }
}

/// The outcome of a parse step that may hand constructs to the generic
/// grammar: the value and end position on success; on failure, the message
/// and kind when the failure is the extension grammar's own, and no message
/// when the error is forwarded verbatim from the generic grammar.
pub enum Step<T> {
    Done { v: T, end: int },
    Fail { msg: Option<Seq<char>>, tok_err: bool },
}

/// A step outcome over a list, with the pieces parsed so far prepended.
pub open spec fn step_prepend<T>(pre: Seq<T>, s: Step<Seq<T>>) -> Step<Seq<T>> {
    match s {
        Step::Done { v, end } => Step::Done { v: pre + v, end },
        Step::Fail { msg, tok_err } => Step::Fail { msg, tok_err },
    }
}

proof fn lemma_step_prepend_empty<T>(s: Step<Seq<T>>)
    ensures
        step_prepend(Seq::empty(), s) == s,
{
    match s {
        Step::Done { v, end } => {
            assert(Seq::<T>::empty() + v =~= v);
        },
        Step::Fail { .. } => {
        },
    }
}

proof fn lemma_step_prepend_assoc<T>(a: Seq<T>, b: Seq<T>, s: Step<Seq<T>>)
    ensures
        step_prepend(a, step_prepend(b, s)) == step_prepend(a + b, s),
{
    match s {
        Step::Done { v, end } => {
            assert(a + (b + v) =~= (a + b) + v);
        },
        Step::Fail { .. } => {
        },
    }
}

/// The column-option list of a column definition, read with the given fuel:
/// options of the generic grammar, each optionally under `CONSTRAINT
/// <name>`, until none follows.
pub open spec fn spec_step_colopts_fueled(
    lex: Seq<LexemeV>,
    sql: Seq<sqlparser::tokenizer::Token>,
    pos: int,
    fuel: nat,
) -> Step<()>
    decreases fuel,
{
    if fuel == 0 {
        Step::Fail { msg: None, tok_err: false }
    } else if spec_is_kw(spec_peek(lex, pos), "CONSTRAINT"@) {
        let p1 = spec_advance(lex, pos);
        match spec_parse_identifier(lex, p1) {
            Parsed::Fail { msg, tok_err, .. } => Step::Fail { msg: Some(msg), tok_err },
            Parsed::Done { end, .. } => {
                let oc = spec_column_option_parse(sql, end);
                let p2 = spec_jump(lex.len() as int, end, oc.consumed);
                if !oc.ok {
                    Step::Fail { msg: None, tok_err: false }
                } else if oc.found {
                    spec_step_colopts_fueled(lex, sql, p2, (fuel - 1) as nat)
                } else {
                    Step::Fail {
                        msg: Some(
                            spec_expected_msg(
                                "constraint details after CONSTRAINT <name>"@,
                                spec_peek(lex, p2),
                            ),
                        ),
                        tok_err: false,
                    }
                }
            },
        }
    } else {
        let oc = spec_column_option_parse(sql, pos);
        let p2 = spec_jump(lex.len() as int, pos, oc.consumed);
        if !oc.ok {
            Step::Fail { msg: None, tok_err: false }
        } else if oc.found {
            spec_step_colopts_fueled(lex, sql, p2, (fuel - 1) as nat)
        } else {
            Step::Done { v: (), end: p2 }
        }
    }
}

/// The column-option list of a column definition.
pub open spec fn spec_step_colopts(
    lex: Seq<LexemeV>,
    sql: Seq<sqlparser::tokenizer::Token>,
    pos: int,
) -> Step<()> {
    spec_step_colopts_fueled(lex, sql, pos, spec_fuel(lex.len() as int, pos))
}

/// One column definition: its name, its data type (read by the generic
/// grammar), an optional `COLLATE` name, and its column options. The value
/// is the column's name.
pub open spec fn spec_step_column_def(
    lex: Seq<LexemeV>,
    sql: Seq<sqlparser::tokenizer::Token>,
    pos: int,
) -> Step<IdentV> {
    match spec_parse_identifier(lex, pos) {
        Parsed::Fail { msg, tok_err, .. } => Step::Fail { msg: Some(msg), tok_err },
        Parsed::Done { v: name, end } => {
            let dt = spec_data_type_parse(sql, end);
            if !dt.ok {
                Step::Fail { msg: None, tok_err: false }
            } else {
                let p1 = spec_jump(lex.len() as int, end, dt.consumed);
                if spec_is_kw(spec_peek(lex, p1), "COLLATE"@) {
                    match spec_parse_object_name(lex, spec_advance(lex, p1)) {
                        Parsed::Fail { msg, tok_err, .. } => Step::Fail { msg: Some(msg), tok_err },
                        Parsed::Done { end: p3, .. } => match spec_step_colopts(lex, sql, p3) {
                            Step::Fail { msg, tok_err } => Step::Fail { msg, tok_err },
                            Step::Done { end: p4, .. } => Step::Done { v: name, end: p4 },
                        },
                    }
                } else {
                    match spec_step_colopts(lex, sql, p1) {
                        Step::Fail { msg, tok_err } => Step::Fail { msg, tok_err },
                        Step::Done { end: p4, .. } => Step::Done { v: name, end: p4 },
                    }
                }
            }
        },
    }
}

/// The items of a column list, read with the given fuel: table constraints
/// (read by the generic grammar) and column definitions, comma-separated, a
/// trailing comma tolerated, closed by `)`. The value is the column names,
/// in order.
pub open spec fn spec_step_columns_items_fueled(
    lex: Seq<LexemeV>,
    sql: Seq<sqlparser::tokenizer::Token>,
    pos: int,
    fuel: nat,
) -> Step<Seq<IdentV>>
    decreases fuel,
{
    if fuel == 0 {
        Step::Fail { msg: None, tok_err: false }
    } else {
        let tc = spec_table_constraint_parse(sql, pos);
        if !tc.ok {
            Step::Fail { msg: None, tok_err: false }
        } else {
            let p1 = spec_jump(lex.len() as int, pos, tc.consumed);
            if tc.found {
                let comma = spec_peek(lex, p1) is Comma;
                let p2 = if comma {
                    spec_advance(lex, p1)
                } else {
                    p1
                };
                if spec_peek(lex, p2) is RParen {
                    Step::Done { v: Seq::empty(), end: spec_advance(lex, p2) }
                } else if !comma {
                    Step::Fail {
                        msg: Some(
                            spec_expected_msg(
                                "',' or ')' after column definition"@,
                                spec_peek(lex, p2),
                            ),
                        ),
                        tok_err: false,
                    }
                } else {
                    spec_step_columns_items_fueled(lex, sql, p2, (fuel - 1) as nat)
                }
            } else if spec_peek(lex, p1) is Word {
                match spec_step_column_def(lex, sql, p1) {
                    Step::Fail { msg, tok_err } => Step::Fail { msg, tok_err },
                    Step::Done { v: name, end: p2 } => {
                        let comma = spec_peek(lex, p2) is Comma;
                        let p3 = if comma {
                            spec_advance(lex, p2)
                        } else {
                            p2
                        };
                        if spec_peek(lex, p3) is RParen {
                            Step::Done { v: seq![name], end: spec_advance(lex, p3) }
                        } else if !comma {
                            Step::Fail {
                                msg: Some(
                                    spec_expected_msg(
                                        "',' or ')' after column definition"@,
                                        spec_peek(lex, p3),
                                    ),
                                ),
                                tok_err: false,
                            }
                        } else {
                            step_prepend(
                                seq![name],
                                spec_step_columns_items_fueled(lex, sql, p3, (fuel - 1) as nat),
                            )
                        }
                    },
                }
            } else {
                Step::Fail {
                    msg: Some(
                        spec_expected_msg(
                            "column name or constraint definition"@,
                            spec_peek(lex, p1),
                        ),
                    ),
                    tok_err: false,
                }
            }
        }
    }
}

/// A column list: absent or empty parentheses yield nothing; otherwise the
/// items until the closing `)`.
pub open spec fn spec_step_columns(
    lex: Seq<LexemeV>,
    sql: Seq<sqlparser::tokenizer::Token>,
    pos: int,
) -> Step<Seq<IdentV>> {
    if !(spec_peek(lex, pos) is LParen) {
        Step::Done { v: Seq::empty(), end: pos }
    } else {
        let p1 = spec_advance(lex, pos);
        if spec_peek(lex, p1) is RParen {
            Step::Done { v: Seq::empty(), end: spec_advance(lex, p1) }
        } else {
            spec_step_columns_items_fueled(lex, sql, p1, spec_fuel(lex.len() as int, p1))
        }
    }
}

/// The value of a parsed `CREATE EXTERNAL TABLE` statement: every clause
/// value, and the column names.
pub struct CetV {
    pub name: Seq<char>,
    pub columns: Seq<IdentV>,
    pub file_type: Seq<char>,
    pub has_header: bool,
    pub delimiter: char,
    pub compression: CompressionTypeVariant,
    pub partitions: Seq<Seq<char>>,
    pub options: Seq<(Seq<char>, Seq<char>)>,
    pub location: Seq<char>,
    pub if_not_exists: bool,
}

/// The value of a parsed statement: a standard statement of the generic
/// grammar (carried through unread), or one of the extension statements.
pub enum StmtV {
    Standard,
    CreateExternalTable(CetV),
    DescribeTable(Seq<IdentV>),
}

/// One dispatched item: a statement with its location record, or a `USE`
/// request.
pub enum ItemV {
    Statement(StmtV, crate::ast::MetaV),
    Use { catalog: Seq<char>, schema: Seq<char>, table: Seq<char> },
}

/// The value of a `CREATE EXTERNAL TABLE` statement.
pub open spec fn cet_view(c: crate::ast::CreateExternalTable) -> CetV {
    CetV {
        name: c.name@,
        columns: c.columns@.map_values(|cd: crate::ast::ColumnDef| cd.name@),
        file_type: c.file_type@,
        has_header: c.has_header,
        delimiter: c.delimiter,
        compression: c.file_compression_type,
        partitions: c.table_partition_cols.deep_view(),
        options: c.options.deep_view(),
        location: c.location@,
        if_not_exists: c.if_not_exists,
    }
}

/// The value of a parsed statement.
pub open spec fn stmt_view(s: DfStatement) -> StmtV {
    match s {
        DfStatement::Statement(_) => StmtV::Standard,
        DfStatement::CreateExternalTable(c) => StmtV::CreateExternalTable(cet_view(c)),
        DfStatement::DescribeTable(d) => StmtV::DescribeTable(d.table_name@),
    }
}

/// The value of a dispatched item.
pub open spec fn item_view(i: ParsedItem) -> ItemV {
    match i {
        ParsedItem::Statement(s, m) => ItemV::Statement(stmt_view(s), m@),
        ParsedItem::Use { catalog, schema, table } => ItemV::Use {
            catalog: catalog@,
            schema: schema@,
            table: table@,
        },
    }
}

/// The values of a sequence of dispatched items.
pub open spec fn items_view(items: Seq<ParsedItem>) -> Seq<ItemV> {
    items.map_values(|i: ParsedItem| item_view(i))
}

/// The statements among a sequence of dispatched items, in order.
pub open spec fn spec_statements_only(items: Seq<ItemV>) -> Seq<StmtV>
    decreases items.len(),
{
    if items.len() == 0 {
        Seq::empty()
    } else {
        spec_statements_only(items.drop_last()) + (match items.last() {
            ItemV::Statement(sv, _) => seq![sv],
            ItemV::Use { .. } => Seq::<StmtV>::empty(),
        })
    }
}

/// A `DESCRIBE` statement's target and location record: an object name,
/// resolved against the defaults; a name of more than three parts is
/// unsupported.
pub open spec fn spec_step_describe(lex: Seq<LexemeV>, pos: int, filename: Seq<char>) -> Step<
    (StmtV, crate::ast::MetaV),
> {
    match spec_parse_object_name(lex, pos) {
        Parsed::Fail { msg, tok_err, .. } => Step::Fail { msg: Some(msg), tok_err },
        Parsed::Done { v, end } => {
            let shown = crate::ast::spec_display_object_name(v);
            match crate::ast::spec_resolve_meta(shown, filename) {
                None => Step::Fail {
                    msg: Some(crate::ast::spec_unsupported_arity_message(shown)),
                    tok_err: false,
                },
                Some(meta) => Step::Done { v: (StmtV::DescribeTable(v), meta), end },
            }
        },
    }
}

/// A whole `CREATE EXTERNAL TABLE` statement (the `CREATE EXTERNAL` words
/// already consumed): `TABLE`, optional `IF NOT EXISTS`, the table name,
/// the column list, then the clause values of `spec_parse_cet_tail`, with
/// the location record resolved from the written name.
pub open spec fn spec_step_cet(
    lex: Seq<LexemeV>,
    sql: Seq<sqlparser::tokenizer::Token>,
    pos: int,
    filename: Seq<char>,
) -> Step<(CetV, crate::ast::MetaV)> {
    if !spec_is_kw(spec_peek(lex, pos), "TABLE"@) {
        Step::Fail { msg: Some(spec_expected_msg("TABLE"@, spec_peek(lex, pos))), tok_err: false }
    } else {
        let p1 = spec_advance(lex, pos);
        let ine = spec_kw3(lex, p1, "IF"@, "NOT"@, "EXISTS"@) is Some;
        let p2 = match spec_kw3(lex, p1, "IF"@, "NOT"@, "EXISTS"@) {
            Some(q) => q,
            None => p1,
        };
        match spec_parse_object_name(lex, p2) {
            Parsed::Fail { msg, tok_err, .. } => Step::Fail { msg: Some(msg), tok_err },
            Parsed::Done { v: nv, end: p3 } => match spec_step_columns(lex, sql, p3) {
                Step::Fail { msg, tok_err } => Step::Fail { msg, tok_err },
                Step::Done { v: colnames, end: p4 } => match spec_parse_cet_tail(lex, p4) {
                    Parsed::Fail { msg, tok_err, .. } => Step::Fail { msg: Some(msg), tok_err },
                    Parsed::Done { v: tv, end: p5 } => {
                        let name = crate::ast::spec_display_object_name(nv);
                        match crate::ast::spec_resolve_meta(name, filename) {
                            None => Step::Fail {
                                msg: Some(crate::ast::spec_unsupported_arity_message(name)),
                                tok_err: false,
                            },
                            Some(meta) => Step::Done {
                                v: (
                                    CetV {
                                        name,
                                        columns: colnames,
                                        file_type: tv.file_type,
                                        has_header: tv.has_header,
                                        delimiter: tv.delimiter,
                                        compression: tv.compression,
                                        partitions: tv.partitions,
                                        options: tv.options,
                                        location: tv.location,
                                        if_not_exists: ine,
                                    },
                                    meta,
                                ),
                                end: p5,
                            },
                        }
                    },
                },
            },
        }
    }
}

/// A `CREATE` statement (the `CREATE` word already consumed): the extension
/// grammar for `CREATE EXTERNAL TABLE`; anything else is read by the
/// generic grammar, with the location record resolved from the statement's
/// object name.
pub open spec fn spec_step_create(
    lex: Seq<LexemeV>,
    sql: Seq<sqlparser::tokenizer::Token>,
    pos: int,
    filename: Seq<char>,
) -> Step<(StmtV, crate::ast::MetaV)> {
    if spec_is_kw(spec_peek(lex, pos), "EXTERNAL"@) {
        match spec_step_cet(lex, sql, spec_advance(lex, pos), filename) {
            Step::Fail { msg, tok_err } => Step::Fail { msg, tok_err },
            Step::Done { v, end } => Step::Done {
                v: (StmtV::CreateExternalTable(v.0), v.1),
                end,
            },
        }
    } else {
        let oc = spec_create_parse(sql, pos);
        if !oc.ok {
            Step::Fail { msg: None, tok_err: false }
        } else {
            let end = spec_jump(lex.len() as int, pos, oc.consumed);
            let parts: Seq<IdentV> = match oc.name_parts {
                Some(pairs) => pairs.map_values(
                    |p: (Seq<char>, Option<char>)| IdentV { value: p.0, quote: p.1 },
                ),
                None => Seq::empty(),
            };
            match crate::ast::spec_resolve_meta_parts(parts, filename) {
                None => Step::Fail {
                    msg: Some(
                        crate::ast::spec_unsupported_arity_message(
                            crate::ast::spec_display_object_name(parts),
                        ),
                    ),
                    tok_err: false,
                },
                Some(meta) => Step::Done { v: (StmtV::Standard, meta), end },
            }
        }
    }
}

/// One statement: `CREATE` and `DESCRIBE` through the extension grammar; a
/// query handed to the generic grammar; anything else a standard statement
/// of the generic grammar. A standard statement's location record names the
/// default catalog and schema with no table.
pub open spec fn spec_step_statement(
    lex: Seq<LexemeV>,
    sql: Seq<sqlparser::tokenizer::Token>,
    pos: int,
    filename: Seq<char>,
) -> Step<(StmtV, crate::ast::MetaV)> {
    let t = spec_peek(lex, pos);
    if spec_is_kw(t, "CREATE"@) {
        spec_step_create(lex, sql, spec_advance(lex, pos), filename)
    } else if spec_is_kw(t, "DESCRIBE"@) {
        spec_step_describe(lex, spec_advance(lex, pos), filename)
    } else if spec_is_kw(t, "SELECT"@) || spec_is_kw(t, "WITH"@) || spec_is_kw(t, "VALUES"@) {
        let oc = spec_query_parse(sql, pos);
        if !oc.ok {
            Step::Fail { msg: None, tok_err: false }
        } else {
            Step::Done {
                v: (StmtV::Standard, spec_default_meta(filename)),
                end: spec_jump(lex.len() as int, pos, oc.consumed),
            }
        }
    } else {
        let oc = spec_statement_parse(sql, pos);
        if !oc.ok {
            Step::Fail { msg: None, tok_err: false }
        } else {
            Step::Done {
                v: (StmtV::Standard, spec_default_meta(filename)),
                end: spec_jump(lex.len() as int, pos, oc.consumed),
            }
        }
    }
}

/// The location record of a statement without an object name: the default
/// catalog and schema, no table.
pub open spec fn spec_default_meta(filename: Seq<char>) -> crate::ast::MetaV {
    crate::ast::MetaV {
        catalog: "sdf"@,
        schema: "public"@,
        table: Seq::empty(),
        line_number: 0,
        filename,
    }
}

/// The statement dispatcher, read with the given fuel: statements separated
/// by semicolons, empty statements ignored, `USE` read as a resolution
/// request (or skipped outside a catalog context), until end of input. A
/// missing separator between statements fails with `Expected End of
/// statement`.
pub open spec fn spec_step_statements_fueled(
    lex: Seq<LexemeV>,
    sql: Seq<sqlparser::tokenizer::Token>,
    pos: int,
    expecting: bool,
    catalog: Seq<char>,
    filename: Seq<char>,
    fuel: nat,
) -> Step<Seq<ItemV>>
    decreases fuel,
{
    if fuel == 0 {
        Step::Fail { msg: None, tok_err: false }
    } else {
        let t = spec_peek(lex, pos);
        if t is SemiColon {
            spec_step_statements_fueled(
                lex,
                sql,
                spec_advance(lex, pos),
                false,
                catalog,
                filename,
                (fuel - 1) as nat,
            )
        } else if t is Eof {
            Step::Done { v: Seq::empty(), end: pos }
        } else if expecting {
            Step::Fail { msg: Some(spec_expected_msg("End of statement"@, t)), tok_err: false }
        } else if t is Word {
            if spec_is_kw(t, "USE"@) {
                match spec_parse_use_scope(lex, spec_advance(lex, pos)) {
                    Parsed::Fail { msg, tok_err, .. } => Step::Fail { msg: Some(msg), tok_err },
                    Parsed::Done { v: scope, end } => {
                        let items: Seq<ItemV> = if catalog.len() == 0 {
                            Seq::empty()
                        } else {
                            seq![
                                ItemV::Use {
                                    catalog: scope.catalog,
                                    schema: scope.schema,
                                    table: scope.table,
                                },
                            ]
                        };
                        step_prepend(
                            items,
                            spec_step_statements_fueled(
                                lex,
                                sql,
                                end,
                                true,
                                catalog,
                                filename,
                                (fuel - 1) as nat,
                            ),
                        )
                    },
                }
            } else {
                match spec_step_statement(lex, sql, pos, filename) {
                    Step::Fail { msg, tok_err } => Step::Fail { msg, tok_err },
                    Step::Done { v, end } => step_prepend(
                        seq![ItemV::Statement(v.0, v.1)],
                        spec_step_statements_fueled(
                            lex,
                            sql,
                            end,
                            true,
                            catalog,
                            filename,
                            (fuel - 1) as nat,
                        ),
                    ),
                }
            }
        } else {
            Step::Fail { msg: Some(spec_expected_msg("End of statement"@, t)), tok_err: false }
        }
    }
}

/// The statement dispatcher over a whole stream.
pub open spec fn spec_step_statements(
    lex: Seq<LexemeV>,
    sql: Seq<sqlparser::tokenizer::Token>,
    pos: int,
    expecting: bool,
    catalog: Seq<char>,
    filename: Seq<char>,
) -> Step<Seq<ItemV>> {
    spec_step_statements_fueled(
        lex,
        sql,
        pos,
        expecting,
        catalog,
        filename,
        spec_fuel(lex.len() as int, pos),
    )
}


} // verus!
