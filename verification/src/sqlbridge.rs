//! The boundary to the generic SQL grammar (the `sqlparser` crate). The
//! tokenizer and the parsers for standard SQL constructs live there; each is
//! reached through a narrow trusted wrapper. Every outside call here is a
//! function of its arguments alone, so its outcome carries a name —
//! `spec_tokenize`, `spec_lexeme_of`, `spec_*_parse` — and each wrapper's
//! contract ties its result to that name: it succeeds exactly when the named
//! outcome says so, and reports how many tokens the generic grammar
//! consumed. What a delegated construct's value contains stays with the
//! generic grammar and is carried through unread.
use vstd::prelude::*;
use crate::errors::ParseError;
use crate::tokens::Lexeme;
use crate::tokens::LexemeV;
use sqlparser::tokenizer::Token as SqlToken;

verus! {

#[verifier::external_type_specification]
#[verifier::external_body]
pub struct ExSqlToken(sqlparser::tokenizer::Token);

#[verifier::external_type_specification]
#[verifier::external_body]
pub struct ExSqlStatement(sqlparser::ast::Statement);

#[verifier::external_type_specification]
#[verifier::external_body]
pub struct ExSqlQuery(sqlparser::ast::Query);

#[verifier::external_type_specification]
#[verifier::external_body]
pub struct ExSqlDataType(sqlparser::ast::DataType);

#[verifier::external_type_specification]
#[verifier::external_body]
pub struct ExSqlColumnOption(sqlparser::ast::ColumnOption);

#[verifier::external_type_specification]
#[verifier::external_body]
pub struct ExSqlTableConstraint(sqlparser::ast::TableConstraint);

#[verifier::external_type_specification]
#[verifier::external_body]
pub struct ExSqlParserError(sqlparser::parser::ParserError);

/// What the generic tokenizer produces for a text: its token sequence, or
/// nothing when the text does not tokenize. Deterministic in the text (the
/// dialect is fixed).
pub uninterp spec fn spec_tokenize(sql: Seq<char>) -> Option<Seq<sqlparser::tokenizer::Token>>;

/// The library token that mirrors one token of the generic grammar: a
/// function of that token alone.
pub uninterp spec fn spec_lexeme_of(t: sqlparser::tokenizer::Token) -> LexemeV;

/// The library's mirror of a whole token stream.
pub open spec fn spec_mirror(tokens: Seq<sqlparser::tokenizer::Token>) -> Seq<LexemeV> {
    tokens.map_values(|t: sqlparser::tokenizer::Token| spec_lexeme_of(t))
}

/// What one delegated parse of the generic grammar does at a position of a
/// token stream: whether it succeeds, whether it found its (optional)
/// construct, and how many tokens it consumed. A function of the tokens and
/// the position alone.
pub struct DelegateOutcome {
    /// The parse returns without error.
    pub ok: bool,
    /// For an optional construct: the parse found one. For a required
    /// construct this equals `ok`.
    pub found: bool,
    /// Tokens consumed, counted by the generic grammar's cursor.
    pub consumed: int,
}

/// What the generic grammar's `parse_data_type` does at a position.
pub uninterp spec fn spec_data_type_parse(
    tokens: Seq<sqlparser::tokenizer::Token>,
    start: int,
) -> DelegateOutcome;

/// What the generic grammar's `parse_optional_column_option` does at a
/// position.
pub uninterp spec fn spec_column_option_parse(
    tokens: Seq<sqlparser::tokenizer::Token>,
    start: int,
) -> DelegateOutcome;

/// What the generic grammar's `parse_optional_table_constraint` does at a
/// position.
pub uninterp spec fn spec_table_constraint_parse(
    tokens: Seq<sqlparser::tokenizer::Token>,
    start: int,
) -> DelegateOutcome;

/// What the generic grammar's `parse_query` does at a position.
pub uninterp spec fn spec_query_parse(
    tokens: Seq<sqlparser::tokenizer::Token>,
    start: int,
) -> DelegateOutcome;

/// What the generic grammar's `parse_statement` does at a position.
pub uninterp spec fn spec_statement_parse(
    tokens: Seq<sqlparser::tokenizer::Token>,
    start: int,
) -> DelegateOutcome;

/// What the generic grammar's `parse_create` does at a position: success,
/// tokens consumed, and the parsed statement's object name as plain (value,
/// quote) pairs — `None` for a statement without one. A function of the
/// tokens and the position alone.
pub struct CreateOutcome {
    /// The parse returns without error.
    pub ok: bool,
    /// Tokens consumed, counted by the generic grammar's cursor.
    pub consumed: int,
    /// The object name of the parsed statement, when it has one.
    pub name_parts: Option<Seq<(Seq<char>, Option<char>)>>,
}

/// What the generic grammar's `parse_create` does at a position.
pub uninterp spec fn spec_create_parse(
    tokens: Seq<sqlparser::tokenizer::Token>,
    start: int,
) -> CreateOutcome;

/// The object name of a statement of the generic grammar, as plain (value,
/// quote) pairs: a function of the statement alone; `None` for a statement
/// without one.
pub uninterp spec fn spec_object_name_of(stmt: sqlparser::ast::Statement) -> Option<
    Seq<(Seq<char>, Option<char>)>,
>;

/// Relies on the shape of sqlparser's error type: each variant is carried
/// over to the library's error type, message text unchanged.
#[verifier::external_body]
fn convert_error(e: sqlparser::parser::ParserError) -> (r: ParseError) {
    match e {
        sqlparser::parser::ParserError::TokenizerError(s) => ParseError::TokenizerError(s),
        sqlparser::parser::ParserError::ParserError(s) => ParseError::ParseError(s),
        sqlparser::parser::ParserError::RecursionLimitExceeded => {
            ParseError::RecursionLimitExceeded
        },
    }
}

/// Relies on sqlparser's Tokenizer with the generic SQL dialect: splits the
/// source text into the token sequence `spec_tokenize` names, or reports a
/// tokenizer error exactly when that name is `None`.
#[verifier::external_body]
pub fn tokenize_sql(sql: &str) -> (r: Result<Vec<sqlparser::tokenizer::Token>, ParseError>)
    ensures
        (r is Ok <==> spec_tokenize(sql@) is Some),
        r matches Ok(v) ==> Some(v@) == spec_tokenize(sql@),
        r matches Err(e) ==> e is TokenizerError,
{
    let dialect = sqlparser::dialect::GenericDialect {};
    let mut tokenizer = sqlparser::tokenizer::Tokenizer::new(&dialect, sql);
    match tokenizer.tokenize() {
        Ok(t) => Ok(t),
        Err(e) => Err(ParseError::TokenizerError(e.to_string())),
    }
}

/// Relies on the shape of sqlparser's token type: each token is mirrored
/// one-for-one into the library's token model, as `spec_lexeme_of` names it.
/// A word is marked `kw` when the tokenizer classified it as a SQL keyword;
/// tokens the extension grammar never inspects (among them the exotic
/// literal forms `E'…'` and `U&'…'`) keep only their display text.
#[verifier::external_body]
pub fn convert_token(t: &sqlparser::tokenizer::Token) -> (r: Lexeme)
    ensures
        r@ == spec_lexeme_of(*t),
{
    let kw_of = |w: &sqlparser::tokenizer::Word| !matches!(w.keyword, sqlparser::keywords::Keyword::NoKeyword);
    match t {
        SqlToken::Word(w) => Lexeme::Word { value: w.value.clone(), quote: w.quote_style, kw: kw_of(w) },
        SqlToken::SingleQuotedString(s) => Lexeme::SingleQuoted(s.clone()),
        SqlToken::DoubleQuotedString(s) => Lexeme::DoubleQuoted(s.clone()),
        SqlToken::Comma => Lexeme::Comma,
        SqlToken::Period => Lexeme::Period,
        SqlToken::LParen => Lexeme::LParen,
        SqlToken::RParen => Lexeme::RParen,
        SqlToken::SemiColon => Lexeme::SemiColon,
        SqlToken::Whitespace(_) => Lexeme::Whitespace,
        SqlToken::EOF => Lexeme::Eof,
        other => Lexeme::Other(other.to_string()),
    }
}

/// Relies on sqlparser's Parser::parse_data_type, run on the tokens from
/// `start`: parses one SQL data type. It succeeds exactly when
/// `spec_data_type_parse` says so, consuming that outcome's token count —
/// at least one token, so some token stood at `start`.
#[verifier::external_body]
pub fn delegate_data_type(tokens: &Vec<sqlparser::tokenizer::Token>, start: usize) -> (r: Result<
    (sqlparser::ast::DataType, usize),
    ParseError,
>)
    requires
        start <= tokens@.len(),
    ensures
        (r is Ok <==> spec_data_type_parse(tokens@, start as int).ok),
        r matches Ok(p) ==> p.1 as int == spec_data_type_parse(tokens@, start as int).consumed
            && p.1 >= 1 && start < tokens@.len(),
{
    let dialect = sqlparser::dialect::GenericDialect {};
    let mut p = sqlparser::parser::Parser::new(&dialect).with_tokens(tokens[start..].to_vec());
    match p.parse_data_type() {
        Ok(dt) => Ok((dt, p.index())),
        Err(e) => Err(convert_error(e)),
    }
}

/// Relies on sqlparser's Parser::parse_optional_column_option, run on the
/// tokens from `start`: parses one column option if one follows. It behaves
/// exactly as `spec_column_option_parse` says: finding one consumes at least
/// one token, so some token stood at `start`.
#[verifier::external_body]
pub fn delegate_column_option(tokens: &Vec<sqlparser::tokenizer::Token>, start: usize) -> (r:
    Result<(Option<sqlparser::ast::ColumnOption>, usize), ParseError>)
    requires
        start <= tokens@.len(),
    ensures
        (r is Ok <==> spec_column_option_parse(tokens@, start as int).ok),
        r matches Ok(p) ==> p.1 as int == spec_column_option_parse(tokens@, start as int).consumed
            && (p.0 is Some <==> spec_column_option_parse(tokens@, start as int).found) && (p.0
            is Some ==> p.1 >= 1 && start < tokens@.len()),
{
    let dialect = sqlparser::dialect::GenericDialect {};
    let mut p = sqlparser::parser::Parser::new(&dialect).with_tokens(tokens[start..].to_vec());
    match p.parse_optional_column_option() {
        Ok(opt) => {
            let n = p.index();
            Ok((opt, n))
        },
        Err(e) => Err(convert_error(e)),
    }
}

/// Relies on sqlparser's Parser::parse_optional_table_constraint, run on the
/// tokens from `start`: parses one table constraint if one follows. It
/// behaves exactly as `spec_table_constraint_parse` says: finding one
/// consumes at least one token, so some token stood at `start`.
#[verifier::external_body]
pub fn delegate_table_constraint(tokens: &Vec<sqlparser::tokenizer::Token>, start: usize) -> (r:
    Result<(Option<sqlparser::ast::TableConstraint>, usize), ParseError>)
    requires
        start <= tokens@.len(),
    ensures
        (r is Ok <==> spec_table_constraint_parse(tokens@, start as int).ok),
        r matches Ok(p) ==> p.1 as int == spec_table_constraint_parse(
            tokens@,
            start as int,
        ).consumed && (p.0 is Some <==> spec_table_constraint_parse(tokens@, start as int).found)
            && (p.0 is Some ==> p.1 >= 1 && start < tokens@.len()),
{
    let dialect = sqlparser::dialect::GenericDialect {};
    let mut p = sqlparser::parser::Parser::new(&dialect).with_tokens(tokens[start..].to_vec());
    match p.parse_optional_table_constraint() {
        Ok(opt) => {
            let n = p.index();
            Ok((opt, n))
        },
        Err(e) => Err(convert_error(e)),
    }
}

/// Relies on sqlparser's Parser::parse_query, run on the tokens from
/// `start`: parses one standard query. It succeeds exactly when
/// `spec_query_parse` says so, consuming that outcome's token count — at
/// least one token, so some token stood at `start`.
#[verifier::external_body]
pub fn delegate_query(tokens: &Vec<sqlparser::tokenizer::Token>, start: usize) -> (r: Result<
    (Box<sqlparser::ast::Query>, usize),
    ParseError,
>)
    requires
        start <= tokens@.len(),
    ensures
        (r is Ok <==> spec_query_parse(tokens@, start as int).ok),
        r matches Ok(p) ==> p.1 as int == spec_query_parse(tokens@, start as int).consumed && p.1
            >= 1 && start < tokens@.len(),
{
    let dialect = sqlparser::dialect::GenericDialect {};
    let mut p = sqlparser::parser::Parser::new(&dialect).with_tokens(tokens[start..].to_vec());
    match p.parse_query() {
        Ok(q) => Ok((q, p.index())),
        Err(e) => Err(convert_error(e)),
    }
}

/// Relies on sqlparser's Parser::parse_statement, run on the tokens from
/// `start`: parses one standard statement. It succeeds exactly when
/// `spec_statement_parse` says so, consuming that outcome's token count —
/// at least one token, so some token stood at `start`.
#[verifier::external_body]
pub fn delegate_statement(tokens: &Vec<sqlparser::tokenizer::Token>, start: usize) -> (r: Result<
    (sqlparser::ast::Statement, usize),
    ParseError,
>)
    requires
        start <= tokens@.len(),
    ensures
        (r is Ok <==> spec_statement_parse(tokens@, start as int).ok),
        r matches Ok(p) ==> p.1 as int == spec_statement_parse(tokens@, start as int).consumed
            && p.1 >= 1 && start < tokens@.len(),
{
    let dialect = sqlparser::dialect::GenericDialect {};
    let mut p = sqlparser::parser::Parser::new(&dialect).with_tokens(tokens[start..].to_vec());
    match p.parse_statement() {
        Ok(s) => Ok((s, p.index())),
        Err(e) => Err(convert_error(e)),
    }
}

/// Relies on sqlparser's Parser::parse_create, run on the tokens from
/// `start` (the position just after the CREATE keyword): parses the rest of
/// a standard CREATE statement. It succeeds exactly when `spec_create_parse`
/// says so, consuming that outcome's token count, and the returned
/// statement's object name is that outcome's name parts.
#[verifier::external_body]
pub fn delegate_create(tokens: &Vec<sqlparser::tokenizer::Token>, start: usize) -> (r: Result<
    (sqlparser::ast::Statement, usize),
    ParseError,
>)
    requires
        start <= tokens@.len(),
    ensures
        (r is Ok <==> spec_create_parse(tokens@, start as int).ok),
        r matches Ok(p) ==> p.1 as int == spec_create_parse(tokens@, start as int).consumed && p.1
            >= 1 && start < tokens@.len() && spec_object_name_of(p.0) == spec_create_parse(
            tokens@,
            start as int,
        ).name_parts,
{
    let dialect = sqlparser::dialect::GenericDialect {};
    let mut p = sqlparser::parser::Parser::new(&dialect).with_tokens(tokens[start..].to_vec());
    match p.parse_create() {
        Ok(s) => Ok((s, p.index())),
        Err(e) => Err(convert_error(e)),
    }
}

/// Relies on the shape of sqlparser's statement type: the object name of a
/// CREATE VIEW, CREATE TABLE or CREATE VIRTUAL TABLE statement, as the plain
/// (value, quote) pairs `spec_object_name_of` names; `None` for any other
/// statement.
#[verifier::external_body]
pub fn statement_object_name(stmt: &sqlparser::ast::Statement) -> (r: Option<
    Vec<(String, Option<char>)>,
>)
    ensures
        match r {
            Some(v) => spec_object_name_of(*stmt) matches Some(parts) && v.deep_view() == parts,
            None => spec_object_name_of(*stmt) is None,
        },
{
    let name = match stmt {
        sqlparser::ast::Statement::CreateView(v) => &v.name,
        sqlparser::ast::Statement::CreateTable(c) => &c.name,
        sqlparser::ast::Statement::CreateVirtualTable { name, .. } => name,
        _ => return None,
    };
    Some(name.0.iter().map(|part| match part {
        sqlparser::ast::ObjectNamePart::Identifier(i) => (i.value.clone(), i.quote_style),
        f => (f.to_string(), None),
    }).collect())
}

/// Relies on sqlparser's statement constructor: wraps a parsed query as a
/// standard query statement.
#[verifier::external_body]
pub fn make_query_statement(q: Box<sqlparser::ast::Query>) -> (r: sqlparser::ast::Statement) {
    sqlparser::ast::Statement::Query(q)
}

/// Relies on sqlparser's CreateTableBuilder: wraps a parsed query as a
/// standard CREATE TABLE .. AS statement named `catalog.schema.table`.
#[verifier::external_body]
pub fn make_create_table_statement(
    catalog: &str,
    schema: &str,
    table: &str,
    q: Box<sqlparser::ast::Query>,
) -> (r: sqlparser::ast::Statement) {
    let name = sqlparser::ast::ObjectName(vec![
        sqlparser::ast::ObjectNamePart::Identifier(sqlparser::ast::Ident::new(catalog)),
        sqlparser::ast::ObjectNamePart::Identifier(sqlparser::ast::Ident::new(schema)),
        sqlparser::ast::ObjectNamePart::Identifier(sqlparser::ast::Ident::new(table)),
    ]);
    let builder = sqlparser::ast::helpers::stmt_create_table::CreateTableBuilder::new(name);
    sqlparser::ast::Statement::CreateTable(builder.query(Some(q)).build())
}

/// Relies on sqlparser's Display for statements: the statement's SQL text.
#[verifier::external_body]
pub fn sql_statement_to_string(stmt: &sqlparser::ast::Statement) -> (r: String) {
    stmt.to_string()
}

} // verus!
