//! The statement representations the parser produces: the extension DDL
//! statements, the location record attached to every statement, and the
//! identifier model used for qualified names.
use vstd::prelude::*;
use crate::compression::CompressionTypeVariant;
use crate::errors::ParseError;
use crate::strutil::char_string;
use crate::strutil::i32_to_string;
use crate::strutil::spec_decimal;
use crate::strutil::split_seq;
use crate::strutil::split_str;
use crate::tokens::spec_end_quote;

verus! {

/// A simple identifier: its value without quotes, and its quote character
/// when it was written quoted.
#[derive(Debug)]
pub struct Ident {
    pub value: String,
    pub quote: Option<char>,
}

/// The mathematical value of an identifier.
pub struct IdentV {
    pub value: Seq<char>,
    pub quote: Option<char>,
}

impl View for Ident {
    type V = IdentV;

    open spec fn view(&self) -> IdentV {
        IdentV { value: self.value@, quote: self.quote }
    }
}

impl DeepView for Ident {
    type V = IdentV;

    open spec fn deep_view(&self) -> IdentV {
        self.view()
    }
}

/// The written form of an identifier: quoted when it carries a quote.
pub open spec fn spec_display_ident(i: IdentV) -> Seq<char> {
    match i.quote {
        Some(q) => seq![q] + i.value + seq![spec_end_quote(q)],
        None => i.value,
    }
}

impl Ident {
    /// An exact copy of the identifier.
    pub fn dup(&self) -> (r: Ident)
        ensures
            r@ == self@,
    {
        Ident { value: self.value.clone(), quote: self.quote }
    }

    /// The written form of the identifier: quoted when it carries a quote.
    pub fn to_display_string(&self) -> (r: String)
        ensures
            r@ == spec_display_ident(self@),
    {
        match self.quote {
            Some(q) => {
                let mut out = char_string(q);
                out.append(self.value.as_str());
                crate::strutil::push_char(&mut out, crate::tokens::end_quote_exec(q));
                proof {
                    assert(out@ =~= seq![q] + self.value@ + seq![spec_end_quote(q)]);
                }
                out
            },
            None => self.value.clone(),
        }
    }
}

/// A possibly qualified object name: one or more identifiers joined by `.`.
#[derive(Debug)]
pub struct ObjectName(pub Vec<Ident>);

/// The written form of an object name: its identifiers joined by `.`.
pub open spec fn spec_display_object_name(parts: Seq<IdentV>) -> Seq<char>
    decreases parts.len(),
{
    if parts.len() == 0 {
        Seq::empty()
    } else if parts.len() == 1 {
        spec_display_ident(parts[0])
    } else {
        spec_display_ident(parts[0]) + seq!['.'] + spec_display_object_name(parts.skip(1))
    }
}

impl View for ObjectName {
    type V = Seq<IdentV>;

    open spec fn view(&self) -> Seq<IdentV> {
        self.0.deep_view()
    }
}

impl ObjectName {
    /// The written form of the name: its identifiers joined by `.`.
    pub fn to_display_string(&self) -> (r: String)
        ensures
            r@ == spec_display_object_name(self@),
    {
        let n = self.0.len();
        if n == 0 {
            return String::new();
        }
        let mut out = self.0[0].to_display_string();
        let mut i: usize = 1;
        while i < n
            invariant
                1 <= i <= n,
                n == self.0.len(),
                out@ == spec_display_object_name(self@.take(i as int)),
            decreases n - i,
        {
            crate::strutil::push_char(&mut out, '.');
            let part = self.0[i].to_display_string();
            out.append(part.as_str());
            proof {
                lemma_display_object_name_push(self@.take(i as int), self@[i as int]);
                assert(self@.take(i + 1 as int) =~= self@.take(i as int).push(self@[i as int]));
            }
            i = i + 1;
        }
        proof {
            assert(self@.take(n as int) =~= self@);
        }
        out
    }
}

proof fn lemma_display_object_name_push(parts: Seq<IdentV>, last: IdentV)
    requires
        parts.len() >= 1,
    ensures
        spec_display_object_name(parts.push(last)) == spec_display_object_name(parts) + seq!['.']
            + spec_display_ident(last),
    decreases parts.len(),
{
    if parts.len() == 1 {
        let two = parts.push(last);
        assert(two.skip(1) =~= seq![last]);
        assert(spec_display_object_name(seq![last]) == spec_display_ident(seq![last][0]));
        assert(two[0] == parts[0]);
        assert(spec_display_object_name(two) == spec_display_ident(two[0]) + seq!['.']
            + spec_display_object_name(two.skip(1)));
        assert(spec_display_object_name(parts) == spec_display_ident(parts[0]));
    } else {
        assert(parts.push(last).skip(1) =~= parts.skip(1).push(last));
        lemma_display_object_name_push(parts.skip(1), last);
        assert(spec_display_object_name(parts.push(last)) =~= spec_display_object_name(parts)
            + seq!['.'] + spec_display_ident(last));
    }
}

/// A column definition: name, declared type, optional collation, and the
/// column options that follow. The declared type and each option are values
/// of the generic SQL grammar, carried through unread.
#[derive(Debug)]
pub struct ColumnDef {
    pub name: Ident,
    pub data_type: sqlparser::ast::DataType,
    pub collation: Option<ObjectName>,
    pub options: Vec<ColumnOptionDef>,
}

/// A column option together with the constraint name it was given, if any.
#[derive(Debug)]
pub struct ColumnOptionDef {
    pub name: Option<Ident>,
    pub option: sqlparser::ast::ColumnOption,
}

/// The extension DDL for `CREATE EXTERNAL TABLE`.
#[derive(Debug)]
pub struct CreateExternalTable {
    /// Table name, as written (possibly qualified).
    pub name: String,
    /// Column definitions, possibly empty.
    pub columns: Vec<ColumnDef>,
    /// File format tag, normalized to ASCII uppercase.
    pub file_type: String,
    /// Whether a CSV header row was declared.
    pub has_header: bool,
    /// Field delimiter for CSV; `,` when not declared.
    pub delimiter: char,
    /// Path or URI of the external data.
    pub location: String,
    /// Partition column names, in order.
    pub table_partition_cols: Vec<String>,
    /// Whether IF NOT EXISTS was written.
    pub if_not_exists: bool,
    /// Declared compression; UNCOMPRESSED when not declared.
    pub file_compression_type: CompressionTypeVariant,
    /// Table options: key/value pairs in written order. Read as a mapping
    /// (`spec_options_map`), a later pair for a key overrides an earlier
    /// one.
    pub options: Vec<(String, String)>,
}

/// The option pairs read as a mapping: a later pair for a key overrides an
/// earlier one.
pub open spec fn spec_options_map(pairs: Seq<(Seq<char>, Seq<char>)>) -> Map<Seq<char>, Seq<char>>
    decreases pairs.len(),
{
    if pairs.len() == 0 {
        Map::empty()
    } else {
        spec_options_map(pairs.drop_last()).insert(pairs.last().0, pairs.last().1)
    }
}

/// The serialized form of a `CREATE EXTERNAL TABLE` statement: it preserves
/// the table name, the format tag and the location.
pub open spec fn spec_display_cet(
    if_not_exists: bool,
    name: Seq<char>,
    file_type: Seq<char>,
    location: Seq<char>,
) -> Seq<char> {
    "CREATE EXTERNAL TABLE "@ + (if if_not_exists {
        "IF NOT EXISTS "@
    } else {
        Seq::<char>::empty()
    }) + name + " STORED AS "@ + file_type + " LOCATION "@ + location + " "@
}

impl CreateExternalTable {
    /// The value recorded for an option key, under the mapping reading of
    /// the option pairs: the last pair written for the key.
    pub fn option_value(&self, key: &str) -> (r: Option<String>)
        ensures
            match r {
                Some(v) => spec_options_map(self.options.deep_view()).contains_key(key@) && v@
                    == spec_options_map(self.options.deep_view())[key@],
                None => !spec_options_map(self.options.deep_view()).contains_key(key@),
            },
    {
        let n = self.options.len();
        let mut i: usize = n;
        proof {
            assert(self.options.deep_view().take(n as int) =~= self.options.deep_view());
        }
        while i > 0
            invariant
                n == self.options@.len(),
                i <= n,
                spec_options_map(self.options.deep_view()).contains_key(key@)
                    == spec_options_map(self.options.deep_view().take(i as int)).contains_key(
                    key@,
                ),
                spec_options_map(self.options.deep_view()).contains_key(key@)
                    ==> spec_options_map(self.options.deep_view())[key@] == spec_options_map(
                    self.options.deep_view().take(i as int),
                )[key@],
            decreases i,
        {
            i = i - 1;
            proof {
                assert(self.options.deep_view().take(i + 1 as int).drop_last()
                    =~= self.options.deep_view().take(i as int));
                assert(self.options.deep_view().take(i + 1 as int).last()
                    == self.options.deep_view()[i as int]);
            }
            if crate::strutil::eq_str(self.options[i].0.as_str(), key) {
                proof {
                    assert(self.options.deep_view()[i as int].0 == key@);
                }
                return Some(self.options[i].1.clone());
            }
            proof {
                assert(self.options.deep_view()[i as int].0 != key@);
            }
        }
        proof {
            assert(self.options.deep_view().take(0) =~= Seq::<(Seq<char>, Seq<char>)>::empty());
        }
        None
    }

    /// Serialize the statement: `CREATE EXTERNAL TABLE [IF NOT EXISTS]
    /// <name> STORED AS <format> LOCATION <location> `.
    pub fn to_display_string(&self) -> (r: String)
        ensures
            r@ == spec_display_cet(self.if_not_exists, self.name@, self.file_type@, self.location@),
    {
        let mut out = String::from_str("CREATE EXTERNAL TABLE ");
        if self.if_not_exists {
            out.append("IF NOT EXISTS ");
        }
        out.append(self.name.as_str());
        out.append(" STORED AS ");
        out.append(self.file_type.as_str());
        out.append(" LOCATION ");
        out.append(self.location.as_str());
        out.append(" ");
        proof {
            assert(out@ =~= spec_display_cet(
                self.if_not_exists,
                self.name@,
                self.file_type@,
                self.location@,
            ));
        }
        out
    }
}

/// The extension DDL for `DESCRIBE <table>`.
#[derive(Debug)]
pub struct DescribeTable {
    /// The described object's name.
    pub table_name: ObjectName,
}

impl DescribeTable {
    /// Serialize the statement: the described name itself.
    pub fn to_display_string(&self) -> (r: String)
        ensures
            r@ == spec_display_object_name(self.table_name@),
    {
        self.table_name.to_display_string()
    }
}

/// A parsed statement: a standard statement of the generic SQL grammar,
/// carried through unread, or one of the extension statements.
#[derive(Debug)]
pub enum DfStatement {
    /// A standard SQL statement.
    Statement(Box<sqlparser::ast::Statement>),
    /// The extension: `CREATE EXTERNAL TABLE`.
    CreateExternalTable(CreateExternalTable),
    /// The extension: `DESCRIBE <table>`.
    DescribeTable(DescribeTable),
}

impl DfStatement {
    /// Serialize the statement. For the extension statements the result is
    /// pinned exactly; a standard statement is rendered by the generic
    /// grammar.
    pub fn to_display_string(&self) -> (r: String)
        ensures
            self matches DfStatement::CreateExternalTable(c) ==> r@ == spec_display_cet(
                c.if_not_exists,
                c.name@,
                c.file_type@,
                c.location@,
            ),
            self matches DfStatement::DescribeTable(d) ==> r@ == spec_display_object_name(
                d.table_name@,
            ),
    {
        match self {
            DfStatement::Statement(s) => crate::sqlbridge::sql_statement_to_string(s),
            DfStatement::CreateExternalTable(c) => c.to_display_string(),
            DfStatement::DescribeTable(d) => d.to_display_string(),
        }
    }
}

/// The location at which a statement is defined: its qualified name scope,
/// originating file, and best-effort line number.
#[derive(Debug)]
pub struct StatementMeta {
    pub catalog: String,
    pub schema: String,
    pub table: String,
    pub line_number: i32,
    pub filename: String,
}

/// The rendered form of a statement location:
/// `<filename>:<line>:<catalog>.<schema>[.<table>]`.
pub open spec fn spec_display_meta(m: &StatementMeta) -> Seq<char> {
    m.filename@ + seq![':'] + spec_decimal(m.line_number as int) + seq![':'] + m.catalog@
        + seq!['.'] + m.schema@ + (if m.table@.len() == 0 {
        Seq::<char>::empty()
    } else {
        seq!['.'] + m.table@
    })
}

impl StatementMeta {
    /// An empty statement definition location.
    pub fn empty() -> (r: StatementMeta)
        ensures
            r.catalog@ == Seq::<char>::empty(),
            r.schema@ == Seq::<char>::empty(),
            r.table@ == Seq::<char>::empty(),
            r.line_number == 0,
            r.filename@ == Seq::<char>::empty(),
    {
        StatementMeta {
            catalog: String::new(),
            schema: String::new(),
            table: String::new(),
            line_number: 0,
            filename: String::new(),
        }
    }

    /// A statement definition location without line number, table or file.
    pub fn new(catalog: String, schema: String) -> (r: StatementMeta)
        ensures
            r.catalog@ == catalog@,
            r.schema@ == schema@,
            r.table@ == Seq::<char>::empty(),
            r.line_number == 0,
            r.filename@ == Seq::<char>::empty(),
    {
        StatementMeta {
            catalog,
            schema,
            table: String::new(),
            line_number: 0,
            filename: String::new(),
        }
    }

    /// A statement definition location without line number.
    pub fn new_with_table(catalog: String, schema: String, table: String, filename: String) -> (r:
        StatementMeta)
        ensures
            r.catalog@ == catalog@,
            r.schema@ == schema@,
            r.table@ == table@,
            r.line_number == 0,
            r.filename@ == filename@,
    {
        StatementMeta { catalog, schema, table, line_number: 0, filename }
    }

    /// The schema file name for this location, relative to the workspace:
    /// `<catalog>/<schema>.sql`.
    pub fn schema_filename(&self) -> (r: String)
        ensures
            r@ == self.catalog@ + seq!['/'] + self.schema@ + ".sql"@,
    {
        let mut out = self.catalog.clone();
        crate::strutil::push_char(&mut out, '/');
        out.append(self.schema.as_str());
        out.append(".sql");
        proof {
            assert(out@ =~= self.catalog@ + seq!['/'] + self.schema@ + ".sql"@);
        }
        out
    }

    /// Render the location as `<filename>:<line>:<catalog>.<schema>[.<table>]`.
    pub fn to_display_string(&self) -> (r: String)
        ensures
            r@ == spec_display_meta(self),
    {
        let mut out = self.filename.clone();
        crate::strutil::push_char(&mut out, ':');
        let line = i32_to_string(self.line_number);
        out.append(line.as_str());
        crate::strutil::push_char(&mut out, ':');
        out.append(self.catalog.as_str());
        crate::strutil::push_char(&mut out, '.');
        out.append(self.schema.as_str());
        if self.table.unicode_len() != 0 {
            crate::strutil::push_char(&mut out, '.');
            out.append(self.table.as_str());
        }
        proof {
            assert(out@ =~= spec_display_meta(self));
        }
        out
    }
}

/// The mathematical value of a statement location.
pub struct MetaV {
    pub catalog: Seq<char>,
    pub schema: Seq<char>,
    pub table: Seq<char>,
    pub line_number: int,
    pub filename: Seq<char>,
}

impl View for StatementMeta {
    type V = MetaV;

    open spec fn view(&self) -> MetaV {
        MetaV {
            catalog: self.catalog@,
            schema: self.schema@,
            table: self.table@,
            line_number: self.line_number as int,
            filename: self.filename@,
        }
    }
}

/// The location record a dotted name resolves to, against the default
/// catalog and schema: one part names a table, two a schema and table,
/// three all of catalog, schema and table; more than three parts is
/// unsupported.
pub open spec fn spec_resolve_meta(name: Seq<char>, filename: Seq<char>) -> Option<MetaV> {
    let parts = split_seq(name, '.');
    if parts.len() == 1 {
        Some(
            MetaV {
                catalog: "sdf"@,
                schema: "public"@,
                table: parts[0],
                line_number: 0,
                filename,
            },
        )
    } else if parts.len() == 2 {
        Some(
            MetaV { catalog: "sdf"@, schema: parts[0], table: parts[1], line_number: 0, filename },
        )
    } else if parts.len() == 3 {
        Some(
            MetaV {
                catalog: parts[0],
                schema: parts[1],
                table: parts[2],
                line_number: 0,
                filename,
            },
        )
    } else {
        None
    }
}

/// The location record an object name, given as identifier parts, resolves
/// to: as `spec_resolve_meta`, with an empty name resolving to the
/// placeholder table `N.N`.
pub open spec fn spec_resolve_meta_parts(parts: Seq<IdentV>, filename: Seq<char>) -> Option<
    MetaV,
> {
    if parts.len() == 0 {
        Some(
            MetaV {
                catalog: "sdf"@,
                schema: "public"@,
                table: "N.N"@,
                line_number: 0,
                filename,
            },
        )
    } else if parts.len() == 1 {
        Some(
            MetaV {
                catalog: "sdf"@,
                schema: "public"@,
                table: parts[0].value,
                line_number: 0,
                filename,
            },
        )
    } else if parts.len() == 2 {
        Some(
            MetaV {
                catalog: "sdf"@,
                schema: parts[0].value,
                table: parts[1].value,
                line_number: 0,
                filename,
            },
        )
    } else if parts.len() == 3 {
        Some(
            MetaV {
                catalog: parts[0].value,
                schema: parts[1].value,
                table: parts[2].value,
                line_number: 0,
                filename,
            },
        )
    } else {
        None
    }
}

/// The message reported for a qualified name of more than three parts.
pub open spec fn spec_unsupported_arity_message(name: Seq<char>) -> Seq<char> {
    "Unsupported identifier arity: "@ + name
}

/// Resolve a dotted table name against the default catalog and schema: one
/// part names a table, two parts a schema and table, three parts a catalog,
/// schema and table. More than three parts is unsupported and rejected.
pub fn meta_for_table_string(table: &str, filename: &str) -> (r: Result<StatementMeta, ParseError>)
    ensures
        ({
            match spec_resolve_meta(table@, filename@) {
                Some(mv) => r matches Ok(m) && m@ == mv,
                None => r matches Err(e) && (e matches ParseError::ParseError(msg) && msg@
                    == spec_unsupported_arity_message(table@)),
            }
        }),
{
    let parts = split_str(table, '.');
    let n = parts.len();
    if n == 1 {
        Ok(
            StatementMeta::new_with_table(
                String::from_str("sdf"),
                String::from_str("public"),
                parts[0].clone(),
                filename.to_owned(),
            ),
        )
    } else if n == 2 {
        Ok(
            StatementMeta::new_with_table(
                String::from_str("sdf"),
                parts[0].clone(),
                parts[1].clone(),
                filename.to_owned(),
            ),
        )
    } else if n == 3 {
        Ok(
            StatementMeta::new_with_table(
                parts[0].clone(),
                parts[1].clone(),
                parts[2].clone(),
                filename.to_owned(),
            ),
        )
    } else {
        let mut msg = String::from_str("Unsupported identifier arity: ");
        msg.append(table);
        Err(ParseError::ParseError(msg))
    }
}

/// Resolve an object name, given as identifier parts, against the default
/// catalog and schema, as `meta_for_table_string` does for a dotted name. An
/// empty name resolves to the placeholder table `N.N`.
pub fn meta_for_name_parts(parts: &Vec<Ident>, filename: &str) -> (r: Result<
    StatementMeta,
    ParseError,
>)
    ensures
        ({
            match spec_resolve_meta_parts(parts.deep_view(), filename@) {
                Some(mv) => r matches Ok(m) && m@ == mv,
                None => r matches Err(e) && (e matches ParseError::ParseError(msg) && msg@
                    == spec_unsupported_arity_message(
                        spec_display_object_name(parts.deep_view()),
                    )),
            }
        }),
{
    let n = parts.len();
    if n == 0 {
        Ok(
            StatementMeta::new_with_table(
                String::from_str("sdf"),
                String::from_str("public"),
                String::from_str("N.N"),
                filename.to_owned(),
            ),
        )
    } else if n == 1 {
        Ok(
            StatementMeta::new_with_table(
                String::from_str("sdf"),
                String::from_str("public"),
                parts[0].value.clone(),
                filename.to_owned(),
            ),
        )
    } else if n == 2 {
        Ok(
            StatementMeta::new_with_table(
                String::from_str("sdf"),
                parts[0].value.clone(),
                parts[1].value.clone(),
                filename.to_owned(),
            ),
        )
    } else if n == 3 {
        Ok(
            StatementMeta::new_with_table(
                parts[0].value.clone(),
                parts[1].value.clone(),
                parts[2].value.clone(),
                filename.to_owned(),
            ),
        )
    } else {
        let name = ObjectName(dup_idents(parts));
        let shown = name.to_display_string();
        let mut msg = String::from_str("Unsupported identifier arity: ");
        msg.append(shown.as_str());
        Err(ParseError::ParseError(msg))
    }
}

/// An exact copy of a vector of identifiers.
pub fn dup_idents(parts: &Vec<Ident>) -> (r: Vec<Ident>)
    ensures
        r.deep_view() == parts.deep_view(),
{
    let n = parts.len();
    let mut out: Vec<Ident> = Vec::new();
    let mut i: usize = 0;
    while i < n
        invariant
            i <= n,
            n == parts@.len(),
            out@.len() == i,
            forall|j: int| 0 <= j < i ==> out@[j]@ == parts@[j]@,
        decreases n - i,
    {
        out.push(parts[i].dup());
        i = i + 1;
    }
    proof {
        assert forall|j: int| 0 <= j < n implies out.deep_view()[j] == parts.deep_view()[j] by {
            assert(out@[j]@ == parts@[j]@);
        }
        assert(out.deep_view() =~= parts.deep_view());
    }
    out
}

} // verus!
