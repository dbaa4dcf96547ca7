//! The text of the generated conversion.

use vstd::prelude::*;
use crate::plan::{Access, MappedField, MappedFieldView, MappingPlan, MappingPlanView};
use crate::schema::{Generics, GenericsView};
use crate::text::{join, join_strings};

verus! {

/// What stands for one character inside a string literal.
pub open spec fn escape_char(c: char) -> Seq<char> {
    if c == '"' {
        "\\\""@
    } else if c == '\\' {
        "\\\\"@
    } else if c == '\n' {
        "\\n"@
    } else if c == '\r' {
        "\\r"@
    } else if c == '\t' {
        "\\t"@
    } else {
        seq![c]
    }
}

/// `text` with every character replaced by what stands for it inside a string
/// literal.
pub open spec fn escape_spec(text: Seq<char>) -> Seq<char>
    decreases text.len(),
{
    if text.len() == 0 {
        Seq::empty()
    } else {
        escape_spec(text.drop_last()) + escape_char(text.last())
    }
}

/// The string literal that denotes `text`.
pub open spec fn string_literal_spec(text: Seq<char>) -> Seq<char> {
    "\""@ + escape_spec(text) + "\""@
}

/// `String::push` of the standard library: the character is appended to the
/// end of the string, and nothing else changes.
#[verifier::external_body]
fn push_char(text: &mut String, c: char)
    ensures
        final(text)@ == old(text)@.push(c),
{
    text.push(c);
}

/// Writes the string literal that denotes `text`.
pub fn string_literal(text: &str) -> (r: String)
    ensures
        r@ == string_literal_spec(text@),
{
    let mut out = String::from_str("\"");
    for c in iter: text.chars()
        invariant
            iter.seq() == text@,
            out@ == "\""@ + escape_spec(text@.take(iter.index() as int)),
    {
        proof {
            let i = iter.index() as int;
            assert(text@.take(i + 1).drop_last() =~= text@.take(i));
        }
        if c == '"' {
            out.append("\\\"");
        } else if c == '\\' {
            out.append("\\\\");
        } else if c == '\n' {
            out.append("\\n");
        } else if c == '\r' {
            out.append("\\r");
        } else if c == '\t' {
            out.append("\\t");
        } else {
            push_char(&mut out, c);
        }
    }
    proof {
        assert(text@.take(text@.len() as int) =~= text@);
    }
    out.append("\"");
    out
}

/// The text that `escaped` stands for inside a string literal, read from the
/// left: a backslash and the character after it stand for one character, any
/// other character but a quote stands for itself. `None` where `escaped`
/// cannot stand inside a literal: a bare quote would end it, and a backslash
/// needs one of `"`, `\\`, `n`, `r`, `t` after it.
pub open spec fn unescape_spec(escaped: Seq<char>) -> Option<Seq<char>>
    decreases escaped.len(),
{
    if escaped.len() == 0 {
        Some(Seq::empty())
    } else if escaped[0] == '\\' {
        if escaped.len() < 2 {
            None
        } else {
            let c = escaped[1];
            let head = if c == '"' {
                Some('"')
            } else if c == '\\' {
                Some('\\')
            } else if c == 'n' {
                Some('\n')
            } else if c == 'r' {
                Some('\r')
            } else if c == 't' {
                Some('\t')
            } else {
                None
            };
            match (head, unescape_spec(escaped.skip(2))) {
                (Some(head), Some(rest)) => Some(seq![head] + rest),
                _ => None,
            }
        }
    } else if escaped[0] == '"' {
        None
    } else {
        match unescape_spec(escaped.skip(1)) {
            Some(rest) => Some(seq![escaped[0]] + rest),
            None => None,
        }
    }
}

/// The text that a string literal denotes: what stands between its two
/// quotes, read as above.
pub open spec fn literal_value_spec(literal: Seq<char>) -> Option<Seq<char>> {
    if literal.len() >= 2 && literal[0] == '"' && literal.last() == '"' {
        unescape_spec(literal.subrange(1, literal.len() - 1))
    } else {
        None
    }
}

/// Escaping goes character by character.
proof fn lemma_escape_concat(a: Seq<char>, b: Seq<char>)
    ensures
        escape_spec(a + b) == escape_spec(a) + escape_spec(b),
    decreases b.len(),
{
    if b.len() == 0 {
        assert(a + b =~= a);
        assert(escape_spec(a) + escape_spec(b) =~= escape_spec(a));
    } else {
        assert((a + b).drop_last() =~= a + b.drop_last());
        lemma_escape_concat(a, b.drop_last());
        assert(escape_spec(a + b) =~= escape_spec(a) + escape_spec(b));
    }
}

/// What stands for a character is read back as that character.
proof fn lemma_unescape_char(c: char, rest: Seq<char>)
    ensures
        unescape_spec(escape_char(c) + rest) == match unescape_spec(rest) {
            Some(text) => Some(seq![c] + text),
            None => None,
        },
{
    reveal_strlit("\\\"");
    reveal_strlit("\\\\");
    reveal_strlit("\\n");
    reveal_strlit("\\r");
    reveal_strlit("\\t");
    let escaped = escape_char(c) + rest;
    if c == '"' || c == '\\' || c == '\n' || c == '\r' || c == '\t' {
        assert(escaped.skip(2) =~= rest);
    } else {
        assert(escaped.skip(1) =~= rest);
    }
}

/// What stands for a text is read back as that text.
proof fn lemma_unescape_escape(text: Seq<char>, rest: Seq<char>)
    ensures
        unescape_spec(escape_spec(text) + rest) == match unescape_spec(rest) {
            Some(tail) => Some(text + tail),
            None => None,
        },
    decreases text.len(),
{
    if text.len() == 0 {
        assert(escape_spec(text) + rest =~= rest);
        if unescape_spec(rest) is Some {
            assert(text + unescape_spec(rest)->Some_0 =~= unescape_spec(rest)->Some_0);
        }
    } else {
        let first = seq![text[0]];
        let others = text.skip(1);
        assert(text =~= first + others);
        lemma_escape_concat(first, others);
        assert(first.drop_last() =~= Seq::<char>::empty());
        assert(escape_spec(Seq::<char>::empty()) =~= Seq::<char>::empty());
        assert(first.last() == text[0]);
        assert(escape_spec(first) =~= escape_char(text[0]));
        assert(escape_spec(text) + rest =~= escape_char(text[0]) + (escape_spec(others) + rest));
        lemma_unescape_char(text[0], escape_spec(others) + rest);
        lemma_unescape_escape(others, rest);
        if unescape_spec(rest) is Some {
            let tail = unescape_spec(rest)->Some_0;
            assert(first + (others + tail) =~= text + tail);
        }
    }
}

/// The literal written for a text denotes that text and no other: what the
/// generated accessors return is the table name and the column lists as they
/// are.
pub proof fn lemma_literal_denotes_its_text(text: Seq<char>)
    ensures
        literal_value_spec(string_literal_spec(text)) == Some(text),
{
    reveal_strlit("\"");
    let literal = string_literal_spec(text);
    assert(literal.subrange(1, literal.len() - 1) =~= escape_spec(text));
    assert(escape_spec(text) + Seq::<char>::empty() =~= escape_spec(text));
    lemma_unescape_escape(text, Seq::empty());
    assert(text + Seq::<char>::empty() =~= text);
}

/// The initializer of one mapped field inside the record's constructor. A
/// column is fetched under the key made of the prefix and the field's name; a
/// nested record is delegated to its own mapper, which is handed the same row
/// and the same prefix. Either way a failure is passed on with `?`.
pub open spec fn initializer_spec(field: MappedFieldView) -> Seq<char> {
    match field.access {
        Access::Column => field.name + ": row.try_get::<&str, "@ + field.ty
            + ">(format!(\"{}{}\", prefix, "@ + string_literal_spec(field.name)
            + ").as_str())?"@,
        Access::Nested => field.name + ": <"@ + field.ty
            + ">::from_row_ref_prefixed(&row, prefix)?"@,
    }
}

/// The initializers of the mapped fields, in order, separated by commas.
pub open spec fn initializers_spec(fields: Seq<MappedFieldView>) -> Seq<char> {
    join(fields.map_values(|field: MappedFieldView| initializer_spec(field)), ", "@)
}

/// What takes the fields that are not mapped from the record's default
/// value; it follows the initializers, after a comma where there are any.
pub open spec fn default_fill_spec(fields: Seq<MappedFieldView>) -> Seq<char> {
    if fields.len() == 0 {
        "..Default::default()"@
    } else {
        ", ..Default::default()"@
    }
}

/// The expression that constructs the record. Where no field is excluded,
/// every field is written out and nothing else. Where one is, the mapped
/// fields are written out and the rest is taken from the record's default
/// value.
pub open spec fn constructor_spec(plan: MappingPlanView) -> Seq<char> {
    if plan.has_excluded {
        "Self { "@ + initializers_spec(plan.fields) + default_fill_spec(plan.fields) + " }"@
    } else {
        "Self { "@ + initializers_spec(plan.fields) + " }"@
    }
}

/// One entry point of the conversion: its header up to where the record is
/// constructed, and the construction.
pub open spec fn conversion_spec(header: Seq<char>, constructor: Seq<char>) -> Seq<char> {
    header + "Ok("@ + constructor + ") } "@
}

/// One accessor of the metadata: a function `name` that returns `value`.
pub open spec fn accessor_spec(name: Seq<char>, value: Seq<char>) -> Seq<char> {
    "fn "@ + name + "() -> String { "@ + string_literal_spec(value) + ".to_string() } "@
}

/// The header of the conversion from an owned row, with the empty prefix.
pub open spec fn from_row_header() -> Seq<char> {
    "fn from_row(row: tokio_postgres::row::Row) -> ::std::result::Result<Self, tokio_pg_mapper::Error> { let prefix = \"\"; "@
}

/// The header of the conversion from a borrowed row, with the empty prefix.
pub open spec fn from_row_ref_header() -> Seq<char> {
    "fn from_row_ref(row: &tokio_postgres::row::Row) -> ::std::result::Result<Self, tokio_pg_mapper::Error> { let prefix = \"\"; "@
}

/// The header of the conversion from a borrowed row under the caller's
/// prefix.
pub open spec fn from_row_ref_prefixed_header() -> Seq<char> {
    "fn from_row_ref_prefixed(row: &tokio_postgres::row::Row, prefix: &str) -> ::std::result::Result<Self, tokio_pg_mapper::Error> { "@
}

/// The first line of the `impl` block.
pub open spec fn impl_header_spec(name: Seq<char>, generics: GenericsView) -> Seq<char> {
    "impl "@ + generics.impl_generics + " tokio_pg_mapper::FromTokioPostgresRow for "@ + name
        + " "@ + generics.ty_generics + " "@ + generics.where_clause + " { "@
}

/// The whole `impl` block: three conversions that differ in their header
/// alone and share one constructor, and three accessors for the table and the
/// two column lists.
pub open spec fn impl_text_spec(
    name: Seq<char>,
    generics: GenericsView,
    plan: MappingPlanView,
) -> Seq<char> {
    let constructor = constructor_spec(plan);
    impl_header_spec(name, generics) + conversion_spec(from_row_header(), constructor)
        + conversion_spec(from_row_ref_header(), constructor) + conversion_spec(
        from_row_ref_prefixed_header(),
        constructor,
    ) + accessor_spec("sql_table"@, plan.table_name) + accessor_spec(
        "sql_table_fields"@,
        plan.qualified_columns,
    ) + accessor_spec("sql_fields"@, plan.bare_columns) + "}"@
}

/// Writes the initializer of one mapped field.
pub fn emit_initializer(field: &MappedField) -> (r: String)
    ensures
        r@ == initializer_spec(field.deep_view()),
{
    let mut out = field.name.clone();
    match field.access {
        Access::Column => {
            let key = string_literal(field.name.as_str());
            out.append(": row.try_get::<&str, ");
            out.append(field.ty.as_str());
            out.append(">(format!(\"{}{}\", prefix, ");
            out.append(key.as_str());
            out.append(").as_str())?");
        },
        Access::Nested => {
            out.append(": <");
            out.append(field.ty.as_str());
            out.append(">::from_row_ref_prefixed(&row, prefix)?");
        },
    }
    out
}

/// Writes the initializers of the mapped fields.
pub fn emit_initializers(fields: &Vec<MappedField>) -> (r: String)
    ensures
        r@ == initializers_spec(fields.deep_view()),
{
    let mut pieces: Vec<String> = Vec::new();
    let mut i: usize = 0;
    proof {
        assert(pieces.deep_view() =~= fields.deep_view().take(0).map_values(
            |field: MappedFieldView| initializer_spec(field),
        ));
    }
    while i < fields.len()
        invariant
            i <= fields.len(),
            pieces.deep_view() == fields.deep_view().take(i as int).map_values(
                |field: MappedFieldView| initializer_spec(field),
            ),
        decreases fields.len() - i,
    {
        let ghost before = pieces.deep_view();
        let piece = emit_initializer(&fields[i]);
        pieces.push(piece);
        proof {
            let all = fields.deep_view();
            assert(pieces.deep_view() =~= before.push(piece@));
            assert(all.take(i + 1) =~= all.take(i as int).push(fields[i as int].deep_view()));
            assert(pieces.deep_view() =~= all.take(i + 1).map_values(
                |field: MappedFieldView| initializer_spec(field),
            ));
        }
        i = i + 1;
    }
    proof {
        assert(fields.deep_view().take(fields.len() as int) =~= fields.deep_view());
    }
    join_strings(&pieces, ", ")
}

/// Writes the expression that constructs the record.
pub fn emit_constructor(plan: &MappingPlan) -> (r: String)
    ensures
        r@ == constructor_spec(plan.deep_view()),
{
    let initializers = emit_initializers(&plan.fields);
    let mut out = String::from_str("Self { ");
    out.append(initializers.as_str());
    if plan.has_excluded {
        if plan.fields.len() == 0 {
            out.append("..Default::default()");
        } else {
            out.append(", ..Default::default()");
        }
    }
    out.append(" }");
    out
}

/// Writes one entry point of the conversion.
pub fn emit_conversion(header: &str, constructor: &str) -> (r: String)
    ensures
        r@ == conversion_spec(header@, constructor@),
{
    let mut out = String::from_str(header);
    out.append("Ok(");
    out.append(constructor);
    out.append(") } ");
    out
}

/// Writes one accessor of the metadata.
pub fn emit_accessor(name: &str, value: &str) -> (r: String)
    ensures
        r@ == accessor_spec(name@, value@),
{
    let literal = string_literal(value);
    let mut out = String::from_str("fn ");
    out.append(name);
    out.append("() -> String { ");
    out.append(literal.as_str());
    out.append(".to_string() } ");
    out
}

/// Writes the `impl` block of the record `name` after `plan`.
pub fn emit_impl(name: &str, generics: &Generics, plan: &MappingPlan) -> (r: String)
    ensures
        r@ == impl_text_spec(name@, generics.deep_view(), plan.deep_view()),
{
    let constructor = emit_constructor(plan);
    let from_row = emit_conversion(
        "fn from_row(row: tokio_postgres::row::Row) -> ::std::result::Result<Self, tokio_pg_mapper::Error> { let prefix = \"\"; ",
        constructor.as_str(),
    );
    let from_row_ref = emit_conversion(
        "fn from_row_ref(row: &tokio_postgres::row::Row) -> ::std::result::Result<Self, tokio_pg_mapper::Error> { let prefix = \"\"; ",
        constructor.as_str(),
    );
    let from_row_ref_prefixed = emit_conversion(
        "fn from_row_ref_prefixed(row: &tokio_postgres::row::Row, prefix: &str) -> ::std::result::Result<Self, tokio_pg_mapper::Error> { ",
        constructor.as_str(),
    );
    let sql_table = emit_accessor("sql_table", plan.table_name.as_str());
    let sql_table_fields = emit_accessor("sql_table_fields", plan.qualified_columns.as_str());
    let sql_fields = emit_accessor("sql_fields", plan.bare_columns.as_str());
    let mut out = String::from_str("impl ");
    out.append(generics.impl_generics.as_str());
    out.append(" tokio_pg_mapper::FromTokioPostgresRow for ");
    out.append(name);
    out.append(" ");
    out.append(generics.ty_generics.as_str());
    out.append(" ");
    out.append(generics.where_clause.as_str());
    out.append(" { ");
    out.append(from_row.as_str());
    out.append(from_row_ref.as_str());
    out.append(from_row_ref_prefixed.as_str());
    out.append(sql_table.as_str());
    out.append(sql_table_fields.as_str());
    out.append(sql_fields.as_str());
    out.append("}");
    out
}

} // verus!
