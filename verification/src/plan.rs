//! The mapping plan of a record: which fields are read from the row and how,
//! and the column lists that SQL text is built with.

use vstd::prelude::*;
use crate::classify::Classification;
use crate::schema::{FieldSchema, FieldSchemaView, RecordSchema, RecordSchemaView};
use crate::text::{join, join_strings};

verus! {

/// How the value of a mapped field is had from a row.
#[derive(Clone, Copy, Debug, PartialEq, Eq, Structural)]
pub enum Access {
    /// The value of the column whose name is the current prefix followed by
    /// the field's name, read as the field's type. A column that is missing
    /// or of another type is a failure of the conversion.
    Column,
    /// The nested record's own conversion, applied to the same row under the
    /// same prefix.
    Nested,
}

/// A field that is read from the row.
#[derive(Clone, Debug, PartialEq, Eq)]
pub struct MappedField {
    /// The field's name.
    pub name: String,
    /// The text of the field's type.
    pub ty: String,
    /// How the field's value is had.
    pub access: Access,
}

/// The mathematical view of a [`MappedField`].
pub struct MappedFieldView {
    pub name: Seq<char>,
    pub ty: Seq<char>,
    pub access: Access,
}

impl DeepView for MappedField {
    type V = MappedFieldView;

    open spec fn deep_view(&self) -> MappedFieldView {
        MappedFieldView { name: self.name@, ty: self.ty@, access: self.access }
    }
}

/// What generation works from, once the fields are partitioned.
#[derive(Clone, Debug, PartialEq, Eq)]
pub struct MappingPlan {
    /// The table that the record is read from.
    pub table_name: String,
    /// The mapped fields, in the order of their declaration.
    pub fields: Vec<MappedField>,
    /// The columns of the mapped fields, each written ` table.field `.
    pub qualified_columns: String,
    /// The columns of the mapped fields, each written ` field `.
    pub bare_columns: String,
    /// Whether the record has a field that is not mapped.
    pub has_excluded: bool,
}

/// The mathematical view of a [`MappingPlan`].
pub struct MappingPlanView {
    pub table_name: Seq<char>,
    pub fields: Seq<MappedFieldView>,
    pub qualified_columns: Seq<char>,
    pub bare_columns: Seq<char>,
    pub has_excluded: bool,
}

impl DeepView for MappingPlan {
    type V = MappingPlanView;

    open spec fn deep_view(&self) -> MappingPlanView {
        MappingPlanView {
            table_name: self.table_name@,
            fields: self.fields.deep_view(),
            qualified_columns: self.qualified_columns@,
            bare_columns: self.bare_columns@,
            has_excluded: self.has_excluded,
        }
    }
}

impl MappingPlanView {
    /// The two column lists are those of the plan's fields and table.
    pub open spec fn wf(self) -> bool {
        &&& self.qualified_columns == qualified_columns_spec(self.table_name, self.fields)
        &&& self.bare_columns == bare_columns_spec(self.fields)
    }
}

impl MappingPlan {
    /// The two column lists are those of the plan's fields and table.
    pub open spec fn wf(&self) -> bool {
        self.deep_view().wf()
    }
}

/// How a field of the given classification is read.
pub open spec fn access_spec(classification: Classification) -> Access {
    if classification == Classification::Flattened {
        Access::Nested
    } else {
        Access::Column
    }
}

/// A mapped field as the plan holds it.
pub open spec fn mapped_field_spec(field: FieldSchemaView) -> MappedFieldView {
    MappedFieldView { name: field.name, ty: field.ty, access: access_spec(field.classification) }
}

/// The mapped fields among `fields`: those classified `Mapped` or
/// `Flattened`, in the order of their declaration.
pub open spec fn mapped_part(fields: Seq<FieldSchemaView>) -> Seq<FieldSchemaView> {
    fields.filter(|field: FieldSchemaView| field.classification.is_mapped())
}

/// The fields of the plan of a record with the given fields.
pub open spec fn mapped_fields_spec(fields: Seq<FieldSchemaView>) -> Seq<MappedFieldView> {
    mapped_part(fields).map_values(|field: FieldSchemaView| mapped_field_spec(field))
}

/// A column as it stands in the bare list.
pub open spec fn bare_column(name: Seq<char>) -> Seq<char> {
    " "@ + name + " "@
}

/// A column as it stands in the qualified list.
pub open spec fn qualified_column(table_name: Seq<char>, name: Seq<char>) -> Seq<char> {
    " "@ + table_name + "."@ + name + " "@
}

/// The names of the fields of a plan.
pub open spec fn field_names(fields: Seq<MappedFieldView>) -> Seq<Seq<char>> {
    fields.map_values(|field: MappedFieldView| field.name)
}

/// The bare column list of the given names: each between two blanks, with
/// `, ` between neighbours.
pub open spec fn bare_list(names: Seq<Seq<char>>) -> Seq<char> {
    join(names.map_values(|name: Seq<char>| bare_column(name)), ", "@)
}

/// The qualified column list of the given names in the given table.
pub open spec fn qualified_list(table_name: Seq<char>, names: Seq<Seq<char>>) -> Seq<char> {
    join(names.map_values(|name: Seq<char>| qualified_column(table_name, name)), ", "@)
}

/// The bare column list of the given fields.
pub open spec fn bare_columns_spec(fields: Seq<MappedFieldView>) -> Seq<char> {
    bare_list(field_names(fields))
}

/// The qualified column list of the given fields.
pub open spec fn qualified_columns_spec(
    table_name: Seq<char>,
    fields: Seq<MappedFieldView>,
) -> Seq<char> {
    qualified_list(table_name, field_names(fields))
}

/// The plan of a record.
pub open spec fn plan_spec(schema: RecordSchemaView) -> MappingPlanView {
    let fields = mapped_fields_spec(schema.fields);
    MappingPlanView {
        table_name: schema.table_name,
        fields,
        qualified_columns: qualified_columns_spec(schema.table_name, fields),
        bare_columns: bare_columns_spec(fields),
        has_excluded: schema.fields.len() != fields.len(),
    }
}

/// How a field of the given classification is read.
pub fn access_of(classification: Classification) -> (r: Access)
    ensures
        r == access_spec(classification),
{
    match classification {
        Classification::Flattened => Access::Nested,
        _ => Access::Column,
    }
}

/// Keeps the mapped fields of a record, in the order of their declaration.
/// The fields have to be classified by their directives.
pub fn partition(fields: &Vec<FieldSchema>) -> (r: Vec<MappedField>)
    requires
        forall|i: int| 0 <= i < fields.len() ==> (#[trigger] fields[i]).wf(),
    ensures
        r.deep_view() == mapped_fields_spec(fields.deep_view()),
{
    let mut out: Vec<MappedField> = Vec::new();
    let mut i: usize = 0;
    proof {
        reveal(Seq::filter);
        assert(out.deep_view() =~= mapped_fields_spec(fields.deep_view().take(0)));
    }
    while i < fields.len()
        invariant
            i <= fields.len(),
            out.deep_view() == mapped_fields_spec(fields.deep_view().take(i as int)),
        decreases fields.len() - i,
    {
        let field = &fields[i];
        let ghost before = out.deep_view();
        proof {
            reveal(Seq::filter);
            let all = fields.deep_view();
            assert(all.take(i + 1).drop_last() =~= all.take(i as int));
            assert(all.take(i + 1).last() == field.deep_view());
        }
        if field.classification.mapped() {
            let mapped = MappedField {
                name: field.name.clone(),
                ty: field.ty.clone(),
                access: access_of(field.classification),
            };
            out.push(mapped);
            proof {
                assert(out.deep_view() =~= before.push(mapped.deep_view()));
                assert(out.deep_view() =~= mapped_fields_spec(fields.deep_view().take(i + 1)));
            }
        }
        i = i + 1;
    }
    proof {
        assert(fields.deep_view().take(fields.len() as int) =~= fields.deep_view());
    }
    out
}

/// Writes the bare column list of `fields`.
pub fn bare_columns(fields: &Vec<MappedField>) -> (r: String)
    ensures
        r@ == bare_columns_spec(fields.deep_view()),
{
    let mut pieces: Vec<String> = Vec::new();
    let mut i: usize = 0;
    proof {
        assert(pieces.deep_view() =~= field_names(fields.deep_view().take(0)).map_values(
            |name: Seq<char>| bare_column(name),
        ));
    }
    while i < fields.len()
        invariant
            i <= fields.len(),
            pieces.deep_view() == field_names(fields.deep_view().take(i as int)).map_values(
                |name: Seq<char>| bare_column(name),
            ),
        decreases fields.len() - i,
    {
        let ghost before = pieces.deep_view();
        let mut piece = String::from_str(" ");
        piece.append(fields[i].name.as_str());
        piece.append(" ");
        pieces.push(piece);
        proof {
            let all = fields.deep_view();
            assert(pieces.deep_view() =~= before.push(piece@));
            assert(all.take(i + 1) =~= all.take(i as int).push(fields[i as int].deep_view()));
            assert(pieces.deep_view() =~= field_names(all.take(i + 1)).map_values(
                |name: Seq<char>| bare_column(name),
            ));
        }
        i = i + 1;
    }
    proof {
        assert(fields.deep_view().take(fields.len() as int) =~= fields.deep_view());
    }
    join_strings(&pieces, ", ")
}

/// Writes the qualified column list of `fields` in the table `table_name`.
pub fn qualified_columns(table_name: &str, fields: &Vec<MappedField>) -> (r: String)
    ensures
        r@ == qualified_columns_spec(table_name@, fields.deep_view()),
{
    let mut pieces: Vec<String> = Vec::new();
    let mut i: usize = 0;
    proof {
        assert(pieces.deep_view() =~= field_names(fields.deep_view().take(0)).map_values(
            |name: Seq<char>| qualified_column(table_name@, name),
        ));
    }
    while i < fields.len()
        invariant
            i <= fields.len(),
            pieces.deep_view() == field_names(fields.deep_view().take(i as int)).map_values(
                |name: Seq<char>| qualified_column(table_name@, name),
            ),
        decreases fields.len() - i,
    {
        let ghost before = pieces.deep_view();
        let mut piece = String::from_str(" ");
        piece.append(table_name);
        piece.append(".");
        piece.append(fields[i].name.as_str());
        piece.append(" ");
        pieces.push(piece);
        proof {
            let all = fields.deep_view();
            assert(pieces.deep_view() =~= before.push(piece@));
            assert(all.take(i + 1) =~= all.take(i as int).push(fields[i as int].deep_view()));
            assert(pieces.deep_view() =~= field_names(all.take(i + 1)).map_values(
                |name: Seq<char>| qualified_column(table_name@, name),
            ));
        }
        i = i + 1;
    }
    proof {
        assert(fields.deep_view().take(fields.len() as int) =~= fields.deep_view());
    }
    join_strings(&pieces, ", ")
}

/// Draws up the plan of a record whose fields are classified by their
/// directives.
pub fn build_plan(schema: &RecordSchema) -> (r: MappingPlan)
    requires
        schema.wf(),
    ensures
        r.deep_view() == plan_spec(schema.deep_view()),
        r.wf(),
{
    proof {
        assert forall|i: int| 0 <= i < schema.fields.len() implies (
        #[trigger] schema.fields[i]).wf() by {
            assert(schema.deep_view().fields[i].wf());
        }
    }
    let fields = partition(&schema.fields);
    let qualified_columns = qualified_columns(schema.table_name.as_str(), &fields);
    let bare_columns = bare_columns(&fields);
    let has_excluded = schema.fields.len() != fields.len();
    MappingPlan {
        table_name: schema.table_name.clone(),
        fields,
        qualified_columns,
        bare_columns,
        has_excluded,
    }
}

} // verus!
