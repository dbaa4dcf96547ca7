//! Declarations, and the schemas they resolve to.
//!
//! A declaration is a record as it was written: names, types and annotations.
//! Resolving it reads the table name off the record's annotations and gives
//! every field its directives and its classification. A declaration that
//! cannot be resolved yields a failure and nothing else.

use vstd::prelude::*;
use crate::classify::{Classification, classify, classify_spec};
use crate::directive::{
    Annotation,
    AnnotationView,
    Directive,
    Value,
    ValueView,
    MetaItem,
    MetaItemView,
    field_directives,
    field_directives_spec,
    lemma_mapper_items_error,
    mapper_items,
    mapper_items_spec,
};
use crate::error::GenerationError;
use crate::text::text_is;

verus! {

/// The generic parameters of a record, as the three pieces of text that an
/// `impl` block for it needs.
#[derive(Clone, Debug, PartialEq, Eq)]
pub struct Generics {
    /// What follows `impl`: the parameters with their bounds.
    pub impl_generics: String,
    /// What follows the record's name: the parameters alone.
    pub ty_generics: String,
    /// The `where` clause, empty where the record has none.
    pub where_clause: String,
}

/// The mathematical view of [`Generics`].
pub struct GenericsView {
    pub impl_generics: Seq<char>,
    pub ty_generics: Seq<char>,
    pub where_clause: Seq<char>,
}

impl DeepView for Generics {
    type V = GenericsView;

    open spec fn deep_view(&self) -> GenericsView {
        GenericsView {
            impl_generics: self.impl_generics@,
            ty_generics: self.ty_generics@,
            where_clause: self.where_clause@,
        }
    }
}

impl Generics {
    /// A copy of these generics.
    pub fn duplicate(&self) -> (r: Generics)
        ensures
            r.deep_view() == self.deep_view(),
    {
        Generics {
            impl_generics: self.impl_generics.clone(),
            ty_generics: self.ty_generics.clone(),
            where_clause: self.where_clause.clone(),
        }
    }
}

/// A field as it was written.
#[derive(Clone, Debug, PartialEq, Eq)]
pub struct FieldDecl {
    /// The field's name; `None` for a field of a tuple record.
    pub name: Option<String>,
    /// The text of the field's type.
    pub ty: String,
    /// The annotations above the field.
    pub annotations: Vec<Annotation>,
}

/// The mathematical view of a [`FieldDecl`].
pub struct FieldDeclView {
    pub name: Option<Seq<char>>,
    pub ty: Seq<char>,
    pub annotations: Seq<AnnotationView>,
}

impl DeepView for FieldDecl {
    type V = FieldDeclView;

    open spec fn deep_view(&self) -> FieldDeclView {
        FieldDeclView {
            name: self.name.deep_view(),
            ty: self.ty@,
            annotations: self.annotations.deep_view(),
        }
    }
}

/// An item as it was written.
#[derive(Clone, Debug, PartialEq, Eq)]
pub struct ItemDecl {
    /// The item's name.
    pub name: String,
    /// The annotations above the item.
    pub annotations: Vec<Annotation>,
    /// The item's generic parameters.
    pub generics: Generics,
    /// The fields in the order of their declaration; `None` where the item is
    /// an enum or a union.
    pub fields: Option<Vec<FieldDecl>>,
}

/// The mathematical view of an [`ItemDecl`].
pub struct ItemDeclView {
    pub name: Seq<char>,
    pub annotations: Seq<AnnotationView>,
    pub generics: GenericsView,
    pub fields: Option<Seq<FieldDeclView>>,
}

impl DeepView for ItemDecl {
    type V = ItemDeclView;

    open spec fn deep_view(&self) -> ItemDeclView {
        ItemDeclView {
            name: self.name@,
            annotations: self.annotations.deep_view(),
            generics: self.generics.deep_view(),
            fields: self.fields.deep_view(),
        }
    }
}

/// A field with its directives read and its classification decided.
#[derive(Clone, Debug, PartialEq, Eq)]
pub struct FieldSchema {
    /// The field's name.
    pub name: String,
    /// The text of the field's type.
    pub ty: String,
    /// The directives the field carries.
    pub directives: Vec<Directive>,
    /// The classification that the directives amount to.
    pub classification: Classification,
}

/// The mathematical view of a [`FieldSchema`].
pub struct FieldSchemaView {
    pub name: Seq<char>,
    pub ty: Seq<char>,
    pub directives: Seq<Directive>,
    pub classification: Classification,
}

impl FieldSchemaView {
    /// The classification is the one that the directives amount to.
    pub open spec fn wf(self) -> bool {
        self.classification == classify_spec(self.directives)
    }
}

impl DeepView for FieldSchema {
    type V = FieldSchemaView;

    open spec fn deep_view(&self) -> FieldSchemaView {
        FieldSchemaView {
            name: self.name@,
            ty: self.ty@,
            directives: self.directives@,
            classification: self.classification,
        }
    }
}

impl FieldSchema {
    /// The classification is the one that the directives amount to.
    pub open spec fn wf(&self) -> bool {
        self.deep_view().wf()
    }

    /// A field with the given directives, classified by them.
    pub fn new(name: String, ty: String, directives: Vec<Directive>) -> (r: FieldSchema)
        ensures
            r.wf(),
            r.deep_view() == (FieldSchemaView {
                name: name@,
                ty: ty@,
                directives: directives@,
                classification: classify_spec(directives@),
            }),
    {
        let classification = classify(&directives);
        FieldSchema { name, ty, directives, classification }
    }
}

/// A record ready for mapping: its table is known and every field is
/// classified.
#[derive(Clone, Debug, PartialEq, Eq)]
pub struct RecordSchema {
    /// The record's name.
    pub name: String,
    /// The table that the record is read from.
    pub table_name: String,
    /// The record's generic parameters.
    pub generics: Generics,
    /// The fields in the order of their declaration.
    pub fields: Vec<FieldSchema>,
}

/// The mathematical view of a [`RecordSchema`].
pub struct RecordSchemaView {
    pub name: Seq<char>,
    pub table_name: Seq<char>,
    pub generics: GenericsView,
    pub fields: Seq<FieldSchemaView>,
}

impl RecordSchemaView {
    /// Every field is classified by its directives.
    pub open spec fn wf(self) -> bool {
        forall|i: int| 0 <= i < self.fields.len() ==> (#[trigger] self.fields[i]).wf()
    }
}

impl DeepView for RecordSchema {
    type V = RecordSchemaView;

    open spec fn deep_view(&self) -> RecordSchemaView {
        RecordSchemaView {
            name: self.name@,
            table_name: self.table_name@,
            generics: self.generics.deep_view(),
            fields: self.fields.deep_view(),
        }
    }
}

impl RecordSchema {
    /// Every field is classified by its directives.
    pub open spec fn wf(&self) -> bool {
        self.deep_view().wf()
    }
}

/// The text of a literal that has to be a string.
pub open spec fn get_lit_str_spec(lit: ValueView) -> Result<Seq<char>, GenerationError> {
    match lit {
        ValueView::Str(text) => Ok(text),
        ValueView::Other => Err(GenerationError::TableNotString),
    }
}

/// What one item of the record's mapper annotation says of the table: its
/// name where the item is `table = "name"`, and a failure for anything else.
pub open spec fn table_value_spec(item: MetaItemView) -> Result<Seq<char>, GenerationError> {
    match item {
        MetaItemView::Constant => Err(GenerationError::UnexpectedLiteral),
        MetaItemView::Word { .. } => Err(GenerationError::UnknownContainerAttribute),
        MetaItemView::NameValue { name, value } => if name == Some("table"@) {
            get_lit_str_spec(value)
        } else {
            Err(GenerationError::UnknownContainerAttribute)
        },
    }
}

/// The table that `items` name. The first item that is not `table = "name"`
/// decides the failure; where there is none, the last item gives the name;
/// where there is no item at all, the table is missing.
pub open spec fn table_name_spec(items: Seq<MetaItemView>) -> Result<Seq<char>, GenerationError>
    decreases items.len(),
{
    if items.len() == 0 {
        Err(GenerationError::MissingTable)
    } else {
        match table_name_spec(items.drop_last()) {
            Err(e) => if e == GenerationError::MissingTable {
                table_value_spec(items.last())
            } else {
                Err(e)
            },
            Ok(_) => table_value_spec(items.last()),
        }
    }
}

/// The table named by the annotations above a record.
pub open spec fn parse_table_attr_spec(annotations: Seq<AnnotationView>) -> Result<
    Seq<char>,
    GenerationError,
> {
    match mapper_items_spec(annotations) {
        Err(e) => Err(e),
        Ok(items) => table_name_spec(items),
    }
}

/// Whether a field among `fields` has a mapper annotation that cannot be read.
pub open spec fn has_malformed(fields: Seq<FieldDeclView>) -> bool {
    exists|i: int|
        0 <= i < fields.len() && (#[trigger] field_directives_spec(fields[i].annotations)) is Err
}

/// Whether a field among `fields` has no name.
pub open spec fn has_unnamed(fields: Seq<FieldDeclView>) -> bool {
    exists|i: int| 0 <= i < fields.len() && (#[trigger] fields[i]).name is None
}

/// The schema of one field whose annotations can be read and which has a name.
pub open spec fn field_schema_spec(field: FieldDeclView) -> FieldSchemaView {
    let directives = field_directives_spec(field.annotations)->Ok_0;
    FieldSchemaView {
        name: field.name->Some_0,
        ty: field.ty,
        directives,
        classification: classify_spec(directives),
    }
}

/// The schemas of the fields of a record, in the order of their declaration.
/// An annotation that cannot be read, on whichever field, is reported before
/// a field without a name.
pub open spec fn resolve_fields_spec(fields: Seq<FieldDeclView>) -> Result<
    Seq<FieldSchemaView>,
    GenerationError,
> {
    if has_malformed(fields) {
        Err(GenerationError::MalformedAnnotation)
    } else if has_unnamed(fields) {
        Err(GenerationError::UnnamedField)
    } else {
        Ok(fields.map_values(|field: FieldDeclView| field_schema_spec(field)))
    }
}

/// The schema that a declaration resolves to. The table is looked for first,
/// then the item has to be a record, then its fields are resolved.
pub open spec fn resolve_spec(decl: ItemDeclView) -> Result<RecordSchemaView, GenerationError> {
    match parse_table_attr_spec(decl.annotations) {
        Err(e) => Err(e),
        Ok(table_name) => match decl.fields {
            None => Err(GenerationError::NotARecord),
            Some(fields) => match resolve_fields_spec(fields) {
                Err(e) => Err(e),
                Ok(fields) => Ok(
                    RecordSchemaView { name: decl.name, table_name, generics: decl.generics, fields },
                ),
            },
        },
    }
}

/// The text of a literal that has to be a string.
pub fn get_lit_str<'a>(lit: &'a Value) -> (r: Result<&'a String, GenerationError>)
    ensures
        match r {
            Ok(text) => get_lit_str_spec(lit.deep_view()) == Ok::<_, GenerationError>(text@),
            Err(e) => get_lit_str_spec(lit.deep_view()) == Err::<Seq<char>, _>(e),
        },
{
    match lit {
        Value::Str(text) => Ok(text),
        Value::Other => Err(GenerationError::TableNotString),
    }
}

/// What one item of the record's mapper annotation says of the table.
pub fn table_value<'a>(item: &'a MetaItem) -> (r: Result<&'a String, GenerationError>)
    ensures
        match r {
            Ok(text) => table_value_spec(item.deep_view()) == Ok::<_, GenerationError>(text@),
            Err(e) => table_value_spec(item.deep_view()) == Err::<Seq<char>, _>(e),
        },
{
    match item {
        MetaItem::Constant => Err(GenerationError::UnexpectedLiteral),
        MetaItem::Word { .. } => Err(GenerationError::UnknownContainerAttribute),
        MetaItem::NameValue { name, value } => match name {
            Some(name) => {
                if text_is(name, "table") {
                    get_lit_str(value)
                } else {
                    Err(GenerationError::UnknownContainerAttribute)
                }
            },
            None => Err(GenerationError::UnknownContainerAttribute),
        },
    }
}

/// Once an item has been refused, the items after it change nothing.
proof fn lemma_table_failure(items: Seq<MetaItemView>, n: int)
    requires
        0 <= n <= items.len(),
        table_name_spec(items.take(n)) is Err,
        table_name_spec(items.take(n))->Err_0 != GenerationError::MissingTable,
    ensures
        table_name_spec(items) == table_name_spec(items.take(n)),
    decreases items.len() - n,
{
    if n < items.len() {
        assert(items.take(n + 1).drop_last() =~= items.take(n));
        lemma_table_failure(items, n + 1);
    } else {
        assert(items.take(n) =~= items);
    }
}

/// Reads the table name off the annotations above a record.
pub fn parse_table_attr(attributes: &Vec<Annotation>) -> (r: Result<String, GenerationError>)
    ensures
        match r {
            Ok(name) => parse_table_attr_spec(attributes.deep_view()) == Ok::<_, GenerationError>(
                name@,
            ),
            Err(e) => parse_table_attr_spec(attributes.deep_view()) == Err::<Seq<char>, _>(e),
        },
{
    let items = match mapper_items(attributes) {
        Ok(items) => items,
        Err(e) => {
            return Err(e);
        },
    };
    let mut table_name: Option<String> = None;
    let mut i: usize = 0;
    proof {
        assert(items.deep_view().take(0).len() == 0);
    }
    while i < items.len()
        invariant
            i <= items.len(),
            mapper_items_spec(attributes.deep_view()) == Ok::<_, GenerationError>(
                items.deep_view(),
            ),
            match table_name {
                Some(name) => table_name_spec(items.deep_view().take(i as int)) == Ok::<
                    _,
                    GenerationError,
                >(name@),
                None => table_name_spec(items.deep_view().take(i as int)) == Err::<Seq<char>, _>(
                    GenerationError::MissingTable,
                ),
            },
        decreases items.len() - i,
    {
        proof {
            let all = items.deep_view();
            assert(all.take(i + 1).drop_last() =~= all.take(i as int));
            assert(all.take(i + 1).last() == items[i as int].deep_view());
        }
        match table_value(items[i]) {
            Ok(name) => {
                table_name = Some(name.clone());
            },
            Err(e) => {
                proof {
                    lemma_table_failure(items.deep_view(), i + 1);
                }
                return Err(e);
            },
        }
        i = i + 1;
    }
    proof {
        assert(items.deep_view().take(items.len() as int) =~= items.deep_view());
    }
    match table_name {
        Some(name) => Ok(name),
        None => Err(GenerationError::MissingTable),
    }
}

proof fn lemma_has_malformed_step(fields: Seq<FieldDeclView>, i: int)
    requires
        0 <= i < fields.len(),
    ensures
        has_malformed(fields.take(i + 1)) <==> (has_malformed(fields.take(i))
            || field_directives_spec(fields[i].annotations) is Err),
{
    let shorter = fields.take(i);
    let longer = fields.take(i + 1);
    if has_malformed(shorter) {
        let j = choose|j: int|
            0 <= j < shorter.len() && (#[trigger] field_directives_spec(
                shorter[j].annotations,
            )) is Err;
        assert(longer[j] == shorter[j]);
        assert(field_directives_spec(longer[j].annotations) is Err);
    }
    if field_directives_spec(fields[i].annotations) is Err {
        assert(longer[i] == fields[i]);
        assert(field_directives_spec(longer[i].annotations) is Err);
    }
    if has_malformed(longer) {
        let j = choose|j: int|
            0 <= j < longer.len() && (#[trigger] field_directives_spec(longer[j].annotations)) is Err;
        if j < i {
            assert(shorter[j] == longer[j]);
            assert(field_directives_spec(shorter[j].annotations) is Err);
        } else {
            assert(longer[j] == fields[i]);
        }
    }
}

proof fn lemma_has_unnamed_step(fields: Seq<FieldDeclView>, i: int)
    requires
        0 <= i < fields.len(),
    ensures
        has_unnamed(fields.take(i + 1)) <==> (has_unnamed(fields.take(i)) || fields[i].name is None),
{
    let shorter = fields.take(i);
    let longer = fields.take(i + 1);
    if has_unnamed(shorter) {
        let j = choose|j: int| 0 <= j < shorter.len() && (#[trigger] shorter[j]).name is None;
        assert(longer[j].name is None);
    }
    if fields[i].name is None {
        assert(longer[i].name is None);
    }
    if has_unnamed(longer) {
        let j = choose|j: int| 0 <= j < longer.len() && (#[trigger] longer[j]).name is None;
        if j < i {
            assert(shorter[j].name is None);
        }
    }
}

/// A failure among the first `n` fields is a failure of the whole record.
proof fn lemma_has_malformed_prefix(fields: Seq<FieldDeclView>, n: int)
    requires
        0 <= n <= fields.len(),
        has_malformed(fields.take(n)),
    ensures
        has_malformed(fields),
{
    let prefix = fields.take(n);
    let j = choose|j: int|
        0 <= j < prefix.len() && (#[trigger] field_directives_spec(prefix[j].annotations)) is Err;
    assert(fields[j] == prefix[j]);
    assert(field_directives_spec(fields[j].annotations) is Err);
}

/// Resolves the fields of a record.
pub fn resolve_fields(fields: &Vec<FieldDecl>) -> (r: Result<Vec<FieldSchema>, GenerationError>)
    ensures
        match r {
            Ok(schemas) => resolve_fields_spec(fields.deep_view()) == Ok::<_, GenerationError>(
                schemas.deep_view(),
            ) && forall|i: int| 0 <= i < schemas.len() ==> (#[trigger] schemas[i]).wf(),
            Err(e) => resolve_fields_spec(fields.deep_view()) == Err::<Seq<FieldSchemaView>, _>(e),
        },
{
    let mut out: Vec<FieldSchema> = Vec::new();
    let mut unnamed = false;
    let mut i: usize = 0;
    proof {
        assert(out.deep_view() =~= fields.deep_view().take(0).map_values(
            |field: FieldDeclView| field_schema_spec(field),
        ));
    }
    while i < fields.len()
        invariant
            i <= fields.len(),
            !has_malformed(fields.deep_view().take(i as int)),
            unnamed == has_unnamed(fields.deep_view().take(i as int)),
            !unnamed ==> out.deep_view() == fields.deep_view().take(i as int).map_values(
                |field: FieldDeclView| field_schema_spec(field),
            ),
            forall|j: int| 0 <= j < out.len() ==> (#[trigger] out[j]).wf(),
        decreases fields.len() - i,
    {
        let field = &fields[i];
        proof {
            lemma_has_malformed_step(fields.deep_view(), i as int);
            lemma_has_unnamed_step(fields.deep_view(), i as int);
            assert(fields.deep_view()[i as int] == field.deep_view());
        }
        let directives = match field_directives(&field.annotations) {
            Ok(directives) => directives,
            Err(e) => {
                proof {
                    lemma_mapper_items_error(field.deep_view().annotations);
                    lemma_has_malformed_prefix(fields.deep_view(), i + 1);
                }
                return Err(e);
            },
        };
        match &field.name {
            Some(name) => {
                let ghost before = out.deep_view();
                let schema = FieldSchema::new(name.clone(), field.ty.clone(), directives);
                out.push(schema);
                proof {
                    let all = fields.deep_view();
                    assert(out.deep_view() =~= before.push(schema.deep_view()));
                    assert(all.take(i + 1) =~= all.take(i as int).push(field.deep_view()));
                    if !unnamed {
                        assert(out.deep_view() =~= all.take(i + 1).map_values(
                            |field: FieldDeclView| field_schema_spec(field),
                        ));
                    }
                }
            },
            None => {
                unnamed = true;
            },
        }
        i = i + 1;
    }
    proof {
        assert(fields.deep_view().take(fields.len() as int) =~= fields.deep_view());
    }
    if unnamed {
        Err(GenerationError::UnnamedField)
    } else {
        Ok(out)
    }
}

/// Resolves a declaration into the schema of a record.
pub fn resolve(decl: &ItemDecl) -> (r: Result<RecordSchema, GenerationError>)
    ensures
        match r {
            Ok(schema) => resolve_spec(decl.deep_view()) == Ok::<_, GenerationError>(
                schema.deep_view(),
            ) && schema.wf(),
            Err(e) => resolve_spec(decl.deep_view()) == Err::<RecordSchemaView, _>(e),
        },
{
    let table_name = match parse_table_attr(&decl.annotations) {
        Ok(table_name) => table_name,
        Err(e) => {
            return Err(e);
        },
    };
    let fields = match &decl.fields {
        Some(fields) => fields,
        None => {
            return Err(GenerationError::NotARecord);
        },
    };
    match resolve_fields(fields) {
        Ok(fields) => {
            let schema = RecordSchema {
                name: decl.name.clone(),
                table_name,
                generics: decl.generics.duplicate(),
                fields,
            };
            proof {
                assert forall|i: int| 0 <= i < schema.deep_view().fields.len() implies (
                #[trigger] schema.deep_view().fields[i]).wf() by {
                    assert(schema.fields[i].wf());
                }
            }
            Ok(schema)
        },
        Err(e) => Err(e),
    }
}

} // verus!
