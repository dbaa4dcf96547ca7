//! What holds of every record: the laws of classification, of the column
//! lists and of the constructor.

use vstd::prelude::*;
use crate::classify::{Classification, check_field_attributes_spec, classify_spec};
use crate::derive::derive_spec;
use crate::directive::{
    AnnotationView,
    Directive,
    MetaItemView,
    field_directives_spec,
    mapper_items_spec,
};
use crate::emit::{
    constructor_spec,
    default_fill_spec,
    initializer_spec,
    initializers_spec,
    string_literal_spec,
};
use crate::error::GenerationError;
use crate::plan::{
    Access,
    bare_column,
    bare_list,
    field_names,
    mapped_field_spec,
    mapped_fields_spec,
    plan_spec,
    qualified_list,
};
use crate::schema::{
    FieldDeclView,
    FieldSchemaView,
    ItemDeclView,
    RecordSchemaView,
    has_malformed,
    has_unnamed,
    parse_table_attr_spec,
    resolve_fields_spec,
    resolve_spec,
};
use crate::syntax::{field_reads_as, item_body, item_reads_as};

verus! {

/// The places, among the fields of a record, of those that are mapped, in
/// rising order.
pub open spec fn mapped_indices(fields: Seq<FieldSchemaView>) -> Seq<int>
    decreases fields.len(),
{
    if fields.len() == 0 {
        Seq::empty()
    } else {
        let before = mapped_indices(fields.drop_last());
        if fields.last().classification.is_mapped() {
            before.push(fields.len() - 1)
        } else {
            before
        }
    }
}

/// No two of `fields` have the same name.
pub open spec fn names_distinct(fields: Seq<FieldSchemaView>) -> bool {
    forall|i: int, j: int|
        0 <= i < j < fields.len() ==> (#[trigger] fields[i]).name != (#[trigger] fields[j]).name
}

/// Classification depends on which directives a field carries and on nothing
/// else: two lists that hold the same directives, in whatever order and
/// however often, are classified alike.
pub proof fn lemma_classification_by_directive_set(a: Seq<Directive>, b: Seq<Directive>)
    requires
        a.to_set() == b.to_set(),
    ensures
        classify_spec(a) == classify_spec(b),
{
    assert forall|d: Directive| a.contains(d) == b.contains(d) by {
        assert(a.to_set().contains(d) == a.contains(d));
        assert(b.to_set().contains(d) == b.contains(d));
    }
}

/// The classification of a field is that of its own annotations, wherever
/// the field stands in the record and whatever stands beside it.
pub proof fn lemma_classification_is_the_fields_own(fields: Seq<FieldDeclView>, i: int)
    requires
        resolve_fields_spec(fields) is Ok,
        0 <= i < fields.len(),
    ensures
        check_field_attributes_spec(fields[i].annotations) == Ok::<_, GenerationError>(
            resolve_fields_spec(fields)->Ok_0[i].classification,
        ),
{
    assert(field_directives_spec(fields[i].annotations) is Ok);
}

/// `ignore` dominates: a field that carries it is `Ignored`, whatever else it
/// carries.
pub proof fn lemma_ignore_dominates(directives: Seq<Directive>)
    requires
        directives.contains(Directive::Ignore),
    ensures
        classify_spec(directives) == Classification::Ignored,
{
}

/// The fields of the plan are the mapped fields of the record, each once and
/// in the order of their declaration: the `k`-th field of the plan is made
/// from the field at the `k`-th mapped place, the places rise, every place is
/// that of a field classified `Mapped` or `Flattened`, and no such field is
/// left out.
pub proof fn lemma_plan_fields_in_declaration_order(fields: Seq<FieldSchemaView>)
    ensures
        mapped_fields_spec(fields).len() == mapped_indices(fields).len(),
        forall|k: int|
            0 <= k < mapped_indices(fields).len() ==> {
                let i = #[trigger] mapped_indices(fields)[k];
                &&& 0 <= i < fields.len()
                &&& fields[i].classification.is_mapped()
                &&& mapped_fields_spec(fields)[k] == mapped_field_spec(fields[i])
            },
        forall|j: int, k: int|
            0 <= j < k < mapped_indices(fields).len() ==> (#[trigger] mapped_indices(fields)[j]) < (
            #[trigger] mapped_indices(fields)[k]),
        forall|i: int|
            0 <= i < fields.len() && (#[trigger] fields[i]).classification.is_mapped()
                ==> mapped_indices(fields).contains(i),
    decreases fields.len(),
{
    reveal(Seq::filter);
    if fields.len() > 0 {
        let shorter = fields.drop_last();
        lemma_plan_fields_in_declaration_order(shorter);
        let before = mapped_indices(shorter);
        let indices = mapped_indices(fields);
        assert forall|k: int| 0 <= k < indices.len() implies {
            let i = #[trigger] indices[k];
            &&& 0 <= i < fields.len()
            &&& fields[i].classification.is_mapped()
            &&& mapped_fields_spec(fields)[k] == mapped_field_spec(fields[i])
        } by {
            if k < before.len() {
                let i = before[k];
                assert(shorter[i] == fields[i]);
            }
        }
        assert forall|j: int, k: int| 0 <= j < k < indices.len() implies (#[trigger] indices[j]) < (
        #[trigger] indices[k]) by {
            let i = before[j];
            assert(0 <= i < shorter.len());
            if k < before.len() {
                assert(before[j] < before[k]);
            }
        }
        assert forall|i: int|
            0 <= i < fields.len() && (
            #[trigger] fields[i]).classification.is_mapped() implies indices.contains(i) by {
            if i < shorter.len() {
                assert(shorter[i] == fields[i]);
                assert(before.contains(i));
                let k = choose|k: int| 0 <= k < before.len() && before[k] == i;
                assert(indices[k] == i);
            } else {
                assert(indices[indices.len() - 1] == i);
            }
        }
    }
}

/// The bare column list is made of the names of the fields of the plan, in
/// their order, each between two spaces, with `, ` between neighbours; and so
/// is the qualified list, with the table and a dot before each name.
pub proof fn lemma_columns_are_the_plan_names(schema: RecordSchemaView)
    ensures
        plan_spec(schema).bare_columns == bare_list(field_names(plan_spec(schema).fields)),
        plan_spec(schema).qualified_columns == qualified_list(
            schema.table_name,
            field_names(plan_spec(schema).fields),
        ),
        field_names(plan_spec(schema).fields).len() == mapped_indices(schema.fields).len(),
        forall|k: int|
            0 <= k < mapped_indices(schema.fields).len() ==> (#[trigger] field_names(
                plan_spec(schema).fields,
            )[k]) == schema.fields[mapped_indices(schema.fields)[k]].name,
{
    lemma_plan_fields_in_declaration_order(schema.fields);
    assert forall|k: int| 0 <= k < mapped_indices(schema.fields).len() implies (
    #[trigger] field_names(plan_spec(schema).fields)[k])
        == schema.fields[mapped_indices(schema.fields)[k]].name by {
        let i = mapped_indices(schema.fields)[k];
        assert(mapped_fields_spec(schema.fields)[k] == mapped_field_spec(schema.fields[i]));
    }
}

/// A field that carries `ignore` has no place in the plan, and so none in
/// the column lists, whatever else it carries. Where no two fields of the
/// record share a name, its name is not among the names of the plan either.
pub proof fn lemma_ignored_field_has_no_column(decl: ItemDeclView, i: int)
    requires
        resolve_spec(decl) is Ok,
        0 <= i < decl.fields->Some_0.len(),
        field_directives_spec(decl.fields->Some_0[i].annotations)->Ok_0.contains(Directive::Ignore),
    ensures
        resolve_spec(decl)->Ok_0.fields[i].classification == Classification::Ignored,
        !mapped_indices(resolve_spec(decl)->Ok_0.fields).contains(i),
        names_distinct(resolve_spec(decl)->Ok_0.fields) ==> !field_names(
            plan_spec(resolve_spec(decl)->Ok_0).fields,
        ).contains(resolve_spec(decl)->Ok_0.fields[i].name),
{
    lemma_excluded_field_has_no_column(resolve_spec(decl)->Ok_0, i);
}

/// A field that is not mapped has no place in the plan. Where no two fields
/// of the record share a name, its name is not among the names of the plan
/// either.
pub proof fn lemma_excluded_field_has_no_column(schema: RecordSchemaView, i: int)
    requires
        0 <= i < schema.fields.len(),
        !schema.fields[i].classification.is_mapped(),
    ensures
        !mapped_indices(schema.fields).contains(i),
        names_distinct(schema.fields) ==> !field_names(plan_spec(schema).fields).contains(
            schema.fields[i].name,
        ),
{
    let fields = schema.fields;
    let indices = mapped_indices(fields);
    lemma_plan_fields_in_declaration_order(fields);
    lemma_columns_are_the_plan_names(schema);
    if indices.contains(i) {
        let k = choose|k: int| 0 <= k < indices.len() && indices[k] == i;
        assert(fields[indices[k]].classification.is_mapped());
    }
    let names = field_names(plan_spec(schema).fields);
    if names_distinct(fields) && names.contains(fields[i].name) {
        let k = choose|k: int| 0 <= k < names.len() && names[k] == fields[i].name;
        let j = indices[k];
        assert(names[k] == fields[j].name);
        assert(fields[j].classification.is_mapped());
        assert(j != i);
        if j < i {
            assert(fields[j].name != fields[i].name);
        } else {
            assert(fields[i].name != fields[j].name);
        }
    }
}

/// Where no two fields of the record share a name, no name stands twice in
/// the column lists.
pub proof fn lemma_no_column_twice(schema: RecordSchemaView)
    requires
        names_distinct(schema.fields),
    ensures
        field_names(plan_spec(schema).fields).no_duplicates(),
{
    let fields = schema.fields;
    let indices = mapped_indices(fields);
    let names = field_names(plan_spec(schema).fields);
    lemma_plan_fields_in_declaration_order(fields);
    lemma_columns_are_the_plan_names(schema);
    assert forall|j: int, k: int| 0 <= j < names.len() && 0 <= k < names.len() && j != k implies names[j]
        != names[k] by {
        assert(names[j] == fields[indices[j]].name);
        assert(names[k] == fields[indices[k]].name);
        if j < k {
            assert(indices[j] < indices[k]);
            assert(fields[indices[j]].name != fields[indices[k]].name);
        } else {
            assert(indices[k] < indices[j]);
            assert(fields[indices[k]].name != fields[indices[j]].name);
        }
    }
}

/// A record has an excluded field exactly where one of its fields is
/// classified `Ignored` or `Collection`.
pub proof fn lemma_has_excluded(schema: RecordSchemaView)
    ensures
        plan_spec(schema).has_excluded <==> exists|i: int|
            0 <= i < schema.fields.len() && !(#[trigger] schema.fields[i]).classification.is_mapped(),
{
    let fields = schema.fields;
    let indices = mapped_indices(fields);
    lemma_plan_fields_in_declaration_order(fields);
    lemma_indices_within(fields);
    if exists|i: int| 0 <= i < fields.len() && !(#[trigger] fields[i]).classification.is_mapped() {
        let i = choose|i: int|
            0 <= i < fields.len() && !(#[trigger] fields[i]).classification.is_mapped();
        lemma_excluded_field_has_no_column(schema, i);
        if indices.len() == fields.len() {
            lemma_full_indices(fields);
            assert(indices[i] == i);
        }
    } else {
        lemma_all_mapped_indices(fields);
    }
}

/// There are no more mapped places than fields.
proof fn lemma_indices_within(fields: Seq<FieldSchemaView>)
    ensures
        mapped_indices(fields).len() <= fields.len(),
    decreases fields.len(),
{
    if fields.len() > 0 {
        lemma_indices_within(fields.drop_last());
    }
}

/// Where there are as many mapped places as fields, every place is mapped.
proof fn lemma_full_indices(fields: Seq<FieldSchemaView>)
    requires
        mapped_indices(fields).len() == fields.len(),
    ensures
        forall|i: int| 0 <= i < fields.len() ==> (#[trigger] mapped_indices(fields)[i]) == i,
    decreases fields.len(),
{
    if fields.len() > 0 {
        lemma_indices_within(fields.drop_last());
        lemma_full_indices(fields.drop_last());
    }
}

/// Where every field is mapped, every place is a mapped place.
proof fn lemma_all_mapped_indices(fields: Seq<FieldSchemaView>)
    requires
        forall|i: int| 0 <= i < fields.len() ==> (#[trigger] fields[i]).classification.is_mapped(),
    ensures
        mapped_indices(fields).len() == fields.len(),
    decreases fields.len(),
{
    if fields.len() > 0 {
        let shorter = fields.drop_last();
        assert forall|i: int| 0 <= i < shorter.len() implies (
        #[trigger] shorter[i]).classification.is_mapped() by {
            assert(shorter[i] == fields[i]);
        }
        lemma_all_mapped_indices(shorter);
        assert(fields.last() == fields[fields.len() - 1]);
    }
}

/// A record without an excluded field has every declared field set in its
/// constructor, in the order of declaration, and nothing is taken from a
/// default value.
pub proof fn lemma_nothing_excluded_sets_every_field(schema: RecordSchemaView)
    requires
        !plan_spec(schema).has_excluded,
    ensures
        plan_spec(schema).fields.len() == schema.fields.len(),
        forall|i: int|
            0 <= i < schema.fields.len() ==> (#[trigger] plan_spec(schema).fields[i])
                == mapped_field_spec(schema.fields[i]),
        constructor_spec(plan_spec(schema)) == "Self { "@ + initializers_spec(
            plan_spec(schema).fields,
        ) + " }"@,
{
    let fields = schema.fields;
    lemma_plan_fields_in_declaration_order(fields);
    lemma_full_indices(fields);
    assert forall|i: int| 0 <= i < fields.len() implies (#[trigger] plan_spec(schema).fields[i])
        == mapped_field_spec(fields[i]) by {
        assert(mapped_indices(fields)[i] == i);
    }
}

/// A record with an excluded field has its constructor end in the fill from
/// the record's default value, which therefore has to exist.
pub proof fn lemma_excluded_takes_default(schema: RecordSchemaView)
    requires
        plan_spec(schema).has_excluded,
    ensures
        constructor_spec(plan_spec(schema)) == "Self { "@ + initializers_spec(
            plan_spec(schema).fields,
        ) + default_fill_spec(plan_spec(schema).fields) + " }"@,
        default_fill_spec(plan_spec(schema).fields) == "..Default::default()"@ || default_fill_spec(
            plan_spec(schema).fields,
        ) == ", ..Default::default()"@,
{
}

/// A nested record is read by its own conversion, which is handed the row
/// and the prefix as they are: the initializer of a flattened field names
/// nothing of the field but its name and its type.
pub proof fn lemma_flatten_passes_row_and_prefix(field: FieldSchemaView)
    requires
        field.classification == Classification::Flattened,
    ensures
        mapped_field_spec(field).access == Access::Nested,
        initializer_spec(mapped_field_spec(field)) == field.name + ": <"@ + field.ty
            + ">::from_row_ref_prefixed(&row, prefix)?"@,
{
}

/// A record without an annotation for the mapper has no table: it is refused
/// for that reason and yields nothing.
pub proof fn lemma_missing_table(decl: ItemDeclView)
    requires
        forall|i: int|
            0 <= i < decl.annotations.len() ==> !(#[trigger] decl.annotations[i]).is_mapper(),
    ensures
        parse_table_attr_spec(decl.annotations) == Err::<Seq<char>, _>(
            GenerationError::MissingTable,
        ),
        derive_spec(decl) == Err::<Seq<char>, _>(GenerationError::MissingTable),
{
    lemma_no_mapper_no_items(decl.annotations);
}

/// Annotations of which none is the mapper's hold no item for it.
proof fn lemma_no_mapper_no_items(annotations: Seq<AnnotationView>)
    requires
        forall|i: int| 0 <= i < annotations.len() ==> !(#[trigger] annotations[i]).is_mapper(),
    ensures
        mapper_items_spec(annotations) == Ok::<_, GenerationError>(Seq::<MetaItemView>::empty()),
    decreases annotations.len(),
{
    if annotations.len() > 0 {
        let shorter = annotations.drop_last();
        assert forall|i: int| 0 <= i < shorter.len() implies !(#[trigger] shorter[i]).is_mapper() by {
            assert(shorter[i] == annotations[i]);
        }
        lemma_no_mapper_no_items(shorter);
        assert(annotations.last() == annotations[annotations.len() - 1]);
    }
}

/// A column is fetched under the key made of the prefix and of the field's
/// name, as the field's type.
pub proof fn lemma_column_is_fetched_under_prefix_and_name(field: FieldSchemaView)
    requires
        field.classification == Classification::Mapped,
    ensures
        mapped_field_spec(field).access == Access::Column,
        initializer_spec(mapped_field_spec(field)) == field.name + ": row.try_get::<&str, "@
            + field.ty + ">(format!(\"{}{}\", prefix, "@ + string_literal_spec(field.name)
            + ").as_str())?"@,
{
}

/// Two declarations tell the same of a record: they differ at most in the
/// text of the types and of the generics.
pub open spec fn same_but_for_types(a: ItemDeclView, b: ItemDeclView) -> bool {
    &&& a.name == b.name
    &&& a.annotations == b.annotations
    &&& a.fields is Some <==> b.fields is Some
    &&& a.fields is Some ==> {
        &&& a.fields->Some_0.len() == b.fields->Some_0.len()
        &&& forall|i: int|
            0 <= i < a.fields->Some_0.len() ==> {
                &&& (#[trigger] a.fields->Some_0[i]).name == b.fields->Some_0[i].name
                &&& a.fields->Some_0[i].annotations == b.fields->Some_0[i].annotations
            }
    }
}

/// Two lists of fields with the same names and classifications, one for one.
pub open spec fn same_names_and_classifications(
    a: Seq<FieldSchemaView>,
    b: Seq<FieldSchemaView>,
) -> bool {
    &&& a.len() == b.len()
    &&& forall|i: int|
        0 <= i < a.len() ==> {
            &&& (#[trigger] a[i]).name == b[i].name
            &&& a[i].classification == b[i].classification
        }
}

/// Whether a record is refused, and why, does not depend on the text of its
/// types or generics; nor do, where it is not refused, its table, the names
/// of its fields and their classifications.
pub proof fn lemma_types_decide_nothing(a: ItemDeclView, b: ItemDeclView)
    requires
        same_but_for_types(a, b),
    ensures
        resolve_spec(a) is Err <==> resolve_spec(b) is Err,
        resolve_spec(a) is Err ==> resolve_spec(a)->Err_0 == resolve_spec(b)->Err_0,
        derive_spec(a) is Err <==> derive_spec(b) is Err,
        derive_spec(a) is Err ==> derive_spec(a)->Err_0 == derive_spec(b)->Err_0,
        resolve_spec(a) is Ok ==> {
            &&& resolve_spec(a)->Ok_0.name == resolve_spec(b)->Ok_0.name
            &&& resolve_spec(a)->Ok_0.table_name == resolve_spec(b)->Ok_0.table_name
            &&& same_names_and_classifications(
                resolve_spec(a)->Ok_0.fields,
                resolve_spec(b)->Ok_0.fields,
            )
        },
{
    if a.fields is Some {
        let fa = a.fields->Some_0;
        let fb = b.fields->Some_0;
        if has_malformed(fa) {
            let i = choose|i: int|
                0 <= i < fa.len() && (#[trigger] field_directives_spec(fa[i].annotations)) is Err;
            assert(fa[i].annotations == fb[i].annotations);
            assert(field_directives_spec(fb[i].annotations) is Err);
        }
        if has_malformed(fb) {
            let i = choose|i: int|
                0 <= i < fb.len() && (#[trigger] field_directives_spec(fb[i].annotations)) is Err;
            assert(fa[i].annotations == fb[i].annotations);
            assert(field_directives_spec(fa[i].annotations) is Err);
        }
        if has_unnamed(fa) {
            let i = choose|i: int| 0 <= i < fa.len() && (#[trigger] fa[i]).name is None;
            assert(fb[i].name is None);
        }
        if has_unnamed(fb) {
            let i = choose|i: int| 0 <= i < fb.len() && (#[trigger] fb[i]).name is None;
            assert(fa[i].name is None);
        }
        if resolve_spec(a) is Ok {
            let sa = resolve_spec(a)->Ok_0.fields;
            let sb = resolve_spec(b)->Ok_0.fields;
            assert forall|i: int| 0 <= i < sa.len() implies {
                &&& (#[trigger] sa[i]).name == sb[i].name
                &&& sa[i].classification == sb[i].classification
            } by {
                assert(fa[i].name == fb[i].name);
                assert(fa[i].annotations == fb[i].annotations);
            }
        }
    }
}

/// The column lists of a record, and whether it has an excluded field,
/// depend on the table, on the names of the fields and on their
/// classifications, and on nothing else.
pub proof fn lemma_columns_by_names_and_classifications(a: RecordSchemaView, b: RecordSchemaView)
    requires
        a.table_name == b.table_name,
        same_names_and_classifications(a.fields, b.fields),
    ensures
        plan_spec(a).bare_columns == plan_spec(b).bare_columns,
        plan_spec(a).qualified_columns == plan_spec(b).qualified_columns,
        plan_spec(a).has_excluded == plan_spec(b).has_excluded,
{
    lemma_same_indices(a.fields, b.fields);
    lemma_columns_are_the_plan_names(a);
    lemma_columns_are_the_plan_names(b);
    let names_a = field_names(plan_spec(a).fields);
    let names_b = field_names(plan_spec(b).fields);
    assert forall|k: int| 0 <= k < names_a.len() implies names_a[k] == names_b[k] by {
        lemma_plan_fields_in_declaration_order(a.fields);
        let i = mapped_indices(a.fields)[k];
        assert(names_a[k] == a.fields[i].name);
        assert(names_b[k] == b.fields[i].name);
    }
    assert(names_a =~= names_b);
}

/// The mapped places depend on the classifications alone.
proof fn lemma_same_indices(a: Seq<FieldSchemaView>, b: Seq<FieldSchemaView>)
    requires
        same_names_and_classifications(a, b),
    ensures
        mapped_indices(a) == mapped_indices(b),
    decreases a.len(),
{
    if a.len() > 0 {
        let sa = a.drop_last();
        let sb = b.drop_last();
        assert forall|i: int| 0 <= i < sa.len() implies {
            &&& (#[trigger] sa[i]).name == sb[i].name
            &&& sa[i].classification == sb[i].classification
        } by {
            assert(sa[i] == a[i]);
            assert(sb[i] == b[i]);
        }
        lemma_same_indices(sa, sb);
        assert(a.last() == a[a.len() - 1]);
        assert(b.last() == b[b.len() - 1]);
    }
}

/// Two readings of one item differ at most in the text of its types and
/// generics, so that the item alone decides whether it is refused and what
/// its column lists are.
pub proof fn lemma_readings_agree(item: syn::DeriveInput, a: ItemDeclView, b: ItemDeclView)
    requires
        item_reads_as(item, a),
        item_reads_as(item, b),
    ensures
        same_but_for_types(a, b),
{
    if a.fields is Some {
        let fa = a.fields->Some_0;
        let fb = b.fields->Some_0;
        assert forall|i: int| 0 <= i < fa.len() implies {
            &&& (#[trigger] fa[i]).name == fb[i].name
            &&& fa[i].annotations == fb[i].annotations
        } by {
            assert(field_reads_as(item_body(item)->Struct_0[i], fb[i]));
        }
    }
}

/// A name that holds neither a blank nor a comma, as every identifier does.
pub open spec fn is_plain(name: Seq<char>) -> bool {
    forall|i: int| 0 <= i < name.len() ==> name[i] != ' ' && name[i] != ','
}

/// Names that are all plain.
pub open spec fn all_plain(names: Seq<Seq<char>>) -> bool {
    forall|i: int| 0 <= i < names.len() ==> is_plain(#[trigger] names[i])
}

/// A column of the bare list gives its name back.
proof fn lemma_bare_column_injective(a: Seq<char>, b: Seq<char>)
    requires
        bare_column(a) == bare_column(b),
    ensures
        a == b,
{
    reveal_strlit(" ");
    assert(bare_column(a).len() == a.len() + 2);
    assert(bare_column(b).len() == b.len() + 2);
    assert forall|i: int| 0 <= i < a.len() implies a[i] == b[i] by {
        assert(bare_column(a)[i + 1] == a[i]);
        assert(bare_column(b)[i + 1] == b[i]);
    }
    assert(a =~= b);
}

/// How the bare list of plain names is made up: it is empty for no name, free
/// of commas for one, and for more it ends in a comma, a blank and the last
/// column, with no comma after that one.
proof fn lemma_bare_list_shape(names: Seq<Seq<char>>)
    requires
        all_plain(names),
    ensures
        names.len() == 0 ==> bare_list(names).len() == 0,
        names.len() >= 1 ==> bare_list(names).len() >= 2,
        names.len() == 1 ==> bare_list(names) == bare_column(names[0]),
        names.len() == 1 ==> forall|i: int|
            0 <= i < bare_list(names).len() ==> bare_list(names)[i] != ',',
        names.len() >= 2 ==> {
            let head = bare_list(names.drop_last());
            let list = bare_list(names);
            &&& list == head + ", "@ + bare_column(names.last())
            &&& list.len() == head.len() + 2 + bare_column(names.last()).len()
            &&& list[head.len() as int] == ','
            &&& forall|i: int| head.len() < i < list.len() ==> list[i] != ','
        },
{
    reveal_strlit(" ");
    reveal_strlit(", ");
    let columns = names.map_values(|name: Seq<char>| bare_column(name));
    if names.len() == 1 {
        let list = bare_list(names);
        assert(is_plain(names[0]));
        assert forall|i: int| 0 <= i < list.len() implies list[i] != ',' by {
            if 1 <= i <= names[0].len() {
                assert(list[i] == names[0][i - 1]);
            }
        }
    } else if names.len() >= 2 {
        let head = bare_list(names.drop_last());
        let list = bare_list(names);
        let last = bare_column(names.last());
        assert(columns.drop_last() =~= names.drop_last().map_values(
            |name: Seq<char>| bare_column(name),
        ));
        assert(columns.last() == last);
        assert(list == head + ", "@ + last);
        assert(is_plain(names.last()));
        assert forall|i: int| head.len() < i < list.len() implies list[i] != ',' by {
            let k = i - head.len() - 2;
            if k >= 0 {
                assert(list[i] == last[k]);
                if 1 <= k <= names.last().len() {
                    assert(last[k] == names.last()[k - 1]);
                }
            }
        }
    }
}

/// The bare column list of a record can be read back: plain names that give
/// the record's list are the names of its mapped fields, in the order of their
/// declaration.
pub proof fn lemma_bare_columns_read_back(schema: RecordSchemaView, names: Seq<Seq<char>>)
    requires
        all_plain(names),
        all_plain(field_names(plan_spec(schema).fields)),
        plan_spec(schema).bare_columns == bare_list(names),
    ensures
        names == field_names(plan_spec(schema).fields),
{
    lemma_bare_columns_determine_names(names, field_names(plan_spec(schema).fields));
}

/// Two lists of plain names that give the same bare column list are the same
/// names in the same order.
pub proof fn lemma_bare_columns_determine_names(a: Seq<Seq<char>>, b: Seq<Seq<char>>)
    requires
        all_plain(a),
        all_plain(b),
        bare_list(a) == bare_list(b),
    ensures
        a == b,
    decreases a.len(),
{
    lemma_bare_list_shape(a);
    lemma_bare_list_shape(b);
    let list = bare_list(a);
    if a.len() == 0 {
        assert(b.len() == 0);
        assert(a =~= b);
    } else if a.len() == 1 {
        if b.len() >= 2 {
            let at = bare_list(b.drop_last()).len() as int;
            assert(list[at] == ',');
        }
        assert(b.len() == 1);
        lemma_bare_column_injective(a[0], b[0]);
        assert(a =~= b);
    } else {
        if b.len() == 1 {
            let at = bare_list(a.drop_last()).len() as int;
            assert(list[at] == ',');
        }
        assert(b.len() >= 2);
        let head_a = bare_list(a.drop_last());
        let head_b = bare_list(b.drop_last());
        if head_a.len() < head_b.len() {
            assert(list[head_b.len() as int] == ',');
        }
        if head_b.len() < head_a.len() {
            assert(list[head_a.len() as int] == ',');
        }
        assert(head_a.len() == head_b.len());
        let n = head_a.len() as int;
        assert(head_a =~= list.take(n));
        assert(head_b =~= list.take(n));
        assert(bare_column(a.last()) =~= list.skip(n + 2));
        assert(bare_column(b.last()) =~= list.skip(n + 2));
        lemma_bare_column_injective(a.last(), b.last());
        assert forall|i: int| 0 <= i < a.drop_last().len() implies is_plain(
            #[trigger] a.drop_last()[i],
        ) by {
            assert(a.drop_last()[i] == a[i]);
        }
        assert forall|i: int| 0 <= i < b.drop_last().len() implies is_plain(
            #[trigger] b.drop_last()[i],
        ) by {
            assert(b.drop_last()[i] == b[i]);
        }
        lemma_bare_columns_determine_names(a.drop_last(), b.drop_last());
        assert(a =~= a.drop_last().push(a.last()));
        assert(b =~= b.drop_last().push(b.last()));
    }
}

} // verus!
