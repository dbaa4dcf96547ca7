//! Reading a parsed item into a declaration.
//!
//! The syntax tree is `syn`'s. Its nodes are carried through as they are; what
//! the library needs of a node is asked of `syn` by one small function per
//! question, whose answer is taken on trust, and everything that is done with
//! the answers is verified. Each answer that depends on the node alone has a
//! name, so that a contract can say which answer went where. The text that a
//! type or the generics print as has none: it is whatever the token printer
//! in use gives.
//!
//! Only annotations addressed to the mapper are parsed, and of these only the
//! ones whose literals are all simple: any other annotation is read as one
//! without a list.

use quote::ToTokens;
use vstd::prelude::*;
use crate::directive::{
    Annotation,
    AnnotationView,
    MetaItem,
    MetaItemView,
    Value,
    ValueView,
    is_mapper_path,
    mapper_path,
};
use crate::schema::{FieldDecl, FieldDeclView, Generics, ItemDecl, ItemDeclView};
use crate::tokens::{NESTING_LIMIT, simple_stream, stream_is_simple};

verus! {

/// `syn::DeriveInput`: a struct, an enum or a union as a derive sees it.
#[verifier::external_type_specification]
#[verifier::external_body]
pub struct ExDeriveInput(syn::DeriveInput);

/// `syn::Field`: one field of a struct.
#[verifier::external_type_specification]
#[verifier::external_body]
pub struct ExField(syn::Field);

/// `syn::Attribute`: one `#[...]`.
#[verifier::external_type_specification]
#[verifier::external_body]
pub struct ExAttribute(syn::Attribute);

/// `syn::NestedMeta`: one item of the list in an attribute.
#[verifier::external_type_specification]
#[verifier::external_body]
pub struct ExNestedMeta(syn::NestedMeta);

/// `syn::Path`: a path such as `a::b`.
#[verifier::external_type_specification]
#[verifier::external_body]
pub struct ExPath(syn::Path);

/// `syn::Lit`: a literal of any kind.
#[verifier::external_type_specification]
#[verifier::external_body]
pub struct ExLit(syn::Lit);

/// `syn::LitStr`: a string literal.
#[verifier::external_type_specification]
#[verifier::external_body]
pub struct ExLitStr(syn::LitStr);

/// What an item is, with its fields where it is a struct.
pub enum ItemBody {
    Struct(Vec<syn::Field>),
    Enum,
    Union,
}

/// The mathematical view of an [`ItemBody`].
pub enum ItemBodyView {
    Struct(Seq<syn::Field>),
    Enum,
    Union,
}

impl View for ItemBody {
    type V = ItemBodyView;

    open spec fn view(&self) -> ItemBodyView {
        match self {
            ItemBody::Struct(fields) => ItemBodyView::Struct(fields@),
            ItemBody::Enum => ItemBodyView::Enum,
            ItemBody::Union => ItemBodyView::Union,
        }
    }
}

/// What an attribute parses as, with its items where it is a list.
pub enum ParsedMeta {
    /// `path`
    Word,
    /// `path(item, ...)`
    List(Vec<syn::NestedMeta>),
    /// `path = literal`
    Pair,
    /// It does not parse.
    Failed,
}

/// The mathematical view of a [`ParsedMeta`].
pub enum ParsedMetaView {
    Word,
    List(Seq<syn::NestedMeta>),
    Pair,
    Failed,
}

impl View for ParsedMeta {
    type V = ParsedMetaView;

    open spec fn view(&self) -> ParsedMetaView {
        match self {
            ParsedMeta::Word => ParsedMetaView::Word,
            ParsedMeta::List(nested) => ParsedMetaView::List(nested@),
            ParsedMeta::Pair => ParsedMetaView::Pair,
            ParsedMeta::Failed => ParsedMetaView::Failed,
        }
    }
}

/// One item of an attribute's list taken apart.
pub enum NestedParts {
    /// A literal.
    Constant,
    /// `path`
    Word(syn::Path),
    /// `path(...)`
    List(syn::Path),
    /// `path = literal`
    Pair(syn::Path, syn::Lit),
}

/// A literal taken apart: its kind, and the string where it is one.
pub enum LitKind {
    Str(syn::LitStr),
    ByteStr,
    Byte,
    Char,
    Int,
    Float,
    Bool,
    Verbatim,
}

/// The identifier of an item, as text.
pub uninterp spec fn item_name(item: syn::DeriveInput) -> Seq<char>;

/// The attributes above an item, in the order in which they are written.
pub uninterp spec fn item_attributes(item: syn::DeriveInput) -> Seq<syn::Attribute>;

/// What an item is, with its fields in the order of their declaration.
pub uninterp spec fn item_body(item: syn::DeriveInput) -> ItemBodyView;

/// The identifier of a field, as text; `None` for a field of a tuple struct.
pub uninterp spec fn field_name(field: syn::Field) -> Option<Seq<char>>;

/// The attributes above a field, in the order in which they are written.
pub uninterp spec fn field_attributes(field: syn::Field) -> Seq<syn::Attribute>;

/// The identifiers of the segments of an attribute's path, as text.
pub uninterp spec fn attribute_path(attr: syn::Attribute) -> Seq<Seq<char>>;

/// The tokens that follow the path of an attribute.
pub uninterp spec fn attribute_tokens(attr: syn::Attribute) -> proc_macro2::TokenStream;

/// What an attribute parses as.
pub uninterp spec fn attribute_meta(attr: syn::Attribute) -> ParsedMetaView;

/// One item of an attribute's list taken apart.
pub uninterp spec fn nested_parts(nested: syn::NestedMeta) -> NestedParts;

/// The identifier that a path consists of, as text; `None` for a path that
/// is more than one identifier.
pub uninterp spec fn path_ident(path: syn::Path) -> Option<Seq<char>>;

/// A literal taken apart.
pub uninterp spec fn lit_kind(lit: syn::Lit) -> LitKind;

/// The text that a string literal denotes.
pub uninterp spec fn lit_str_value(lit: syn::LitStr) -> Seq<char>;

/// The field `ident` of a `syn::DeriveInput`, printed.
#[verifier::external_body]
pub(crate) fn read_item_name(item: &syn::DeriveInput) -> (r: String)
    ensures
        r@ == item_name(*item),
{
    item.ident.to_string()
}

/// The field `attrs` of a `syn::DeriveInput`.
#[verifier::external_body]
pub(crate) fn read_item_attributes(item: &syn::DeriveInput) -> (r: &Vec<syn::Attribute>)
    ensures
        r@ == item_attributes(*item),
{
    &item.attrs
}

/// `syn::Generics::split_for_impl` on the field `generics` of a
/// `syn::DeriveInput`, each of the three parts printed. Nothing is claimed of
/// the text.
#[verifier::external_body]
pub(crate) fn read_item_generics(item: &syn::DeriveInput) -> (r: Generics) {
    let (impl_generics, ty_generics, where_clause) = item.generics.split_for_impl();
    Generics {
        impl_generics: impl_generics.to_token_stream().to_string(),
        ty_generics: ty_generics.to_token_stream().to_string(),
        where_clause: where_clause.to_token_stream().to_string(),
    }
}

/// The variant of the field `data` of a `syn::DeriveInput`; for a struct
/// with its fields, as `syn::Fields::iter` hands them out.
#[verifier::external_body]
pub(crate) fn read_item_body(item: &syn::DeriveInput) -> (r: ItemBody)
    ensures
        r@ == item_body(*item),
{
    match &item.data {
        syn::Data::Struct(data) => ItemBody::Struct(data.fields.iter().cloned().collect()),
        syn::Data::Enum(_) => ItemBody::Enum,
        syn::Data::Union(_) => ItemBody::Union,
    }
}

/// The field `ident` of a `syn::Field`, printed.
#[verifier::external_body]
pub(crate) fn read_field_name(field: &syn::Field) -> (r: Option<String>)
    ensures
        r.deep_view() == field_name(*field),
{
    field.ident.as_ref().map(|ident| ident.to_string())
}

/// The field `ty` of a `syn::Field`, printed. Nothing is claimed of the text.
#[verifier::external_body]
pub(crate) fn read_field_type(field: &syn::Field) -> (r: String) {
    field.ty.to_token_stream().to_string()
}

/// The field `attrs` of a `syn::Field`.
#[verifier::external_body]
pub(crate) fn read_field_attributes(field: &syn::Field) -> (r: &Vec<syn::Attribute>)
    ensures
        r@ == field_attributes(*field),
{
    &field.attrs
}

/// The field `path` of a `syn::Attribute`: the identifier of each segment,
/// printed.
#[verifier::external_body]
pub(crate) fn read_attribute_path(attr: &syn::Attribute) -> (r: Vec<String>)
    ensures
        r.deep_view() == attribute_path(*attr),
{
    attr.path.segments.iter().map(|segment| segment.ident.to_string()).collect()
}

/// The field `tokens` of a `syn::Attribute`.
#[verifier::external_body]
pub(crate) fn read_attribute_tokens(attr: &syn::Attribute) -> (r: proc_macro2::TokenStream)
    ensures
        r == attribute_tokens(*attr),
{
    attr.tokens.clone()
}

/// `syn::Attribute::parse_meta`, and which of its four outcomes it had. It
/// makes a typed literal of every literal token that it meets, also of one
/// after a minus sign, and does so without fail for a decimal number and for
/// an ordinary string; so it is called only on tokens whose literals are all
/// of these two kinds.
#[verifier::external_body]
pub(crate) fn read_attribute_meta(attr: &syn::Attribute) -> (r: ParsedMeta)
    requires
        simple_stream(attribute_tokens(*attr), NESTING_LIMIT as nat),
    ensures
        r@ == attribute_meta(*attr),
{
    match attr.parse_meta() {
        Ok(syn::Meta::Path(_)) => ParsedMeta::Word,
        Ok(syn::Meta::List(list)) => ParsedMeta::List(list.nested.iter().cloned().collect()),
        Ok(syn::Meta::NameValue(_)) => ParsedMeta::Pair,
        Err(_) => ParsedMeta::Failed,
    }
}

/// The variant of a `syn::NestedMeta`, and of the `syn::Meta` in it, with
/// the path and the literal that it holds.
#[verifier::external_body]
pub(crate) fn read_nested(nested: &syn::NestedMeta) -> (r: NestedParts)
    ensures
        r == nested_parts(*nested),
{
    match nested {
        syn::NestedMeta::Lit(_) => NestedParts::Constant,
        syn::NestedMeta::Meta(syn::Meta::Path(path)) => NestedParts::Word(path.clone()),
        syn::NestedMeta::Meta(syn::Meta::List(list)) => NestedParts::List(list.path.clone()),
        syn::NestedMeta::Meta(syn::Meta::NameValue(pair)) => NestedParts::Pair(
            pair.path.clone(),
            pair.lit.clone(),
        ),
    }
}

/// `syn::Path::get_ident`, printed.
#[verifier::external_body]
pub(crate) fn read_path_ident(path: &syn::Path) -> (r: Option<String>)
    ensures
        r.deep_view() == path_ident(*path),
{
    path.get_ident().map(|ident| ident.to_string())
}

/// The variant of a `syn::Lit`, with the string literal that it holds.
#[verifier::external_body]
pub(crate) fn read_lit(lit: &syn::Lit) -> (r: LitKind)
    ensures
        r == lit_kind(*lit),
{
    match lit {
        syn::Lit::Str(text) => LitKind::Str(text.clone()),
        syn::Lit::ByteStr(_) => LitKind::ByteStr,
        syn::Lit::Byte(_) => LitKind::Byte,
        syn::Lit::Char(_) => LitKind::Char,
        syn::Lit::Int(_) => LitKind::Int,
        syn::Lit::Float(_) => LitKind::Float,
        syn::Lit::Bool(_) => LitKind::Bool,
        syn::Lit::Verbatim(_) => LitKind::Verbatim,
    }
}

/// `syn::LitStr::value`.
#[verifier::external_body]
pub(crate) fn read_lit_str(lit: &syn::LitStr) -> (r: String)
    ensures
        r@ == lit_str_value(*lit),
{
    lit.value()
}

/// A literal as the value of `name = value`: its text where it is a string.
pub open spec fn value_spec(lit: syn::Lit) -> ValueView {
    match lit_kind(lit) {
        LitKind::Str(text) => ValueView::Str(lit_str_value(text)),
        _ => ValueView::Other,
    }
}

/// One item of an attribute's list, in the library's terms: of a path, alone
/// or heading a list, the identifier is kept where the path is one; of
/// `path = literal` the literal too.
pub open spec fn meta_item_spec(nested: syn::NestedMeta) -> MetaItemView {
    match nested_parts(nested) {
        NestedParts::Constant => MetaItemView::Constant,
        NestedParts::Word(path) => MetaItemView::Word { name: path_ident(path) },
        NestedParts::List(path) => MetaItemView::Word { name: path_ident(path) },
        NestedParts::Pair(path, lit) => MetaItemView::NameValue {
            name: path_ident(path),
            value: value_spec(lit),
        },
    }
}

/// Whether an attribute is parsed: it is addressed to the mapper, and every
/// literal among its tokens is simple.
pub open spec fn is_parsed(attr: syn::Attribute) -> bool {
    is_mapper_path(attribute_path(attr)) && simple_stream(
        attribute_tokens(attr),
        NESTING_LIMIT as nat,
    )
}

/// An attribute as an annotation. Its items are those of the list that it
/// parses as, where it is parsed and parses as one.
pub open spec fn annotation_spec(attr: syn::Attribute) -> AnnotationView {
    AnnotationView {
        path: attribute_path(attr),
        items: if is_parsed(attr) {
            match attribute_meta(attr) {
                ParsedMetaView::List(nested) => Some(
                    nested.map_values(|item: syn::NestedMeta| meta_item_spec(item)),
                ),
                _ => None,
            }
        } else {
            None
        },
    }
}

/// Attributes as annotations, one for one.
pub open spec fn annotations_spec(attrs: Seq<syn::Attribute>) -> Seq<AnnotationView> {
    attrs.map_values(|attr: syn::Attribute| annotation_spec(attr))
}

/// Whether `decl` is `field` read: the name and the annotations are the
/// field's. The text of the type is left open.
pub open spec fn field_reads_as(field: syn::Field, decl: FieldDeclView) -> bool {
    &&& decl.name == field_name(field)
    &&& decl.annotations == annotations_spec(field_attributes(field))
}

/// Whether `decls` are `fields` read, one for one.
pub open spec fn fields_read_as(fields: Seq<syn::Field>, decls: Seq<FieldDeclView>) -> bool {
    &&& decls.len() == fields.len()
    &&& forall|i: int| 0 <= i < fields.len() ==> field_reads_as(fields[i], #[trigger] decls[i])
}

/// Whether `decl` is `item` read: the name, the annotations and the fields
/// are the item's, an enum and a union having none. The text of the generics
/// is left open.
pub open spec fn item_reads_as(item: syn::DeriveInput, decl: ItemDeclView) -> bool {
    &&& decl.name == item_name(item)
    &&& decl.annotations == annotations_spec(item_attributes(item))
    &&& match item_body(item) {
        ItemBodyView::Struct(fields) => decl.fields is Some && fields_read_as(
            fields,
            decl.fields->Some_0,
        ),
        ItemBodyView::Enum => decl.fields is None,
        ItemBodyView::Union => decl.fields is None,
    }
}

/// Reads the literal of `name = literal`.
pub fn read_value(lit: &syn::Lit) -> (r: Value)
    ensures
        r.deep_view() == value_spec(*lit),
{
    match read_lit(lit) {
        LitKind::Str(text) => Value::Str(read_lit_str(&text)),
        _ => Value::Other,
    }
}

/// Reads one item of an attribute's list.
pub fn read_meta_item(nested: &syn::NestedMeta) -> (r: MetaItem)
    ensures
        r.deep_view() == meta_item_spec(*nested),
{
    match read_nested(nested) {
        NestedParts::Constant => MetaItem::Constant,
        NestedParts::Word(path) => MetaItem::Word { name: read_path_ident(&path) },
        NestedParts::List(path) => MetaItem::Word { name: read_path_ident(&path) },
        NestedParts::Pair(path, lit) => MetaItem::NameValue {
            name: read_path_ident(&path),
            value: read_value(&lit),
        },
    }
}

/// Reads the items of a list.
pub fn read_meta_items(list: &Vec<syn::NestedMeta>) -> (r: Vec<MetaItem>)
    ensures
        r.deep_view() == list@.map_values(|item: syn::NestedMeta| meta_item_spec(item)),
{
    let mut items: Vec<MetaItem> = Vec::new();
    let mut i: usize = 0;
    proof {
        assert(items.deep_view() =~= list@.take(0).map_values(
            |item: syn::NestedMeta| meta_item_spec(item),
        ));
    }
    while i < list.len()
        invariant
            i <= list.len(),
            items.deep_view() == list@.take(i as int).map_values(
                |item: syn::NestedMeta| meta_item_spec(item),
            ),
        decreases list.len() - i,
    {
        let ghost before = items.deep_view();
        let item = read_meta_item(&list[i]);
        items.push(item);
        proof {
            assert(items.deep_view() =~= before.push(item.deep_view()));
            assert(list@.take(i + 1) =~= list@.take(i as int).push(list@[i as int]));
            assert(items.deep_view() =~= list@.take(i + 1).map_values(
                |item: syn::NestedMeta| meta_item_spec(item),
            ));
        }
        i = i + 1;
    }
    proof {
        assert(list@.take(list.len() as int) =~= list@);
    }
    items
}

/// Reads one attribute. It is parsed only where it is addressed to the
/// mapper and every literal among its tokens is simple.
pub fn read_annotation(attr: &syn::Attribute) -> (r: Annotation)
    ensures
        r.deep_view() == annotation_spec(*attr),
{
    let path = read_attribute_path(attr);
    let mut items: Option<Vec<MetaItem>> = None;
    if mapper_path(&path) {
        let tokens = read_attribute_tokens(attr);
        if stream_is_simple(&tokens, NESTING_LIMIT) {
            match read_attribute_meta(attr) {
                ParsedMeta::List(list) => {
                    items = Some(read_meta_items(&list));
                },
                _ => {},
            }
        }
    }
    Annotation { path, items }
}

/// Reads the attributes above an item or a field.
pub fn read_annotations(attrs: &Vec<syn::Attribute>) -> (r: Vec<Annotation>)
    ensures
        r.deep_view() == annotations_spec(attrs@),
{
    let mut out: Vec<Annotation> = Vec::new();
    let mut i: usize = 0;
    proof {
        assert(out.deep_view() =~= annotations_spec(attrs@.take(0)));
    }
    while i < attrs.len()
        invariant
            i <= attrs.len(),
            out.deep_view() == annotations_spec(attrs@.take(i as int)),
        decreases attrs.len() - i,
    {
        let ghost before = out.deep_view();
        let annotation = read_annotation(&attrs[i]);
        out.push(annotation);
        proof {
            assert(out.deep_view() =~= before.push(annotation.deep_view()));
            assert(attrs@.take(i + 1) =~= attrs@.take(i as int).push(attrs@[i as int]));
            assert(out.deep_view() =~= annotations_spec(attrs@.take(i + 1)));
        }
        i = i + 1;
    }
    proof {
        assert(attrs@.take(attrs.len() as int) =~= attrs@);
    }
    out
}

/// Reads one field.
pub fn read_field(field: &syn::Field) -> (r: FieldDecl)
    ensures
        field_reads_as(*field, r.deep_view()),
{
    FieldDecl {
        name: read_field_name(field),
        ty: read_field_type(field),
        annotations: read_annotations(read_field_attributes(field)),
    }
}

/// Reads the fields of a struct.
pub fn read_fields(fields: &Vec<syn::Field>) -> (r: Vec<FieldDecl>)
    ensures
        fields_read_as(fields@, r.deep_view()),
{
    let mut decls: Vec<FieldDecl> = Vec::new();
    let mut i: usize = 0;
    while i < fields.len()
        invariant
            i <= fields.len(),
            fields_read_as(fields@.take(i as int), decls.deep_view()),
        decreases fields.len() - i,
    {
        let ghost before = decls.deep_view();
        let decl = read_field(&fields[i]);
        decls.push(decl);
        proof {
            assert(decls.deep_view() =~= before.push(decl.deep_view()));
            assert(fields@.take(i + 1) =~= fields@.take(i as int).push(fields@[i as int]));
            assert forall|j: int| 0 <= j < i + 1 implies field_reads_as(
                fields@.take(i + 1)[j],
                #[trigger] decls.deep_view()[j],
            ) by {
                if j < i {
                    assert(decls.deep_view()[j] == before[j]);
                }
            }
        }
        i = i + 1;
    }
    proof {
        assert(fields@.take(fields.len() as int) =~= fields@);
    }
    decls
}

/// Reads an item.
pub fn read_item(item: &syn::DeriveInput) -> (r: ItemDecl)
    ensures
        item_reads_as(*item, r.deep_view()),
{
    let fields = match read_item_body(item) {
        ItemBody::Struct(fields) => Some(read_fields(&fields)),
        ItemBody::Enum => None,
        ItemBody::Union => None,
    };
    ItemDecl {
        name: read_item_name(item),
        annotations: read_annotations(read_item_attributes(item)),
        generics: read_item_generics(item),
        fields,
    }
}

} // verus!
