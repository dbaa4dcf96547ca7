//! Annotations and the directives they carry.
//!
//! An annotation is what stands between `#[` and `]` above a record or a field:
//! a path, and after it, for the annotations this library reads, a list of
//! items in parentheses. Only annotations whose path is the single word
//! `pg_mapper` are read; all others are passed over.

use vstd::prelude::*;
use crate::error::GenerationError;
use crate::text::text_is;

verus! {

/// The value in `name = value`.
#[derive(Clone, Debug, PartialEq, Eq)]
pub enum Value {
    /// A string literal, without its quotes and with its escapes resolved.
    Str(String),
    /// Any other literal.
    Other,
}

/// The mathematical view of a [`Value`].
pub enum ValueView {
    Str(Seq<char>),
    Other,
}

impl DeepView for Value {
    type V = ValueView;

    open spec fn deep_view(&self) -> ValueView {
        match self {
            Value::Str(s) => ValueView::Str(s@),
            Value::Other => ValueView::Other,
        }
    }
}

/// One item of an annotation's list.
#[derive(Clone, Debug, PartialEq, Eq)]
pub enum MetaItem {
    /// A keyword, alone or heading a list of its own: `ignore`, `ignore(..)`.
    /// `name` is `None` where a longer path stands in place of the keyword.
    Word { name: Option<String> },
    /// `name = value`.
    NameValue { name: Option<String>, value: Value },
    /// A literal in place of a keyword.
    Constant,
}

/// The mathematical view of a [`MetaItem`].
pub enum MetaItemView {
    Word { name: Option<Seq<char>> },
    NameValue { name: Option<Seq<char>>, value: ValueView },
    Constant,
}

impl DeepView for MetaItem {
    type V = MetaItemView;

    open spec fn deep_view(&self) -> MetaItemView {
        match self {
            MetaItem::Word { name } => MetaItemView::Word { name: name.deep_view() },
            MetaItem::NameValue { name, value } => MetaItemView::NameValue {
                name: name.deep_view(),
                value: value.deep_view(),
            },
            MetaItem::Constant => MetaItemView::Constant,
        }
    }
}

impl MetaItemView {
    /// The keyword of the item, if it has one.
    pub open spec fn name(self) -> Option<Seq<char>> {
        match self {
            MetaItemView::Word { name } => name,
            MetaItemView::NameValue { name, .. } => name,
            MetaItemView::Constant => None,
        }
    }
}

/// An annotation as it is written above a record or a field.
#[derive(Clone, Debug, PartialEq, Eq)]
pub struct Annotation {
    /// The words of the annotation's path, `a::b` being two.
    pub path: Vec<String>,
    /// The items in the parentheses after the path; `None` where the
    /// annotation is not of that form or was not read.
    pub items: Option<Vec<MetaItem>>,
}

/// The mathematical view of an [`Annotation`].
pub struct AnnotationView {
    pub path: Seq<Seq<char>>,
    pub items: Option<Seq<MetaItemView>>,
}

impl DeepView for Annotation {
    type V = AnnotationView;

    open spec fn deep_view(&self) -> AnnotationView {
        AnnotationView { path: self.path.deep_view(), items: self.items.deep_view() }
    }
}

/// Whether a path is the mapper's: the single word `pg_mapper`.
pub open spec fn is_mapper_path(path: Seq<Seq<char>>) -> bool {
    path.len() == 1 && path[0] == "pg_mapper"@
}

impl AnnotationView {
    /// Whether the annotation is addressed to the mapper.
    pub open spec fn is_mapper(self) -> bool {
        is_mapper_path(self.path)
    }

    /// The items of a mapper annotation, `None` for an annotation addressed to
    /// somebody else, and a failure for a mapper annotation without a list.
    pub open spec fn mapper_items(self) -> Result<Option<Seq<MetaItemView>>, GenerationError> {
        if self.is_mapper() {
            match self.items {
                Some(items) => Ok(Some(items)),
                None => Err(GenerationError::MalformedAnnotation),
            }
        } else {
            Ok(None)
        }
    }
}

/// What one item of a field's mapper annotation asks for.
#[derive(Clone, Copy, Debug, PartialEq, Eq, Structural)]
pub enum Directive {
    /// `ignore`: the field is left out of the mapping.
    Ignore,
    /// `flatten`: the field is a nested record, read from the same row.
    Flatten,
    /// `collection`: the field is filled by somebody else.
    Collection,
    /// Anything else: a keyword that is not known, a longer path, a literal.
    Unknown,
}

impl MetaItemView {
    /// The directive that the item stands for. Only its keyword counts: a
    /// value or a list after the keyword changes nothing.
    pub open spec fn directive(self) -> Directive {
        match self.name() {
            Some(name) => if name == "ignore"@ {
                Directive::Ignore
            } else if name == "flatten"@ {
                Directive::Flatten
            } else if name == "collection"@ {
                Directive::Collection
            } else {
                Directive::Unknown
            },
            None => Directive::Unknown,
        }
    }
}

/// The directives of a field: those of the items of its mapper annotations, in
/// the order in which they are written.
pub open spec fn field_directives_spec(annotations: Seq<AnnotationView>) -> Result<
    Seq<Directive>,
    GenerationError,
> {
    match mapper_items_spec(annotations) {
        Err(e) => Err(e),
        Ok(items) => Ok(items.map_values(|item: MetaItemView| item.directive())),
    }
}

/// The items of all the mapper annotations among `annotations`, in the order
/// in which they are written; a failure where one of these annotations has no
/// list.
pub open spec fn mapper_items_spec(annotations: Seq<AnnotationView>) -> Result<
    Seq<MetaItemView>,
    GenerationError,
>
    decreases annotations.len(),
{
    if annotations.len() == 0 {
        Ok(Seq::empty())
    } else {
        match mapper_items_spec(annotations.drop_last()) {
            Err(e) => Err(e),
            Ok(before) => match annotations.last().mapper_items() {
                Err(e) => Err(e),
                Ok(None) => Ok(before),
                Ok(Some(items)) => Ok(before + items),
            },
        }
    }
}

/// Whether `path` is the mapper's.
pub fn mapper_path(path: &Vec<String>) -> (r: bool)
    ensures
        r == is_mapper_path(path.deep_view()),
{
    path.len() == 1 && text_is(&path[0], "pg_mapper")
}

/// The items of `attr` if it is addressed to the mapper.
pub fn get_mapper_meta_items(attr: &Annotation) -> (r: Result<
    Option<&Vec<MetaItem>>,
    GenerationError,
>)
    ensures
        match r {
            Ok(Some(items)) => attr.deep_view().mapper_items() == Ok::<_, GenerationError>(
                Some(items.deep_view()),
            ),
            Ok(None) => attr.deep_view().mapper_items() == Ok::<
                Option<Seq<MetaItemView>>,
                GenerationError,
            >(None),
            Err(e) => attr.deep_view().mapper_items() == Err::<Option<Seq<MetaItemView>>, _>(e),
        },
{
    if mapper_path(&attr.path) {
        match &attr.items {
            Some(items) => Ok(Some(items)),
            None => Err(GenerationError::MalformedAnnotation),
        }
    } else {
        Ok(None)
    }
}

/// Collects the items of all the mapper annotations among `annotations`.
pub fn mapper_items(annotations: &Vec<Annotation>) -> (r: Result<Vec<&MetaItem>, GenerationError>)
    ensures
        match r {
            Ok(items) => mapper_items_spec(annotations.deep_view()) == Ok::<_, GenerationError>(
                items.deep_view(),
            ),
            Err(e) => mapper_items_spec(annotations.deep_view()) == Err::<Seq<MetaItemView>, _>(e),
        },
{
    let mut out: Vec<&MetaItem> = Vec::new();
    let mut i: usize = 0;
    proof {
        assert(out.deep_view() =~= Seq::<MetaItemView>::empty());
        assert(annotations.deep_view().take(0).len() == 0);
    }
    while i < annotations.len()
        invariant
            i <= annotations.len(),
            mapper_items_spec(annotations.deep_view().take(i as int)) == Ok::<_, GenerationError>(
                out.deep_view(),
            ),
        decreases annotations.len() - i,
    {
        proof {
            let all = annotations.deep_view();
            assert(all.take(i + 1).drop_last() =~= all.take(i as int));
            assert(all.take(i + 1).last() == annotations[i as int].deep_view());
        }
        match get_mapper_meta_items(&annotations[i]) {
            Err(e) => {
                proof {
                    lemma_mapper_items_failure(annotations.deep_view(), i + 1);
                }
                return Err(e);
            },
            Ok(None) => {},
            Ok(Some(items)) => {
                let ghost before = out.deep_view();
                let mut j: usize = 0;
                while j < items.len()
                    invariant
                        j <= items.len(),
                        out.deep_view() == before + items.deep_view().take(j as int),
                    decreases items.len() - j,
                {
                    let ghost so_far = out.deep_view();
                    out.push(&items[j]);
                    proof {
                        assert(out.deep_view() =~= so_far.push(items[j as int].deep_view()));
                        assert(items.deep_view().take(j + 1) =~= items.deep_view().take(
                            j as int,
                        ).push(items[j as int].deep_view()));
                        assert(out.deep_view() =~= before + items.deep_view().take(j + 1));
                    }
                    j = j + 1;
                }
                proof {
                    assert(items.deep_view().take(items.len() as int) =~= items.deep_view());
                }
            },
        }
        i = i + 1;
    }
    proof {
        assert(annotations.deep_view().take(annotations.len() as int) =~= annotations.deep_view());
    }
    Ok(out)
}

/// The directive that `item` stands for.
pub fn directive_of(item: &MetaItem) -> (r: Directive)
    ensures
        r == item.deep_view().directive(),
{
    let name = match item {
        MetaItem::Word { name } => name,
        MetaItem::NameValue { name, .. } => name,
        MetaItem::Constant => {
            return Directive::Unknown;
        },
    };
    match name {
        Some(name) => {
            if text_is(name, "ignore") {
                Directive::Ignore
            } else if text_is(name, "flatten") {
                Directive::Flatten
            } else if text_is(name, "collection") {
                Directive::Collection
            } else {
                Directive::Unknown
            }
        },
        None => Directive::Unknown,
    }
}

/// Reads the directives of a field off its annotations.
pub fn field_directives(annotations: &Vec<Annotation>) -> (r: Result<
    Vec<Directive>,
    GenerationError,
>)
    ensures
        match r {
            Ok(directives) => field_directives_spec(annotations.deep_view()) == Ok::<
                _,
                GenerationError,
            >(directives@),
            Err(e) => field_directives_spec(annotations.deep_view()) == Err::<Seq<Directive>, _>(e),
        },
{
    let items = match mapper_items(annotations) {
        Ok(items) => items,
        Err(e) => {
            return Err(e);
        },
    };
    let mut out: Vec<Directive> = Vec::new();
    let mut i: usize = 0;
    while i < items.len()
        invariant
            i <= items.len(),
            out@ == items.deep_view().take(i as int).map_values(
                |item: MetaItemView| item.directive(),
            ),
        decreases items.len() - i,
    {
        let directive = directive_of(items[i]);
        out.push(directive);
        proof {
            let all = items.deep_view();
            assert(all.take(i + 1) =~= all.take(i as int).push(items[i as int].deep_view()));
            assert(out@ =~= all.take(i + 1).map_values(|item: MetaItemView| item.directive()));
        }
        i = i + 1;
    }
    proof {
        assert(items.deep_view().take(items.len() as int) =~= items.deep_view());
    }
    Ok(out)
}

/// The only failure of reading annotations is a mapper annotation without a
/// list.
pub proof fn lemma_mapper_items_error(annotations: Seq<AnnotationView>)
    ensures
        mapper_items_spec(annotations) matches Err(e) ==> e == GenerationError::MalformedAnnotation,
    decreases annotations.len(),
{
    if annotations.len() > 0 {
        lemma_mapper_items_error(annotations.drop_last());
    }
}

/// A failure among the first `n` annotations is a failure of the whole list.
proof fn lemma_mapper_items_failure(annotations: Seq<AnnotationView>, n: int)
    requires
        0 <= n <= annotations.len(),
        mapper_items_spec(annotations.take(n)) is Err,
    ensures
        mapper_items_spec(annotations) == mapper_items_spec(annotations.take(n)),
    decreases annotations.len() - n,
{
    if n < annotations.len() {
        assert(annotations.take(n + 1).drop_last() =~= annotations.take(n));
        lemma_mapper_items_failure(annotations, n + 1);
    } else {
        assert(annotations.take(n) =~= annotations);
    }
}

} // verus!
