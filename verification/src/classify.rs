//! The precedence rules that give a field its classification.
//!
//! A field has exactly one classification, and it depends only on which
//! directives the field carries, not on their order nor on how often one is
//! repeated:
//!
//! * `ignore` wins over everything;
//! * failing that, a directive that is not known leaves the field an ordinary
//!   mapped field, whatever else is written beside it;
//! * failing that, `collection` wins over `flatten`;
//! * a field without directives is an ordinary mapped field.

use vstd::prelude::*;
use crate::directive::{Annotation, AnnotationView, Directive, field_directives, field_directives_spec};
use crate::error::GenerationError;

verus! {

/// How a field takes part in the mapping.
#[derive(Clone, Copy, Debug, PartialEq, Eq, Structural)]
pub enum Classification {
    /// Read from the column named after the field. This is what a field is
    /// unless a directive says otherwise.
    Mapped,
    /// Left out; the record's default value fills it.
    Ignored,
    /// A nested record, read from the same row by its own mapper.
    Flattened,
    /// Left out of the row mapping and filled by somebody else.
    Collection,
}

impl Classification {
    /// Whether a field so classified is read from the row.
    pub open spec fn is_mapped(self) -> bool {
        self == Classification::Mapped || self == Classification::Flattened
    }

    /// Whether a field so classified is read from the row.
    pub fn mapped(&self) -> (r: bool)
        ensures
            r == self.is_mapped(),
    {
        match self {
            Classification::Mapped => true,
            Classification::Flattened => true,
            Classification::Ignored => false,
            Classification::Collection => false,
        }
    }
}

/// What `flatten` and `collection` make of a field when nothing overrides
/// them: `collection` wins over `flatten`.
pub open spec fn settled_spec(directives: Seq<Directive>) -> Classification {
    if directives.contains(Directive::Collection) {
        Classification::Collection
    } else if directives.contains(Directive::Flatten) {
        Classification::Flattened
    } else {
        Classification::Mapped
    }
}

/// The classification of a field that carries `directives`.
pub open spec fn classify_spec(directives: Seq<Directive>) -> Classification {
    if directives.contains(Directive::Ignore) {
        Classification::Ignored
    } else if directives.contains(Directive::Unknown) {
        Classification::Mapped
    } else {
        settled_spec(directives)
    }
}

/// The classification of a field with the given annotations.
pub open spec fn check_field_attributes_spec(annotations: Seq<AnnotationView>) -> Result<
    Classification,
    GenerationError,
> {
    match field_directives_spec(annotations) {
        Err(e) => Err(e),
        Ok(directives) => Ok(classify_spec(directives)),
    }
}

proof fn lemma_contains_step<A>(s: Seq<A>, i: int, x: A)
    requires
        0 <= i < s.len(),
    ensures
        s.take(i + 1).contains(x) <==> (s.take(i).contains(x) || s[i] == x),
{
    let shorter = s.take(i);
    let longer = s.take(i + 1);
    if shorter.contains(x) {
        let j = choose|j: int| 0 <= j < shorter.len() && shorter[j] == x;
        assert(longer[j] == x);
    }
    if s[i] == x {
        assert(longer[i] == x);
    }
    if longer.contains(x) {
        let j = choose|j: int| 0 <= j < longer.len() && longer[j] == x;
        if j < i {
            assert(shorter[j] == x);
        }
    }
}

/// Classifies a field by its directives. The scan stops at the first `ignore`.
pub fn classify(directives: &Vec<Directive>) -> (r: Classification)
    ensures
        r == classify_spec(directives@),
{
    let mut flag = Classification::Mapped;
    let mut unknown = false;
    let mut i: usize = 0;
    while i < directives.len()
        invariant
            i <= directives.len(),
            !directives@.take(i as int).contains(Directive::Ignore),
            unknown == directives@.take(i as int).contains(Directive::Unknown),
            flag == settled_spec(directives@.take(i as int)),
        decreases directives.len() - i,
    {
        proof {
            lemma_contains_step(directives@, i as int, Directive::Ignore);
            lemma_contains_step(directives@, i as int, Directive::Unknown);
            lemma_contains_step(directives@, i as int, Directive::Collection);
            lemma_contains_step(directives@, i as int, Directive::Flatten);
        }
        match directives[i] {
            Directive::Ignore => {
                assert(directives@[i as int] == Directive::Ignore);
                return Classification::Ignored;
            },
            Directive::Flatten => {
                flag =
                match flag {
                    Classification::Mapped => Classification::Flattened,
                    other => other,
                };
            },
            Directive::Collection => {
                flag = Classification::Collection;
            },
            Directive::Unknown => {
                unknown = true;
            },
        }
        i = i + 1;
    }
    proof {
        assert(directives@.take(directives.len() as int) =~= directives@);
    }
    if unknown {
        Classification::Mapped
    } else {
        flag
    }
}

/// Classifies a field by its annotations.
pub fn check_field_attributes(attributes: &Vec<Annotation>) -> (r: Result<
    Classification,
    GenerationError,
>)
    ensures
        r == check_field_attributes_spec(attributes.deep_view()),
{
    match field_directives(attributes) {
        Ok(directives) => Ok(classify(&directives)),
        Err(e) => Err(e),
    }
}

} // verus!
