//! Token trees, and the literals among them that are plain enough to be
//! handed to a parser.
//!
//! The parser of annotations turns every literal token that it meets into a
//! typed literal, and that step is written for the literals it knows: on
//! another one it does not come back with a failure. So before an annotation
//! is parsed, its tokens are walked here, and it is parsed only where every
//! literal is a decimal number or an ordinary string.

use vstd::prelude::*;

verus! {

/// `proc_macro2::TokenStream`: a sequence of token trees.
#[verifier::external_type_specification]
#[verifier::external_body]
pub struct ExTokenStream(proc_macro2::TokenStream);

/// `proc_macro2::TokenTree`: one token, or a delimited group of them.
#[verifier::external_type_specification]
#[verifier::external_body]
pub struct ExTokenTree(proc_macro2::TokenTree);

/// `proc_macro2::Group`: a delimited sequence of token trees.
#[verifier::external_type_specification]
#[verifier::external_body]
pub struct ExGroup(proc_macro2::Group);

/// `proc_macro2::Literal`: one literal token.
#[verifier::external_type_specification]
#[verifier::external_body]
pub struct ExLiteral(proc_macro2::Literal);

/// A token tree taken apart: which of the four it is, with the group or the
/// literal where it is one.
pub enum TreeParts {
    Delimited(proc_macro2::Group),
    Ident,
    Punct,
    Constant(proc_macro2::Literal),
}

/// The token trees of a stream, in order.
pub uninterp spec fn stream_trees(stream: proc_macro2::TokenStream) -> Seq<proc_macro2::TokenTree>;

/// A token tree taken apart.
pub uninterp spec fn tree_parts(tree: proc_macro2::TokenTree) -> TreeParts;

/// The tokens between the delimiters of a group.
pub uninterp spec fn group_stream(group: proc_macro2::Group) -> proc_macro2::TokenStream;

/// A literal token as it is written.
pub uninterp spec fn literal_text(literal: proc_macro2::Literal) -> Seq<char>;

/// The iteration of a `proc_macro2::TokenStream`, collected.
#[verifier::external_body]
pub(crate) fn read_stream(stream: &proc_macro2::TokenStream) -> (r: Vec<proc_macro2::TokenTree>)
    ensures
        r@ == stream_trees(*stream),
{
    stream.clone().into_iter().collect()
}

/// The variant of a `proc_macro2::TokenTree`, with the group or the literal
/// that it holds.
#[verifier::external_body]
pub(crate) fn read_tree(tree: &proc_macro2::TokenTree) -> (r: TreeParts)
    ensures
        r == tree_parts(*tree),
{
    match tree {
        proc_macro2::TokenTree::Group(group) => TreeParts::Delimited(group.clone()),
        proc_macro2::TokenTree::Ident(_) => TreeParts::Ident,
        proc_macro2::TokenTree::Punct(_) => TreeParts::Punct,
        proc_macro2::TokenTree::Literal(literal) => TreeParts::Constant(literal.clone()),
    }
}

/// `proc_macro2::Group::stream`.
#[verifier::external_body]
pub(crate) fn read_group(group: &proc_macro2::Group) -> (r: proc_macro2::TokenStream)
    ensures
        r == group_stream(*group),
{
    group.stream()
}

/// A `proc_macro2::Literal`, printed.
#[verifier::external_body]
pub(crate) fn read_literal_text(literal: &proc_macro2::Literal) -> (r: String)
    ensures
        r@ == literal_text(*literal),
{
    literal.to_string()
}

/// How deep groups may be nested in the tokens of an annotation that is
/// parsed.
pub const NESTING_LIMIT: usize = 32;

/// Where the reading of an ordinary string literal stands.
#[derive(Clone, Copy, Debug, PartialEq, Eq, Structural)]
pub enum Scan {
    /// Nothing is read yet.
    Start,
    /// Between the quotes.
    Body,
    /// Just after a backslash.
    Escape,
    /// The closing quote is read.
    Closed,
    /// This is no ordinary string literal.
    Refused,
}

/// The reading of one more character. Between the quotes a backslash has to
/// be followed by one of `n`, `r`, `t`, `\`, `0`, `'`, `"`, and a carriage
/// return may not stand on its own; after the closing quote nothing may
/// follow.
pub open spec fn scan_step(state: Scan, c: char) -> Scan {
    match state {
        Scan::Start => if c == '"' {
            Scan::Body
        } else {
            Scan::Refused
        },
        Scan::Body => if c == '\\' {
            Scan::Escape
        } else if c == '"' {
            Scan::Closed
        } else if c == '\r' {
            Scan::Refused
        } else {
            Scan::Body
        },
        Scan::Escape => if c == 'n' || c == 'r' || c == 't' || c == '\\' || c == '0' || c == '\''
            || c == '"' {
            Scan::Body
        } else {
            Scan::Refused
        },
        Scan::Closed => Scan::Refused,
        Scan::Refused => Scan::Refused,
    }
}

/// The reading of a text from its first character to its last.
pub open spec fn scan_spec(text: Seq<char>) -> Scan
    decreases text.len(),
{
    if text.len() == 0 {
        Scan::Start
    } else {
        scan_step(scan_spec(text.drop_last()), text.last())
    }
}

/// An ordinary string literal: a quote, characters and simple escapes, a
/// quote, and nothing after it.
pub open spec fn is_simple_string(text: Seq<char>) -> bool {
    scan_spec(text) == Scan::Closed
}

/// One of the ten digits.
pub open spec fn is_digit(c: char) -> bool {
    c == '0' || c == '1' || c == '2' || c == '3' || c == '4' || c == '5' || c == '6' || c == '7'
        || c == '8' || c == '9'
}

/// A decimal number: digits, at least one, and nothing else.
pub open spec fn is_decimal(text: Seq<char>) -> bool {
    text.len() > 0 && forall|i: int| 0 <= i < text.len() ==> is_digit(#[trigger] text[i])
}

/// A literal that is handed to the parser: a decimal number or an ordinary
/// string.
pub open spec fn is_simple_literal(text: Seq<char>) -> bool {
    is_decimal(text) || is_simple_string(text)
}

/// Whether a token tree holds simple literals only, in groups nested no
/// deeper than `depth`.
pub open spec fn simple_tree(tree: proc_macro2::TokenTree, depth: nat) -> bool
    decreases depth, 0nat,
{
    match tree_parts(tree) {
        TreeParts::Delimited(group) => depth > 0 && simple_stream(
            group_stream(group),
            (depth - 1) as nat,
        ),
        TreeParts::Constant(literal) => is_simple_literal(literal_text(literal)),
        TreeParts::Ident => true,
        TreeParts::Punct => true,
    }
}

/// Whether every literal of a stream is simple, at whatever depth it stands,
/// and the stream holds no groups nested deeper than `depth`.
pub open spec fn simple_stream(stream: proc_macro2::TokenStream, depth: nat) -> bool
    decreases depth, 1nat,
{
    forall|i: int|
        0 <= i < stream_trees(stream).len() ==> simple_tree(
            #[trigger] stream_trees(stream)[i],
            depth,
        )
}

/// The reading of one more character.
pub fn scan_char(state: Scan, c: char) -> (r: Scan)
    ensures
        r == scan_step(state, c),
{
    match state {
        Scan::Start => {
            if c == '"' {
                Scan::Body
            } else {
                Scan::Refused
            }
        },
        Scan::Body => {
            if c == '\\' {
                Scan::Escape
            } else if c == '"' {
                Scan::Closed
            } else if c == '\r' {
                Scan::Refused
            } else {
                Scan::Body
            }
        },
        Scan::Escape => {
            if c == 'n' || c == 'r' || c == 't' || c == '\\' || c == '0' || c == '\'' || c == '"' {
                Scan::Body
            } else {
                Scan::Refused
            }
        },
        Scan::Closed => Scan::Refused,
        Scan::Refused => Scan::Refused,
    }
}

/// Whether `c` is one of the ten digits.
pub fn digit(c: char) -> (r: bool)
    ensures
        r == is_digit(c),
{
    c == '0' || c == '1' || c == '2' || c == '3' || c == '4' || c == '5' || c == '6' || c == '7'
        || c == '8' || c == '9'
}

/// Whether `text` is a decimal number or an ordinary string literal.
pub fn simple_literal(text: &str) -> (r: bool)
    ensures
        r == is_simple_literal(text@),
{
    let mut state = Scan::Start;
    let mut digits = true;
    let mut any = false;
    for c in iter: text.chars()
        invariant
            iter.seq() == text@,
            state == scan_spec(text@.take(iter.index() as int)),
            any == (iter.index() > 0),
            digits == (forall|j: int| 0 <= j < iter.index() ==> is_digit(#[trigger] text@[j])),
    {
        proof {
            let i = iter.index() as int;
            assert(text@.take(i + 1).drop_last() =~= text@.take(i));
            assert(text@.take(i + 1).last() == c);
        }
        state = scan_char(state, c);
        if !digit(c) {
            digits = false;
        }
        any = true;
    }
    proof {
        assert(text@.take(text@.len() as int) =~= text@);
    }
    (any && digits) || state == Scan::Closed
}

/// Whether every literal of `stream` is simple and its groups are nested no
/// deeper than `depth`.
pub fn stream_is_simple(stream: &proc_macro2::TokenStream, depth: usize) -> (r: bool)
    ensures
        r == simple_stream(*stream, depth as nat),
    decreases depth,
{
    let trees = read_stream(stream);
    let mut i: usize = 0;
    while i < trees.len()
        invariant
            i <= trees.len(),
            trees@ == stream_trees(*stream),
            forall|j: int| 0 <= j < i ==> simple_tree(#[trigger] trees@[j], depth as nat),
        decreases trees.len() - i,
    {
        let simple = match read_tree(&trees[i]) {
            TreeParts::Delimited(group) => {
                if depth == 0 {
                    false
                } else {
                    let inner = read_group(&group);
                    stream_is_simple(&inner, depth - 1)
                }
            },
            TreeParts::Constant(literal) => {
                let text = read_literal_text(&literal);
                simple_literal(text.as_str())
            },
            TreeParts::Ident => true,
            TreeParts::Punct => true,
        };
        if !simple {
            assert(!simple_tree(trees@[i as int], depth as nat));
            return false;
        }
        i = i + 1;
    }
    true
}

} // verus!
