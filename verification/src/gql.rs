//! Document Namer and the GraphQL parse boundary.
//!
//! The external parser is consumed as a pure function from source text to a
//! document (a sequence of definitions) or a syntax error. Only what the
//! transform reads of each definition is kept: whether it is a fragment or
//! an operation, and its name. Deriving the canonical export name from the
//! parsed shape is verified code.

use vstd::prelude::*;

use crate::strutil::capitalize;
use crate::strutil::capitalized;
use crate::strutil::opt_str_view;
use graphql_parser::query::Definition as GpDefinition;
use graphql_parser::query::OperationDefinition as GpOperation;

verus! {

/// One definition of a parsed GraphQL document, as far as the transform
/// reads it: a fragment always carries a name; an operation (a query,
/// mutation or subscription, or a bare selection set) may be anonymous.
#[derive(Clone, Debug, PartialEq, Eq)]
pub enum GqlDefinition {
    Fragment { name: String },
    Operation { name: Option<String> },
}

/// The view of a definition: the same shape over character sequences.
pub enum GqlDefinitionView {
    Fragment { name: Seq<char> },
    Operation { name: Option<Seq<char>> },
}

impl View for GqlDefinition {
    type V = GqlDefinitionView;

    open spec fn view(&self) -> GqlDefinitionView {
        match self {
            GqlDefinition::Fragment { name } => GqlDefinitionView::Fragment { name: name@ },
            GqlDefinition::Operation { name: Some(n) } => GqlDefinitionView::Operation {
                name: Some(n@),
            },
            GqlDefinition::Operation { name: None } => GqlDefinitionView::Operation { name: None },
        }
    }
}

/// The view of a definition vector.
pub open spec fn defs_view(s: Seq<GqlDefinition>) -> Seq<GqlDefinitionView> {
    s.map_values(|d: GqlDefinition| d@)
}

/// What the external GraphQL parser returns for the given source text: on
/// success the definitions in order, on failure its error message. The
/// result is a function of the text alone.
pub uninterp spec fn gql_parse_of(text: Seq<char>) -> Result<Seq<GqlDefinitionView>, Seq<char>>;

/// Relies on `graphql_parser::parse_query`: parses executable GraphQL
/// source text into its definitions, of which only the shape (fragment, or
/// operation with an optional name) is kept; a bare selection set is an
/// anonymous operation. On failure the parser's `Display` rendering of the
/// error ("query parse error: ...") is returned.
#[verifier::external_body]
pub(crate) fn parse_graphql(text: &str) -> (r: Result<Vec<GqlDefinition>, String>)
    ensures
        match r {
            Ok(defs) => gql_parse_of(text@) matches Ok(d) && d == defs_view(defs@),
            Err(msg) => gql_parse_of(text@) matches Err(m) && m == msg@,
        },
{
    match graphql_parser::parse_query::<String>(text) {
        Ok(doc) => Ok(
            doc.definitions.into_iter().map(
                |d|
                    match d {
                        GpDefinition::Fragment(f) => GqlDefinition::Fragment { name: f.name },
                        GpDefinition::Operation(GpOperation::SelectionSet(_)) => GqlDefinition::Operation { name: None },
                        GpDefinition::Operation(GpOperation::Query(q)) => GqlDefinition::Operation { name: q.name },
                        GpDefinition::Operation(GpOperation::Mutation(m)) => GqlDefinition::Operation { name: m.name },
                        GpDefinition::Operation(GpOperation::Subscription(s)) => GqlDefinition::Operation { name: s.name },
                    },
            ).collect(),
        ),
        Err(e) => Err(format!("{}", e)),
    }
}

/// The suffix a fragment's export name carries.
pub open spec fn fragment_doc_suffix() -> Seq<char> {
    "FragmentDoc"@
}

/// The suffix an operation's export name carries.
pub open spec fn document_suffix() -> Seq<char> {
    "Document"@
}

/// The canonical export name for a parsed document: derived from its first
/// definition alone. A fragment `baz` yields `BazFragmentDoc`; a named
/// operation `foo` yields `FooDocument` (first character uppercased, rest
/// unchanged). An empty document, an anonymous operation, or an empty name
/// yields nothing: no generated export can match it.
pub open spec fn export_name_of(defs: Seq<GqlDefinitionView>) -> Option<Seq<char>> {
    if defs.len() == 0 {
        None
    } else {
        match defs[0] {
            GqlDefinitionView::Fragment { name } => if name.len() == 0 {
                None
            } else {
                Some(capitalized(name + fragment_doc_suffix()))
            },
            GqlDefinitionView::Operation { name: Some(name) } => if name.len() == 0 {
                None
            } else {
                Some(capitalized(name + document_suffix()))
            },
            GqlDefinitionView::Operation { name: None } => None,
        }
    }
}

/// Derives the canonical export name for the first definition of the
/// document, or nothing when no export can be named.
pub fn derive_export_name(defs: &Vec<GqlDefinition>) -> (r: Option<String>)
    ensures
        opt_str_view(r) == export_name_of(defs_view(defs@)),
{
    if defs.len() == 0 {
        return None;
    }
    proof {
        assert(defs_view(defs@)[0] == defs@[0]@);
    }
    match &defs[0] {
        GqlDefinition::Fragment { name } => {
            if name.as_str().is_empty() {
                None
            } else {
                let base = name.clone().concat("FragmentDoc");
                Some(capitalize(base.as_str()))
            }
        },
        GqlDefinition::Operation { name: Some(name) } => {
            if name.as_str().is_empty() {
                None
            } else {
                let base = name.clone().concat("Document");
                Some(capitalize(base.as_str()))
            }
        },
        GqlDefinition::Operation { name: None } => None,
    }
}

} // verus!
