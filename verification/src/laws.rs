//! Laws of the transform, stated and proved over the same spec functions
//! the executable contracts use.

use vstd::prelude::*;

use crate::ast::Callee;
use crate::ast::DiagnosticView;
use crate::ast::Expr;
use crate::ast::ModuleItem;
use crate::ast::VarDeclarator;
use crate::gql::GqlDefinitionView;
use crate::gql::document_suffix;
use crate::gql::export_name_of;
use crate::gql::fragment_doc_suffix;
use crate::gql::gql_parse_of;
use crate::paths::is_absolute;
use crate::paths::path_segments;
use crate::paths::resolved_artifact_dir;
use crate::strutil::capitalized;
use crate::strutil::to_upper_char;
use crate::visitor::ExtractOutcome;
use crate::visitor::SiteOutcome;
use crate::visitor::declarator_diags;
use crate::visitor::declarator_names;
use crate::visitor::declarator_rewritten;
use crate::visitor::extract_outcome;
use crate::visitor::item_names;
use crate::visitor::module_names;
use crate::visitor::site_outcome;

verus! {

/// Idempotence of skip paths: a call whose callee is not an identifier
/// equal to the configured tag leaves its declarator unchanged and
/// contributes neither an import name nor a diagnostic — for all inputs.
pub proof fn lemma_skip_when_tag_differs(d: VarDeclarator, tag: Seq<char>)
    requires
        d.init matches Some(init) && init matches Expr::Call(call) && (call.callee matches
            Callee::Ident { name } ==> name@ != tag),
    ensures
        forall|d1: VarDeclarator| declarator_rewritten(d, d1, tag) ==> d1 == d,
        declarator_names(d, tag) == Seq::<Seq<char>>::empty(),
        declarator_diags(d, tag) == Seq::<DiagnosticView>::empty(),
{
    let init = d.init->0;
    assert(site_outcome(init, tag) is Skipped);
    assert(declarator_names(d, tag) =~= Seq::<Seq<char>>::empty());
    assert(declarator_diags(d, tag) =~= Seq::<DiagnosticView>::empty());
}

/// Capitalization touches exactly the first character: the length is kept,
/// the first character is uppercased by the ASCII rule, every later
/// character is unchanged.
pub proof fn lemma_capitalized_shape(s: Seq<char>)
    requires
        s.len() >= 1,
    ensures
        capitalized(s).len() == s.len(),
        capitalized(s)[0] == to_upper_char(s[0]),
        forall|i: int| 1 <= i < s.len() ==> capitalized(s)[i] == s[i],
{
}

/// Round-trip naming: a document whose first definition is a named
/// operation `foo` is named `FooDocument`; one whose first definition is a
/// fragment `baz` is named `BazFragmentDoc` — in both cases the first
/// character is uppercased and the rest of the name is unchanged.
pub proof fn lemma_round_trip_naming(defs: Seq<GqlDefinitionView>)
    requires
        defs.len() >= 1,
    ensures
        defs[0] matches GqlDefinitionView::Operation { name: Some(n) } ==> n.len() >= 1
            ==> export_name_of(defs) == Some(capitalized(n + document_suffix())),
        defs[0] matches GqlDefinitionView::Fragment { name: n } ==> n.len() >= 1
            ==> export_name_of(defs) == Some(capitalized(n + fragment_doc_suffix())),
{
}

/// Anonymous operations are untouched: when the text of a qualifying call
/// site parses to a document whose first definition is an operation
/// without a name, the declarator is left unchanged and contributes
/// neither an import name nor a diagnostic.
pub proof fn lemma_anonymous_operation_untouched(d: VarDeclarator, tag: Seq<char>)
    requires
        d.init matches Some(init) && init matches Expr::Call(call) && extract_outcome(call, tag)
            matches ExtractOutcome::Found { text, span } && gql_parse_of(text) matches Ok(defs)
            && defs.len() >= 1 && defs[0] matches GqlDefinitionView::Operation { name: None },
    ensures
        forall|d1: VarDeclarator| declarator_rewritten(d, d1, tag) ==> d1 == d,
        declarator_names(d, tag) == Seq::<Seq<char>>::empty(),
        declarator_diags(d, tag) == Seq::<DiagnosticView>::empty(),
{
    let init = d.init->0;
    assert(site_outcome(init, tag) is Skipped);
    assert(declarator_names(d, tag) =~= Seq::<Seq<char>>::empty());
    assert(declarator_diags(d, tag) =~= Seq::<DiagnosticView>::empty());
}

/// Import injection ordering: two call sites discovered in source order
/// contribute their export names in that same order, so the two import
/// statements the module visit prepends stand in that order too.
pub proof fn lemma_import_order(
    items: Seq<ModuleItem>,
    tag: Seq<char>,
    a: Seq<char>,
    b: Seq<char>,
)
    requires
        items.len() == 2,
        item_names(items[0], tag) == seq![a],
        item_names(items[1], tag) == seq![b],
    ensures
        module_names(items, tag) == seq![a, b],
{
    let first = items.drop_last();
    assert(first.drop_last() =~= Seq::<ModuleItem>::empty());
    assert(module_names(first.drop_last(), tag) =~= Seq::<Seq<char>>::empty());
    assert(first.last() == items[0]);
    assert(module_names(first, tag) =~= seq![a]);
    assert(items.last() == items[1]);
    assert(module_names(items, tag) =~= module_names(first, tag) + seq![b]);
    assert(module_names(items, tag) =~= seq![a, b]);
}

/// An absolute artifact directory is used as given: it is never joined
/// onto the working directory.
pub proof fn lemma_absolute_artifact_directory(cwd: Seq<char>, artifact: Seq<char>)
    requires
        is_absolute(artifact),
    ensures
        resolved_artifact_dir(cwd, artifact) == (true, path_segments(artifact)),
{
}

} // verus!
