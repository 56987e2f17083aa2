//! The Rewrite Visitor: one pass over a module that rewrites qualifying
//! tagged-template call sites to bare identifier references, collects the
//! export names in discovery order, and afterwards prepends one import per
//! collected name — never before the whole body has been traversed.
//!
//! Diagnostics accumulate in an explicit sink on the visitor; one failing
//! call site neither stops its siblings nor panics.

use vstd::prelude::*;

use crate::ast::CallExpr;
use crate::ast::Callee;
use crate::ast::CallArg;
use crate::ast::Diagnostic;
use crate::ast::DiagnosticView;
use crate::ast::Expr;
use crate::ast::ImportDecl;
use crate::ast::Module;
use crate::ast::ModuleItem;
use crate::ast::Span;
use crate::ast::VarDecl;
use crate::ast::VarDeclarator;
use crate::ast::diags_view;
use crate::ast::no_span;
use crate::gql::export_name_of;
use crate::gql::gql_parse_of;
use crate::gql::parse_graphql;
use crate::gql::derive_export_name;
use crate::paths::import_path_spec;
use crate::paths::resolve_import_path;
use crate::strutil::opt_str_view;
use crate::strutil::str_eq;
use crate::strutil::strs_view;

verus! {

/// Configuration of one transform run, immutable for its lifetime.
pub struct GraphQLCodegenOptions {
    pub filename: String,
    pub cwd: String,
    pub artifact_directory: String,
    pub gql_tag_name: String,
}

/// The rewrite visitor: the configuration, the export names collected for
/// import, and the diagnostics produced — both in discovery order.
pub struct GraphQLVisitor {
    pub options: GraphQLCodegenOptions,
    pub graphql_operations_or_fragments_to_import: Vec<String>,
    pub diagnostics: Vec<Diagnostic>,
}

/// The fixed prefix every diagnostic of this transform carries.
pub open spec fn plugin_prefix() -> Seq<char> {
    "@graphql-codegen/client-preset-swc-plugin details: "@
}

/// The details reported when the tag is called without arguments.
pub open spec fn missing_query_details() -> Seq<char> {
    "missing GraphQL query"@
}

/// A parse failure's details: the parser's message, marked as coming from
/// the embedded query language.
pub open spec fn graphql_error_details(msg: Seq<char>) -> Seq<char> {
    "GraphQL "@ + msg
}

/// The details reported when no relative path leads from the transformed
/// file's directory to the artifact directory.
pub open spec fn path_failure_details() -> Seq<char> {
    "could not resolve a relative import path to the artifact directory"@
}

/// The fixed final path segment of the generated module.
pub open spec fn import_suffix() -> Seq<char> {
    "graphql"@
}

/// What the Query Extractor finds at a call site: nothing (a shape mismatch,
/// silently skipped), a matching tag called without arguments, or the first
/// template fragment's resolved text with the fragment's span.
pub enum ExtractOutcome {
    NotApplicable,
    MissingArgument { span: Span },
    Found { text: Seq<char>, span: Span },
}

/// What the Query Extractor finds, as executable data.
#[derive(Clone, Debug, PartialEq, Eq)]
pub enum ExtractResult {
    NotApplicable,
    MissingArgument { span: Span },
    Found { text: String, span: Span },
}

/// The extraction rule: the callee must be an identifier equal to the tag;
/// a matching tag with no argument is the one hard error; otherwise the
/// sole relevant argument must be a template literal whose first fragment
/// has resolved text.
pub open spec fn extract_outcome(call: CallExpr, tag: Seq<char>) -> ExtractOutcome {
    match call.callee {
        Callee::Ident { name } => {
            if name@ != tag {
                ExtractOutcome::NotApplicable
            } else if call.args@.len() == 0 {
                ExtractOutcome::MissingArgument { span: call.span }
            } else {
                match call.args@[0] {
                    CallArg::Template(tpl) => {
                        if tpl.quasis@.len() == 0 {
                            ExtractOutcome::NotApplicable
                        } else {
                            match tpl.quasis@[0].cooked {
                                Some(text) => ExtractOutcome::Found {
                                    text: text@,
                                    span: tpl.quasis@[0].span,
                                },
                                None => ExtractOutcome::NotApplicable,
                            }
                        }
                    },
                    CallArg::Other => ExtractOutcome::NotApplicable,
                }
            }
        },
        Callee::Other => ExtractOutcome::NotApplicable,
    }
}

/// What one call-site initializer yields under the whole pipeline: left
/// alone, one of the two per-site errors, or a rewrite to the derived
/// export name.
pub enum SiteOutcome {
    Skipped,
    MissingQuery { span: Span },
    ParseError { span: Span, message: Seq<char> },
    Rewritten { name: Seq<char> },
}

/// The per-site pipeline: extract the query text, parse it, derive the
/// export name. Every failure except the two error cases is a silent skip.
pub open spec fn site_outcome(init: Expr, tag: Seq<char>) -> SiteOutcome {
    match init {
        Expr::Call(call) => match extract_outcome(call, tag) {
            ExtractOutcome::NotApplicable => SiteOutcome::Skipped,
            ExtractOutcome::MissingArgument { span } => SiteOutcome::MissingQuery { span },
            ExtractOutcome::Found { text, span } => match gql_parse_of(text) {
                Err(msg) => SiteOutcome::ParseError { span, message: msg },
                Ok(defs) => match export_name_of(defs) {
                    Some(name) => SiteOutcome::Rewritten { name },
                    None => SiteOutcome::Skipped,
                },
            },
        },
        _ => SiteOutcome::Skipped,
    }
}

/// How one declarator is transformed: a rewritten call site becomes a bare
/// identifier reference carrying the export name; every other outcome
/// leaves the declarator unchanged.
pub open spec fn declarator_rewritten(d0: VarDeclarator, d1: VarDeclarator, tag: Seq<char>) -> bool {
    match d0.init {
        Some(init0) => match site_outcome(init0, tag) {
            SiteOutcome::Rewritten { name } => d1.init matches Some(e) && e matches Expr::Ident {
                name: n,
            } && n@ == name,
            _ => d1 == d0,
        },
        None => d1 == d0,
    }
}

/// The export names one declarator contributes, in discovery order.
pub open spec fn declarator_names(d: VarDeclarator, tag: Seq<char>) -> Seq<Seq<char>> {
    match d.init {
        Some(init) => match site_outcome(init, tag) {
            SiteOutcome::Rewritten { name } => seq![name],
            _ => seq![],
        },
        None => seq![],
    }
}

/// The diagnostics one declarator contributes.
pub open spec fn declarator_diags(d: VarDeclarator, tag: Seq<char>) -> Seq<DiagnosticView> {
    match d.init {
        Some(init) => match site_outcome(init, tag) {
            SiteOutcome::MissingQuery { span } => seq![
                DiagnosticView { span, message: plugin_prefix() + missing_query_details() },
            ],
            SiteOutcome::ParseError { span, message } => seq![
                DiagnosticView { span, message: plugin_prefix() + graphql_error_details(message) },
            ],
            _ => seq![],
        },
        None => seq![],
    }
}

/// The export names a declarator sequence contributes, in order.
pub open spec fn decls_names(ds: Seq<VarDeclarator>, tag: Seq<char>) -> Seq<Seq<char>>
    decreases ds.len(),
{
    if ds.len() == 0 {
        seq![]
    } else {
        decls_names(ds.drop_last(), tag) + declarator_names(ds.last(), tag)
    }
}

/// The diagnostics a declarator sequence contributes, in order.
pub open spec fn decls_diags(ds: Seq<VarDeclarator>, tag: Seq<char>) -> Seq<DiagnosticView>
    decreases ds.len(),
{
    if ds.len() == 0 {
        seq![]
    } else {
        decls_diags(ds.drop_last(), tag) + declarator_diags(ds.last(), tag)
    }
}

/// The export names one module item contributes.
pub open spec fn item_names(item: ModuleItem, tag: Seq<char>) -> Seq<Seq<char>> {
    match item {
        ModuleItem::VarDecl(v) => decls_names(v.decls@, tag),
        _ => seq![],
    }
}

/// The diagnostics one module item contributes.
pub open spec fn item_diags(item: ModuleItem, tag: Seq<char>) -> Seq<DiagnosticView> {
    match item {
        ModuleItem::VarDecl(v) => decls_diags(v.decls@, tag),
        _ => seq![],
    }
}

/// How one module item is transformed: a variable declaration has each of
/// its declarators transformed in place; every other item is unchanged.
pub open spec fn item_rewritten(i0: ModuleItem, i1: ModuleItem, tag: Seq<char>) -> bool {
    match i0 {
        ModuleItem::VarDecl(v0) => i1 matches ModuleItem::VarDecl(v1) && v1.decls@.len()
            == v0.decls@.len() && forall|j: int|
            0 <= j < v0.decls@.len() ==> declarator_rewritten(v0.decls@[j], v1.decls@[j], tag),
        _ => i1 == i0,
    }
}

/// The export names a module body contributes, in discovery order.
pub open spec fn module_names(items: Seq<ModuleItem>, tag: Seq<char>) -> Seq<Seq<char>>
    decreases items.len(),
{
    if items.len() == 0 {
        seq![]
    } else {
        module_names(items.drop_last(), tag) + item_names(items.last(), tag)
    }
}

/// The diagnostics a module body contributes, in discovery order.
pub open spec fn module_diags(items: Seq<ModuleItem>, tag: Seq<char>) -> Seq<DiagnosticView>
    decreases items.len(),
{
    if items.len() == 0 {
        seq![]
    } else {
        module_diags(items.drop_last(), tag) + item_diags(items.last(), tag)
    }
}

/// Whether the item is `import { name } from "source"`.
pub open spec fn is_import_item(item: ModuleItem, name: Seq<char>, source: Seq<char>) -> bool {
    item matches ModuleItem::Import(imp) && imp.name@ == name && imp.source@ == source
}

impl GraphQLVisitor {
    /// A fresh visitor for one transform run: nothing collected yet.
    pub fn new(options: GraphQLCodegenOptions) -> (r: GraphQLVisitor)
        ensures
            r.options == options,
            r.graphql_operations_or_fragments_to_import@ == Seq::<String>::empty(),
            r.diagnostics@ == Seq::<Diagnostic>::empty(),
    {
        GraphQLVisitor {
            options,
            graphql_operations_or_fragments_to_import: Vec::new(),
            diagnostics: Vec::new(),
        }
    }

    /// Appends one fatal diagnostic, carrying the fixed plugin prefix and
    /// the given details, bound to the given span.
    pub fn handle_error(&mut self, details: &str, span: Span)
        ensures
            final(self).options == old(self).options,
            final(self).graphql_operations_or_fragments_to_import == old(
                self,
            ).graphql_operations_or_fragments_to_import,
            diags_view(final(self).diagnostics@) == diags_view(old(self).diagnostics@) + seq![
                DiagnosticView { span, message: plugin_prefix() + details@ },
            ],
    {
        let mut message = String::from_str("@graphql-codegen/client-preset-swc-plugin details: ");
        message.append(details);
        let ghost d0 = self.diagnostics@;
        self.diagnostics.push(Diagnostic { span, message });
        proof {
            assert(diags_view(self.diagnostics@) =~~= diags_view(d0) + seq![
                DiagnosticView { span, message: plugin_prefix() + details@ },
            ]);
        }
    }
}

impl GraphQLVisitor {
    /// Transforms each declarator of one variable declaration: a qualifying
    /// call-site initializer is replaced by a bare identifier reference to
    /// the derived export name, which is also collected for import; the two
    /// per-site errors become diagnostics; everything else is left
    /// unchanged. One failing declarator stops neither its siblings nor
    /// the run.
    pub fn visit_mut_var_decl(&mut self, e: &mut VarDecl)
        ensures
            final(self).options == old(self).options,
            strs_view(final(self).graphql_operations_or_fragments_to_import@) == strs_view(
                old(self).graphql_operations_or_fragments_to_import@,
            ) + decls_names(old(e).decls@, old(self).options.gql_tag_name@),
            diags_view(final(self).diagnostics@) == diags_view(old(self).diagnostics@)
                + decls_diags(old(e).decls@, old(self).options.gql_tag_name@),
            final(e).decls@.len() == old(e).decls@.len(),
            forall|j: int|
                0 <= j < old(e).decls@.len() ==> declarator_rewritten(
                    old(e).decls@[j],
                    final(e).decls@[j],
                    old(self).options.gql_tag_name@,
                ),
            decls_names(old(e).decls@, old(self).options.gql_tag_name@).len() == 0 ==> *final(e)
                == *old(e),
    {
        let ghost tag = self.options.gql_tag_name@;
        let ghost decls0 = e.decls@;
        let ghost whole0 = *e;
        let ghost names0 = self.graphql_operations_or_fragments_to_import@;
        let ghost diags0 = self.diagnostics@;
        let ghost opts0 = self.options;
        let mut j: usize = 0;
        proof {
            assert(decls0.take(0) =~= Seq::<VarDeclarator>::empty());
            assert(strs_view(names0) + Seq::<Seq<char>>::empty() =~~= strs_view(names0));
            assert(diags_view(diags0) + Seq::<DiagnosticView>::empty() =~~= diags_view(diags0));
        }
        while j < e.decls.len()
            invariant
                j <= decls0.len(),
                e.decls@.len() == decls0.len(),
                self.options == opts0,
                tag == opts0.gql_tag_name@,
                forall|i: int| j <= i < decls0.len() ==> e.decls@[i] == decls0[i],
                forall|i: int| 0 <= i < j ==> declarator_rewritten(decls0[i], e.decls@[i], tag),
                strs_view(self.graphql_operations_or_fragments_to_import@) == strs_view(names0)
                    + decls_names(decls0.take(j as int), tag),
                diags_view(self.diagnostics@) == diags_view(diags0) + decls_diags(
                    decls0.take(j as int),
                    tag,
                ),
                decls_names(decls0.take(j as int), tag).len() == 0 ==> *e == whole0,
            decreases decls0.len() - j,
        {
            proof {
                assert(decls0.take(j as int + 1).drop_last() =~= decls0.take(j as int));
                assert(decls0.take(j as int + 1).last() == decls0[j as int]);
            }
            let mut action: Option<String> = None;
            match &e.decls[j].init {
                Some(init) => match init {
                    Expr::Call(call) => {
                        match extract_query_text(call, self.options.gql_tag_name.as_str()) {
                            ExtractResult::NotApplicable => {},
                            ExtractResult::MissingArgument { span } => {
                                self.handle_error("missing GraphQL query", span);
                            },
                            ExtractResult::Found { text, span } => {
                                match parse_graphql(text.as_str()) {
                                    Err(msg) => {
                                        let details = String::from_str("GraphQL ").concat(
                                            msg.as_str(),
                                        );
                                        self.handle_error(details.as_str(), span);
                                    },
                                    Ok(defs) => {
                                        match derive_export_name(&defs) {
                                            Some(name) => {
                                                action = Some(name);
                                            },
                                            None => {},
                                        }
                                    },
                                }
                            },
                        }
                    },
                    _ => {},
                },
                None => {},
            }
            match action {
                Some(name) => {
                    let ghost names_before = self.graphql_operations_or_fragments_to_import@;
                    self.graphql_operations_or_fragments_to_import.push(name.clone());
                    proof {
                        assert(strs_view(self.graphql_operations_or_fragments_to_import@) =~~=
                        strs_view(names_before) + seq![name@]);
                    }
                    e.decls[j] = VarDeclarator { init: Some(Expr::Ident { name }) };
                },
                None => {},
            }
            j = j + 1;
        }
        proof {
            assert(decls0.take(decls0.len() as int) =~= decls0);
        }
    }
}

/// How a whole module body is transformed item by item, in place.
pub open spec fn body_rewritten(b0: Seq<ModuleItem>, b1: Seq<ModuleItem>, tag: Seq<char>) -> bool {
    b1.len() == b0.len() && forall|i: int|
        0 <= i < b0.len() ==> item_rewritten(b0[i], b1[i], tag)
}

/// A body that contributes no export name has no item that contributes one.
proof fn lemma_module_names_empty_items(items: Seq<ModuleItem>, tag: Seq<char>)
    requires
        module_names(items, tag).len() == 0,
    ensures
        forall|i: int| 0 <= i < items.len() ==> item_names(items[i], tag).len() == 0,
    decreases items.len(),
{
    if items.len() > 0 {
        lemma_module_names_empty_items(items.drop_last(), tag);
        assert(forall|i: int|
            0 <= i < items.len() - 1 ==> items.drop_last()[i] == items[i]);
        assert(items.last() == items[items.len() - 1]);
    }
}

/// Builds `import { name } from "source"`.
pub fn as_module_item(name: &String, source: &String) -> (item: ModuleItem)
    ensures
        is_import_item(item, name@, source@),
{
    ModuleItem::Import(ImportDecl { name: name.clone(), source: source.clone() })
}

impl GraphQLVisitor {
    /// The import path from this run's transformed file to its artifact
    /// directory, with the given final segment; nothing when the two
    /// cannot be related.
    pub fn get_relative_import_path(&self, path_end: &str) -> (r: Option<String>)
        ensures
            opt_str_view(r) == import_path_spec(
                self.options.cwd@,
                self.options.filename@,
                self.options.artifact_directory@,
                path_end@,
            ),
    {
        resolve_import_path(
            self.options.cwd.as_str(),
            self.options.filename.as_str(),
            self.options.artifact_directory.as_str(),
            path_end,
        )
    }

    /// Transforms a whole module: first every declarator of every variable
    /// declaration of the body is visited and rewritten in place; only
    /// after that full traversal, one import per collected name — all
    /// sharing one computed path — is prepended before every pre-existing
    /// item, in discovery order. With nothing collected the body is left
    /// as it is and no path is computed; when no path relates the two
    /// directories, a fatal diagnostic is reported instead.
    pub fn visit_mut_module(&mut self, module: &mut Module)
        ensures
            final(self).options == old(self).options,
            strs_view(final(self).graphql_operations_or_fragments_to_import@) == strs_view(
                old(self).graphql_operations_or_fragments_to_import@,
            ) + module_names(old(module).body@, old(self).options.gql_tag_name@),
            ({
                let tag = old(self).options.gql_tag_name@;
                let all = strs_view(old(self).graphql_operations_or_fragments_to_import@)
                    + module_names(old(module).body@, tag);
                let path = import_path_spec(
                    old(self).options.cwd@,
                    old(self).options.filename@,
                    old(self).options.artifact_directory@,
                    import_suffix(),
                );
                &&& diags_view(final(self).diagnostics@) == diags_view(old(self).diagnostics@)
                    + module_diags(old(module).body@, tag) + (if all.len() > 0 && path is None {
                    seq![
                        DiagnosticView {
                            span: no_span(),
                            message: plugin_prefix() + path_failure_details(),
                        },
                    ]
                } else {
                    Seq::<DiagnosticView>::empty()
                })
                &&& all.len() == 0 ==> final(module).body@ == old(module).body@
                &&& if all.len() == 0 {
                    body_rewritten(old(module).body@, final(module).body@, tag)
                } else {
                    match path {
                        Some(p) => {
                            &&& final(module).body@.len() == all.len() + old(module).body@.len()
                            &&& forall|i: int|
                                0 <= i < all.len() ==> is_import_item(
                                    final(module).body@[i],
                                    all[i],
                                    p,
                                )
                            &&& body_rewritten(
                                old(module).body@,
                                final(module).body@.skip(all.len() as int),
                                tag,
                            )
                        },
                        None => body_rewritten(old(module).body@, final(module).body@, tag),
                    }
                }
            }),
    {
        let ghost tag = self.options.gql_tag_name@;
        let ghost body0 = module.body@;
        let ghost names0 = self.graphql_operations_or_fragments_to_import@;
        let ghost diags0 = self.diagnostics@;
        let ghost opts0 = self.options;
        let mut idx: usize = 0;
        proof {
            assert(body0.take(0) =~= Seq::<ModuleItem>::empty());
            assert(strs_view(names0) + Seq::<Seq<char>>::empty() =~~= strs_view(names0));
            assert(diags_view(diags0) + Seq::<DiagnosticView>::empty() =~~= diags_view(diags0));
        }
        while idx < module.body.len()
            invariant
                idx <= body0.len(),
                module.body@.len() == body0.len(),
                self.options == opts0,
                tag == opts0.gql_tag_name@,
                forall|i: int| idx <= i < body0.len() ==> module.body@[i] == body0[i],
                forall|i: int| 0 <= i < idx ==> item_rewritten(body0[i], module.body@[i], tag),
                forall|i: int|
                    0 <= i < idx && item_names(body0[i], tag).len() == 0 ==> module.body@[i]
                        == body0[i],
                strs_view(self.graphql_operations_or_fragments_to_import@) == strs_view(names0)
                    + module_names(body0.take(idx as int), tag),
                diags_view(self.diagnostics@) == diags_view(diags0) + module_diags(
                    body0.take(idx as int),
                    tag,
                ),
            decreases body0.len() - idx,
        {
            proof {
                assert(body0.take(idx as int + 1).drop_last() =~= body0.take(idx as int));
                assert(body0.take(idx as int + 1).last() == body0[idx as int]);
            }
            match &mut module.body[idx] {
                ModuleItem::VarDecl(v) => {
                    self.visit_mut_var_decl(v);
                },
                _ => {},
            }
            idx = idx + 1;
        }
        proof {
            assert(body0.take(body0.len() as int) =~= body0);
        }
        let ghost body1 = module.body@;
        let ghost list1 = self.graphql_operations_or_fragments_to_import@;
        let ghost diags1 = self.diagnostics@;
        let ghost all = strs_view(list1);
        if self.graphql_operations_or_fragments_to_import.is_empty() {
            proof {
                assert(diags_view(self.diagnostics@) + Seq::<DiagnosticView>::empty() =~~=
                diags_view(self.diagnostics@));
                lemma_module_names_empty_items(body0, tag);
                assert(module.body@ =~= body0);
            }
            return ;
        }
        let path = self.get_relative_import_path("graphql");
        match path {
            None => {
                self.handle_error(
                    "could not resolve a relative import path to the artifact directory",
                    Span { lo: 0, hi: 0 },
                );
            },
            Some(p) => {
                let mut new_body: Vec<ModuleItem> = Vec::new();
                let mut t: usize = 0;
                while t < self.graphql_operations_or_fragments_to_import.len()
                    invariant
                        t <= list1.len(),
                        self.options == opts0,
                        self.graphql_operations_or_fragments_to_import@ == list1,
                        self.diagnostics@ == diags1,
                        module.body@ == body1,
                        all == strs_view(list1),
                        new_body@.len() == t,
                        forall|i: int| 0 <= i < t ==> is_import_item(new_body@[i], all[i], p@),
                    decreases list1.len() - t,
                {
                    let item = as_module_item(
                        &self.graphql_operations_or_fragments_to_import[t],
                        &p,
                    );
                    new_body.push(item);
                    t = t + 1;
                }
                new_body.append(&mut module.body);
                module.body = new_body;
                proof {
                    assert(module.body@.skip(all.len() as int) =~= body1);
                    assert(diags_view(self.diagnostics@) + Seq::<DiagnosticView>::empty() =~~=
                    diags_view(self.diagnostics@));
                }
            },
        }
    }
}

/// Constructs the rewrite visitor for one transform run.
pub fn create_graphql_codegen_visitor(options: GraphQLCodegenOptions) -> (r: GraphQLVisitor)
    ensures
        r.options == options,
        r.graphql_operations_or_fragments_to_import@ == Seq::<String>::empty(),
        r.diagnostics@ == Seq::<Diagnostic>::empty(),
{
    GraphQLVisitor::new(options)
}

/// Extracts the query text for a call to the configured tag, by the
/// extraction rule.
pub fn extract_query_text(call: &CallExpr, tag: &str) -> (r: ExtractResult)
    ensures
        match r {
            ExtractResult::NotApplicable => extract_outcome(*call, tag@)
                == ExtractOutcome::NotApplicable,
            ExtractResult::MissingArgument { span } => extract_outcome(*call, tag@)
                == (ExtractOutcome::MissingArgument { span }),
            ExtractResult::Found { text, span } => extract_outcome(*call, tag@) == (
            ExtractOutcome::Found { text: text@, span }),
        },
{
    match &call.callee {
        Callee::Ident { name } => {
            if !str_eq(name.as_str(), tag) {
                return ExtractResult::NotApplicable;
            }
        },
        Callee::Other => {
            return ExtractResult::NotApplicable;
        },
    }
    if call.args.len() == 0 {
        return ExtractResult::MissingArgument { span: call.span };
    }
    match &call.args[0] {
        CallArg::Template(tpl) => {
            if tpl.quasis.len() == 0 {
                return ExtractResult::NotApplicable;
            }
            match &tpl.quasis[0].cooked {
                Some(text) => ExtractResult::Found { text: text.clone(), span: tpl.quasis[0].span },
                None => ExtractResult::NotApplicable,
            }
        },
        CallArg::Other => ExtractResult::NotApplicable,
    }
}

} // verus!
