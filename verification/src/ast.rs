//! The abstract syntax tree of the host source file, as far as the
//! transform reads and mutates it: module bodies, variable declarations,
//! call expressions and template literals. Every other node kind appears
//! only as an opaque `Other`, which the transform never touches.

use vstd::prelude::*;

verus! {

/// A source span in the host file, for diagnostics.
#[derive(Clone, Copy, PartialEq, Eq, Structural, Debug)]
pub struct Span {
    pub lo: u32,
    pub hi: u32,
}

/// The span used when no source position applies.
pub open spec fn no_span() -> Span {
    Span { lo: 0, hi: 0 }
}

/// A fatal diagnostic bound to a source span.
#[derive(Clone, Debug, PartialEq, Eq)]
pub struct Diagnostic {
    pub span: Span,
    pub message: String,
}

/// The view of a diagnostic: its span and message text.
pub struct DiagnosticView {
    pub span: Span,
    pub message: Seq<char>,
}

impl View for Diagnostic {
    type V = DiagnosticView;

    open spec fn view(&self) -> DiagnosticView {
        DiagnosticView { span: self.span, message: self.message@ }
    }
}

/// The view of a diagnostic vector.
pub open spec fn diags_view(s: Seq<Diagnostic>) -> Seq<DiagnosticView> {
    s.map_values(|d: Diagnostic| d@)
}

/// One static fragment ("quasi") of a template literal, with its resolved
/// ("cooked") text when the fragment resolves, and its span.
#[derive(Clone, Debug, PartialEq, Eq)]
pub struct TemplateQuasi {
    pub cooked: Option<String>,
    pub span: Span,
}

/// A template literal: its ordered static fragments.
#[derive(Clone, Debug, PartialEq, Eq)]
pub struct TemplateLit {
    pub quasis: Vec<TemplateQuasi>,
    pub span: Span,
}

/// One argument of a call: a template literal, or any other expression,
/// which the transform never reads further.
#[derive(Clone, Debug, PartialEq, Eq)]
pub enum CallArg {
    Template(TemplateLit),
    Other,
}

/// The callee of a call: a simple identifier, or anything else.
#[derive(Clone, Debug, PartialEq, Eq)]
pub enum Callee {
    Ident { name: String },
    Other,
}

/// A call expression.
#[derive(Clone, Debug, PartialEq, Eq)]
pub struct CallExpr {
    pub callee: Callee,
    pub args: Vec<CallArg>,
    pub span: Span,
}

/// An expression, as far as the transform distinguishes them.
#[derive(Clone, Debug, PartialEq, Eq)]
pub enum Expr {
    Call(CallExpr),
    Ident { name: String },
    Other,
}

/// One declarator of a variable declaration, with its optional initializer.
#[derive(Clone, Debug, PartialEq, Eq)]
pub struct VarDeclarator {
    pub init: Option<Expr>,
}

/// A variable declaration: its ordered declarators.
#[derive(Clone, Debug, PartialEq, Eq)]
pub struct VarDecl {
    pub decls: Vec<VarDeclarator>,
}

/// An import of one name from a module source:
/// `import { name } from "source"`.
#[derive(Clone, Debug, PartialEq, Eq)]
pub struct ImportDecl {
    pub name: String,
    pub source: String,
}

/// One item of a module body.
#[derive(Clone, Debug, PartialEq, Eq)]
pub enum ModuleItem {
    VarDecl(VarDecl),
    Import(ImportDecl),
    Other,
}

/// A module: the ordered items of its body.
#[derive(Clone, Debug, PartialEq, Eq)]
pub struct Module {
    pub body: Vec<ModuleItem>,
}

} // verus!
