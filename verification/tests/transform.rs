//! End-to-end tests of the Rewrite Visitor on whole modules, with the real
//! GraphQL parser behind the parse boundary.

use gql_codegen_transform::ast::CallArg;
use gql_codegen_transform::ast::CallExpr;
use gql_codegen_transform::ast::Callee;
use gql_codegen_transform::ast::Expr;
use gql_codegen_transform::ast::Module;
use gql_codegen_transform::ast::ModuleItem;
use gql_codegen_transform::ast::Span;
use gql_codegen_transform::ast::TemplateLit;
use gql_codegen_transform::ast::TemplateQuasi;
use gql_codegen_transform::ast::VarDecl;
use gql_codegen_transform::ast::VarDeclarator;
use gql_codegen_transform::visitor::create_graphql_codegen_visitor;
use gql_codegen_transform::visitor::GraphQLCodegenOptions;
use gql_codegen_transform::visitor::GraphQLVisitor;

fn options() -> GraphQLCodegenOptions {
    GraphQLCodegenOptions {
        filename: String::from("src/components/Page.ts"),
        cwd: String::from("/project"),
        artifact_directory: String::from("./src/gql"),
        gql_tag_name: String::from("gql"),
    }
}

fn span(lo: u32, hi: u32) -> Span {
    Span { lo, hi }
}

fn tag_call(tag: &str, text: &str, sp: Span) -> Expr {
    Expr::Call(CallExpr {
        callee: Callee::Ident { name: String::from(tag) },
        args: vec![
            CallArg::Template(TemplateLit {
                quasis: vec![TemplateQuasi { cooked: Some(String::from(text)), span: sp }],
                span: sp,
            }),
        ],
        span: sp,
    })
}

fn var_decl_of(init: Expr) -> ModuleItem {
    ModuleItem::VarDecl(VarDecl { decls: vec![VarDeclarator { init: Some(init) }] })
}

fn run(module: &mut Module) -> GraphQLVisitor {
    let mut visitor = create_graphql_codegen_visitor(options());
    visitor.visit_mut_module(module);
    visitor
}

fn expect_import(item: &ModuleItem, name: &str, source: &str) {
    match item {
        ModuleItem::Import(imp) => {
            assert_eq!(imp.name, name);
            assert_eq!(imp.source, source);
        }
        other => panic!("expected an import, found {:?}", other),
    }
}

fn expect_ident(item: &ModuleItem, name: &str) {
    match item {
        ModuleItem::VarDecl(v) => match &v.decls[0].init {
            Some(Expr::Ident { name: n }) => assert_eq!(n, name),
            other => panic!("expected an identifier initializer, found {:?}", other),
        },
        other => panic!("expected a variable declaration, found {:?}", other),
    }
}

#[test]
fn named_query_rewritten_and_imported() {
    let mut module = Module { body: vec![var_decl_of(tag_call("gql", "query Foo { field }", span(0, 20)))] };
    let visitor = run(&mut module);
    assert_eq!(module.body.len(), 2);
    expect_import(&module.body[0], "FooDocument", "../../src/gql/graphql");
    expect_ident(&module.body[1], "FooDocument");
    assert_eq!(visitor.graphql_operations_or_fragments_to_import, vec![String::from("FooDocument")]);
    assert!(visitor.diagnostics.is_empty());
}

#[test]
fn mutation_and_subscription_naming() {
    let mut module = Module {
        body: vec![
            var_decl_of(tag_call("gql", "mutation Bar { field }", span(0, 10))),
            var_decl_of(tag_call("gql", "subscription Baz { field }", span(11, 20))),
        ],
    };
    let visitor = run(&mut module);
    assert_eq!(module.body.len(), 4);
    expect_import(&module.body[0], "BarDocument", "../../src/gql/graphql");
    expect_import(&module.body[1], "BazDocument", "../../src/gql/graphql");
    expect_ident(&module.body[2], "BarDocument");
    expect_ident(&module.body[3], "BazDocument");
    assert!(visitor.diagnostics.is_empty());
}

#[test]
fn fragment_naming_through_parser() {
    let mut module = Module {
        body: vec![var_decl_of(tag_call("gql", "fragment userFields on User { id }", span(0, 10)))],
    };
    let visitor = run(&mut module);
    assert_eq!(module.body.len(), 2);
    expect_import(&module.body[0], "UserFieldsFragmentDoc", "../../src/gql/graphql");
    expect_ident(&module.body[1], "UserFieldsFragmentDoc");
    assert!(visitor.diagnostics.is_empty());
}

#[test]
fn lowercase_operation_name_capitalized() {
    let mut module = Module { body: vec![var_decl_of(tag_call("gql", "query fooQuery { f }", span(0, 9)))] };
    let _ = run(&mut module);
    expect_ident(&module.body[1], "FooQueryDocument");
}

#[test]
fn import_order_follows_discovery_order() {
    let mut module = Module {
        body: vec![
            ModuleItem::Other,
            var_decl_of(tag_call("gql", "query A { f }", span(0, 5))),
            var_decl_of(tag_call("gql", "query B { f }", span(6, 11))),
        ],
    };
    let visitor = run(&mut module);
    assert_eq!(module.body.len(), 5);
    expect_import(&module.body[0], "ADocument", "../../src/gql/graphql");
    expect_import(&module.body[1], "BDocument", "../../src/gql/graphql");
    assert_eq!(module.body[2], ModuleItem::Other);
    expect_ident(&module.body[3], "ADocument");
    expect_ident(&module.body[4], "BDocument");
    assert_eq!(
        visitor.graphql_operations_or_fragments_to_import,
        vec![String::from("ADocument"), String::from("BDocument")]
    );
}

#[test]
fn anonymous_operation_untouched() {
    let original = var_decl_of(tag_call("gql", "query { field }", span(0, 15)));
    let mut module = Module { body: vec![original.clone()] };
    let visitor = run(&mut module);
    assert_eq!(module.body, vec![original]);
    assert!(visitor.graphql_operations_or_fragments_to_import.is_empty());
    assert!(visitor.diagnostics.is_empty());
}

#[test]
fn bare_selection_set_untouched() {
    let original = var_decl_of(tag_call("gql", "{ field }", span(0, 9)));
    let mut module = Module { body: vec![original.clone()] };
    let visitor = run(&mut module);
    assert_eq!(module.body, vec![original]);
    assert!(visitor.diagnostics.is_empty());
}

#[test]
fn other_tag_name_untouched() {
    let original = var_decl_of(tag_call("notgql", "query Foo { field }", span(0, 10)));
    let mut module = Module { body: vec![original.clone()] };
    let visitor = run(&mut module);
    assert_eq!(module.body, vec![original]);
    assert!(visitor.graphql_operations_or_fragments_to_import.is_empty());
    assert!(visitor.diagnostics.is_empty());
}

#[test]
fn configured_tag_name_respected() {
    let mut options = options();
    options.gql_tag_name = String::from("graphql");
    let mut module = Module { body: vec![var_decl_of(tag_call("graphql", "query Foo { f }", span(0, 10)))] };
    let mut visitor = create_graphql_codegen_visitor(options);
    visitor.visit_mut_module(&mut module);
    assert_eq!(module.body.len(), 2);
    expect_ident(&module.body[1], "FooDocument");
}

#[test]
fn missing_argument_diagnostic() {
    let call = Expr::Call(CallExpr {
        callee: Callee::Ident { name: String::from("gql") },
        args: Vec::new(),
        span: span(3, 8),
    });
    let original = var_decl_of(call);
    let mut module = Module { body: vec![original.clone()] };
    let visitor = run(&mut module);
    assert_eq!(module.body, vec![original]);
    assert!(visitor.graphql_operations_or_fragments_to_import.is_empty());
    assert_eq!(visitor.diagnostics.len(), 1);
    assert!(visitor.diagnostics[0].message.contains("missing GraphQL query"));
    assert!(visitor.diagnostics[0]
        .message
        .starts_with("@graphql-codegen/client-preset-swc-plugin details: "));
    assert_eq!(visitor.diagnostics[0].span, span(3, 8));
}

#[test]
fn malformed_graphql_diagnostic() {
    let quasi_span = span(10, 21);
    let original = var_decl_of(tag_call("gql", "{ invalid(", quasi_span));
    let mut module = Module { body: vec![original.clone()] };
    let visitor = run(&mut module);
    assert_eq!(module.body, vec![original]);
    assert!(visitor.graphql_operations_or_fragments_to_import.is_empty());
    assert_eq!(visitor.diagnostics.len(), 1);
    let message = &visitor.diagnostics[0].message;
    assert!(message.starts_with("@graphql-codegen/client-preset-swc-plugin details: GraphQL "));
    assert!(message.contains("parse error"));
    assert_eq!(visitor.diagnostics[0].span, quasi_span);
}

#[test]
fn failing_site_does_not_stop_siblings() {
    let mut module = Module {
        body: vec![
            var_decl_of(tag_call("gql", "{ invalid(", span(0, 5))),
            var_decl_of(tag_call("gql", "query Ok { f }", span(6, 12))),
        ],
    };
    let visitor = run(&mut module);
    assert_eq!(visitor.diagnostics.len(), 1);
    assert_eq!(module.body.len(), 3);
    expect_import(&module.body[0], "OkDocument", "../../src/gql/graphql");
    expect_ident(&module.body[2], "OkDocument");
}

#[test]
fn noop_module_unchanged() {
    let original = vec![
        ModuleItem::Other,
        var_decl_of(Expr::Ident { name: String::from("x") }),
        ModuleItem::VarDecl(VarDecl { decls: vec![VarDeclarator { init: None }] }),
        var_decl_of(tag_call("notgql", "query Foo { f }", span(0, 4))),
    ];
    let mut module = Module { body: original.clone() };
    let visitor = run(&mut module);
    assert_eq!(module.body, original);
    assert!(visitor.graphql_operations_or_fragments_to_import.is_empty());
    assert!(visitor.diagnostics.is_empty());
}

#[test]
fn non_template_argument_untouched() {
    let call = Expr::Call(CallExpr {
        callee: Callee::Ident { name: String::from("gql") },
        args: vec![CallArg::Other],
        span: span(0, 4),
    });
    let original = var_decl_of(call);
    let mut module = Module { body: vec![original.clone()] };
    let visitor = run(&mut module);
    assert_eq!(module.body, vec![original]);
    assert!(visitor.diagnostics.is_empty());
}

#[test]
fn unresolved_cooked_text_untouched() {
    let call = Expr::Call(CallExpr {
        callee: Callee::Ident { name: String::from("gql") },
        args: vec![CallArg::Template(TemplateLit {
            quasis: vec![TemplateQuasi { cooked: None, span: span(0, 4) }],
            span: span(0, 4),
        })],
        span: span(0, 4),
    });
    let original = var_decl_of(call);
    let mut module = Module { body: vec![original.clone()] };
    let visitor = run(&mut module);
    assert_eq!(module.body, vec![original]);
    assert!(visitor.diagnostics.is_empty());
}

#[test]
fn multiple_declarators_processed_independently() {
    let mut module = Module {
        body: vec![ModuleItem::VarDecl(VarDecl {
            decls: vec![
                VarDeclarator { init: Some(Expr::Ident { name: String::from("plain") }) },
                VarDeclarator { init: Some(tag_call("gql", "query A { f }", span(0, 5))) },
                VarDeclarator { init: Some(tag_call("gql", "query B { f }", span(6, 11))) },
            ],
        })],
    };
    let visitor = run(&mut module);
    assert_eq!(
        visitor.graphql_operations_or_fragments_to_import,
        vec![String::from("ADocument"), String::from("BDocument")]
    );
    assert_eq!(module.body.len(), 3);
    match &module.body[2] {
        ModuleItem::VarDecl(v) => {
            assert_eq!(v.decls[0].init, Some(Expr::Ident { name: String::from("plain") }));
            assert_eq!(v.decls[1].init, Some(Expr::Ident { name: String::from("ADocument") }));
            assert_eq!(v.decls[2].init, Some(Expr::Ident { name: String::from("BDocument") }));
        }
        other => panic!("expected a variable declaration, found {:?}", other),
    }
}

#[test]
fn only_first_template_fragment_used() {
    let call = Expr::Call(CallExpr {
        callee: Callee::Ident { name: String::from("gql") },
        args: vec![CallArg::Template(TemplateLit {
            quasis: vec![
                TemplateQuasi { cooked: Some(String::from("query First { f }")), span: span(0, 5) },
                TemplateQuasi { cooked: Some(String::from("query Second { f }")), span: span(6, 11) },
            ],
            span: span(0, 11),
        })],
        span: span(0, 11),
    });
    let mut module = Module { body: vec![var_decl_of(call)] };
    let visitor = run(&mut module);
    assert_eq!(
        visitor.graphql_operations_or_fragments_to_import,
        vec![String::from("FirstDocument")]
    );
}

#[test]
fn path_failure_reported_as_diagnostic() {
    let mut options = options();
    options.cwd = String::from("relativecwd");
    options.artifact_directory = String::from("/absolute/gql");
    let mut module = Module { body: vec![var_decl_of(tag_call("gql", "query Foo { f }", span(0, 5)))] };
    let mut visitor = create_graphql_codegen_visitor(options);
    visitor.visit_mut_module(&mut module);
    // the call site is rewritten, but no import can be computed
    assert_eq!(module.body.len(), 1);
    expect_ident(&module.body[0], "FooDocument");
    assert_eq!(visitor.diagnostics.len(), 1);
    assert!(visitor.diagnostics[0].message.contains("artifact directory"));
}
