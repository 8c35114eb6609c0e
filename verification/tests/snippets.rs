use ra_db::make::{self, ArmText, NodeKind, Snippet};

fn wanted(node: NodeKind, source: &str) -> Snippet {
    Snippet { node, source: source.to_string(), required: true }
}

fn list(items: &[&str]) -> Vec<String> {
    items.iter().map(|item| item.to_string()).collect()
}

#[test]
fn names_and_paths() {
    assert_eq!(make::name("foo"), wanted(NodeKind::Name, "mod foo;"));
    assert_eq!(make::name_ref("foo"), wanted(NodeKind::NameRef, "fn f() { foo; }"));
    assert_eq!(make::path_segment("foo"), wanted(NodeKind::PathSegment, "use foo;"));
    assert_eq!(make::path_unqualified("foo"), wanted(NodeKind::Path, "use foo"));
    assert_eq!(make::path_qualified("std::fmt", "Debug"), wanted(NodeKind::Path, "std::fmt::Debug"));
}

#[test]
fn use_trees() {
    assert_eq!(make::use_tree("a::b", None, None, false), wanted(NodeKind::UseTree, "use a::b"));
    assert_eq!(make::use_tree("a::b", None, None, true), wanted(NodeKind::UseTree, "use a::b::*"));
    assert_eq!(
        make::use_tree("a", Some("{b, c}"), None, false),
        wanted(NodeKind::UseTree, "use a::{b, c}")
    );
    assert_eq!(
        make::use_tree("a", None, Some("as z"), false),
        wanted(NodeKind::UseTree, "use a as z")
    );
    assert_eq!(
        make::use_tree("a", Some("{b}"), Some("as z"), true),
        wanted(NodeKind::UseTree, "use a::{b}::* as z")
    );
    assert_eq!(
        make::use_tree_list(&list(&["a", "b::c", "d"])),
        wanted(NodeKind::UseTreeList, "use {a, b::c, d};")
    );
    assert_eq!(make::use_tree_list(&list(&[])), wanted(NodeKind::UseTreeList, "use {};"));
    assert_eq!(make::use_tree_list(&list(&["a"])), wanted(NodeKind::UseTreeList, "use {a};"));
    assert_eq!(make::use_item("a::b"), wanted(NodeKind::UseItem, "use a::b;"));
}

#[test]
fn record_fields() {
    assert_eq!(
        make::record_field("x", Some("1 + 2")),
        wanted(NodeKind::RecordField, "fn f() { S { x: 1 + 2, } }")
    );
    assert_eq!(make::record_field("x", None), wanted(NodeKind::RecordField, "fn f() { S { x, } }"));
}

#[test]
fn blocks() {
    assert_eq!(
        make::block_expr(&list(&["let a = 1;", "b();"]), Some("a")),
        wanted(NodeKind::BlockExpr, "fn f() {\n    let a = 1;\n    b();\n    a\n}")
    );
    assert_eq!(
        make::block_expr(&list(&["b();"]), None),
        wanted(NodeKind::BlockExpr, "fn f() {\n    b();\n}")
    );
    assert_eq!(make::block_expr(&list(&[]), None), wanted(NodeKind::BlockExpr, "fn f() {\n}"));
    assert_eq!(
        make::block_expr(&list(&[]), Some("x")),
        wanted(NodeKind::BlockExpr, "fn f() {\n    x\n}")
    );
    assert_eq!(make::block_from_expr("x + 1"), wanted(NodeKind::Block, "fn f() { x + 1 }"));
}

#[test]
fn fixed_expressions() {
    assert_eq!(make::expr_unit(), wanted(NodeKind::Expr, "const C: () = ();"));
    assert_eq!(make::expr_empty_block(), wanted(NodeKind::Expr, "const C: () = {};"));
    assert_eq!(
        make::expr_unimplemented(),
        wanted(NodeKind::Expr, "const C: () = unimplemented!();")
    );
    assert_eq!(make::expr_continue(), wanted(NodeKind::Expr, "const C: () = continue;"));
    assert_eq!(make::expr_break(), wanted(NodeKind::Expr, "const C: () = break;"));
    assert_eq!(make::expr_return(), wanted(NodeKind::Expr, "const C: () = return;"));
    assert_eq!(make::unreachable_macro_call(), wanted(NodeKind::MacroCall, "unreachable!()"));
}

#[test]
fn built_expressions() {
    assert_eq!(make::expr_path("a::b"), wanted(NodeKind::Expr, "const C: () = a::b;"));
    assert_eq!(
        make::expr_match("x", "{ _ => () }"),
        wanted(NodeKind::Expr, "const C: () = match x { _ => () };")
    );
    assert_eq!(
        make::expr_if("a == b", "{ c }"),
        wanted(NodeKind::Expr, "const C: () = if a == b { c };")
    );
    assert_eq!(make::expr_prefix("!", "done"), wanted(NodeKind::Expr, "const C: () = !done;"));
    assert_eq!(
        make::try_expr_from_text("1 +"),
        Snippet { node: NodeKind::Expr, source: "const C: () = 1 +;".to_string(), required: false }
    );
}

#[test]
fn conditions() {
    assert_eq!(
        make::condition("x > 0", None),
        wanted(NodeKind::Condition, "const _: () = while x > 0 {};")
    );
    assert_eq!(
        make::condition("next()", Some("Some(it)")),
        wanted(NodeKind::Condition, "const _: () = while let Some(it) = next() {};")
    );
}

#[test]
fn patterns() {
    assert_eq!(make::bind_pat("x"), wanted(NodeKind::BindPat, "fn f(x: ())"));
    assert_eq!(make::placeholder_pat(), wanted(NodeKind::PlaceholderPat, "fn f(_: ())"));
    assert_eq!(
        make::tuple_pat(&list(&["a", "b"])),
        wanted(NodeKind::TuplePat, "fn f((a, b): ())")
    );
    assert_eq!(
        make::tuple_struct_pat("Some", &list(&["x"])),
        wanted(NodeKind::TupleStructPat, "fn f(Some(x): ())")
    );
    assert_eq!(
        make::tuple_struct_pat("P", &list(&["x", "_", "z"])),
        wanted(NodeKind::TupleStructPat, "fn f(P(x, _, z): ())")
    );
    assert_eq!(
        make::record_pat("S", &list(&["a", "b"])),
        wanted(NodeKind::RecordPat, "fn f(S { a, b }: ())")
    );
    assert_eq!(make::path_pat("a::B"), wanted(NodeKind::Pat, "fn f(a::B: ())"));
}

#[test]
fn match_arms() {
    assert_eq!(
        make::match_arm(&list(&["A", "B"]), "1"),
        wanted(NodeKind::MatchArm, "fn f() { match () {A | B => 1} }")
    );
    assert_eq!(
        make::match_arm(&list(&["_"]), "{}"),
        wanted(NodeKind::MatchArm, "fn f() { match () {_ => {}} }")
    );
    let arms = vec![
        ArmText { text: "A => 1".to_string(), body_block_like: Some(false) },
        ArmText { text: "B => {}".to_string(), body_block_like: Some(true) },
        ArmText { text: "C =>".to_string(), body_block_like: None },
    ];
    assert_eq!(
        make::match_arm_list(&arms),
        wanted(
            NodeKind::MatchArmList,
            "fn f() { match () {\n    A => 1,\n    B => {}\n    C =>,\n} }"
        )
    );
    assert_eq!(
        make::match_arm_list(&Vec::new()),
        wanted(NodeKind::MatchArmList, "fn f() { match () {\n} }")
    );
}

#[test]
fn where_clauses() {
    assert_eq!(
        make::where_pred("T", &list(&["Clone", "Send"])),
        wanted(NodeKind::WherePred, "fn f() where T: Clone + Send { }")
    );
    assert_eq!(
        make::where_clause(&list(&["T: Clone", "U: Copy"])),
        wanted(NodeKind::WhereClause, "fn f() where T: Clone, U: Copy { }")
    );
}

#[test]
fn statements() {
    assert_eq!(
        make::let_stmt("x", Some("1")),
        wanted(NodeKind::LetStmt, "fn f() { let x = 1; }")
    );
    assert_eq!(make::let_stmt("x", None), wanted(NodeKind::LetStmt, "fn f() { let x; }"));
    assert_eq!(
        make::expr_stmt("foo()", false),
        wanted(NodeKind::ExprStmt, "fn f() { foo(); (); }")
    );
    assert_eq!(
        make::expr_stmt("if a {}", true),
        wanted(NodeKind::ExprStmt, "fn f() { if a {} (); }")
    );
}

use ra_db::make::tokens::{self, TokenSnippet, WsBuilder};

fn token_of(within: NodeKind, source: &str) -> TokenSnippet {
    TokenSnippet { within, source: source.to_string() }
}

#[test]
fn whitespace_tokens() {
    assert_eq!(tokens::try_whitespace(" \n\t"), Some(token_of(NodeKind::SourceFile, " \n\t")));
    assert_eq!(tokens::try_whitespace(""), Some(token_of(NodeKind::SourceFile, "")));
    assert_eq!(tokens::try_whitespace("\u{a0}\u{2003}"), Some(token_of(NodeKind::SourceFile, "\u{a0}\u{2003}")));
    assert_eq!(tokens::try_whitespace(" x "), None);
    assert_eq!(tokens::whitespace("  "), token_of(NodeKind::SourceFile, "  "));
}

#[test]
fn doc_comment_tokens() {
    assert_eq!(
        tokens::try_doc_comment("/// Docs\n"),
        Some(token_of(NodeKind::SourceFile, "/// Docs\n"))
    );
    assert_eq!(tokens::try_doc_comment(" \n"), None);
    assert_eq!(tokens::try_doc_comment(""), None);
    assert_eq!(tokens::doc_comment("//! x"), token_of(NodeKind::SourceFile, "//! x"));
}

#[test]
fn literal_tokens() {
    assert_eq!(
        tokens::try_literal("\"text\""),
        Some(token_of(NodeKind::Literal, "fn f() { let _ = \"text\"; }"))
    );
    assert_eq!(tokens::try_literal("1 "), None);
    assert_eq!(tokens::try_literal("\n1"), None);
    assert_eq!(tokens::literal("42"), token_of(NodeKind::Literal, "fn f() { let _ = 42; }"));
    assert_eq!(tokens::literal(""), token_of(NodeKind::Literal, "fn f() { let _ = ; }"));
}

#[test]
fn ws_builder_keeps_its_text() {
    let builder = WsBuilder::new("\n    ");
    assert_eq!(builder.ws(), token_of(NodeKind::SourceFile, "\n    "));
    assert_eq!(builder.ws(), builder.clone().ws());
}
