//! Source snippets for syntax nodes, put together from the text of their
//! parts. A snippet names the kind of node that is wanted and holds a source
//! text whose first node of that kind is the node.

pub mod tokens;

use crate::text::{join, joined, texts};
use vstd::prelude::*;
use vstd::string::StringExecFns;

verus! {

/// The kinds of syntax node that a snippet can ask for.
#[derive(Debug, Clone, Copy, PartialEq, Eq, Hash, Structural)]
pub enum NodeKind {
    Name,
    NameRef,
    PathSegment,
    Path,
    UseTree,
    UseTreeList,
    UseItem,
    RecordField,
    BlockExpr,
    Block,
    Expr,
    Condition,
    BindPat,
    PlaceholderPat,
    TuplePat,
    TupleStructPat,
    RecordPat,
    Pat,
    MatchArm,
    MatchArmList,
    WherePred,
    WhereClause,
    LetStmt,
    ExprStmt,
    MacroCall,
    Literal,
    SourceFile,
}

/// A source text together with the kind of node to take from it.
#[derive(Debug, Clone, PartialEq, Eq)]
pub struct Snippet {
    /// The kind of the node that is wanted.
    pub node: NodeKind,
    /// The text to parse. The node is the first of its kind in it.
    pub source: String,
    /// Whether a text that holds no such node is a fault of the caller.
    pub required: bool,
}

/// `snippet` asks for a node of kind `node`, which must be there, in the
/// text `source`.
pub open spec fn asks(snippet: Snippet, node: NodeKind, source: Seq<char>) -> bool {
    snippet.node == node && snippet.source@ == source && snippet.required
}

/// The three texts in a row.
fn wrap(before: &str, inner: &str, after: &str) -> (text: String)
    ensures
        text@ == before@ + inner@ + after@,
{
    let mut text = String::from_str(before);
    text.append(inner);
    text.append(after);
    text
}

/// The two texts in a row.
fn pair(before: &str, after: &str) -> (text: String)
    ensures
        text@ == before@ + after@,
{
    let mut text = String::from_str(before);
    text.append(after);
    text
}

/// The snippet for a node that must be in the text.
fn ast_from_text(node: NodeKind, text: String) -> (snippet: Snippet)
    ensures
        asks(snippet, node, text@),
{
    Snippet { node, source: text, required: true }
}

/// The snippet for a node that may be missing from the text.
fn try_ast_from_text(node: NodeKind, text: String) -> (snippet: Snippet)
    ensures
        snippet.node == node,
        snippet.source@ == text@,
        !snippet.required,
{
    Snippet { node, source: text, required: false }
}

/// A name, as the name of a module.
pub fn name(text: &str) -> (snippet: Snippet)
    ensures
        asks(snippet, NodeKind::Name, "mod "@ + text@ + ";"@),
{
    ast_from_text(NodeKind::Name, wrap("mod ", text, ";"))
}

/// A reference to a name, as a statement of a function.
pub fn name_ref(text: &str) -> (snippet: Snippet)
    ensures
        asks(snippet, NodeKind::NameRef, "fn f() { "@ + text@ + "; }"@),
{
    ast_from_text(NodeKind::NameRef, wrap("fn f() { ", text, "; }"))
}

/// A path segment that is the given name reference.
pub fn path_segment(name_ref: &str) -> (snippet: Snippet)
    ensures
        asks(snippet, NodeKind::PathSegment, "use "@ + name_ref@ + ";"@),
{
    ast_from_text(NodeKind::PathSegment, wrap("use ", name_ref, ";"))
}

/// A path of the one segment.
pub fn path_unqualified(segment: &str) -> (snippet: Snippet)
    ensures
        asks(snippet, NodeKind::Path, "use "@ + segment@),
{
    path_from_text(pair("use ", segment))
}

/// The path `qual` with one more segment.
pub fn path_qualified(qual: &str, segment: &str) -> (snippet: Snippet)
    ensures
        asks(snippet, NodeKind::Path, qual@ + "::"@ + segment@),
{
    path_from_text(wrap(qual, "::", segment))
}

/// A path, from a text that begins with it.
fn path_from_text(text: String) -> (snippet: Snippet)
    ensures
        asks(snippet, NodeKind::Path, text@),
{
    ast_from_text(NodeKind::Path, text)
}

/// The text of a use tree: the path, then the list of trees below it if
/// there is one, a star if one is asked for, and the alias if there is one.
pub open spec fn use_tree_text(
    path: Seq<char>,
    use_tree_list: Option<Seq<char>>,
    alias: Option<Seq<char>>,
    add_star: bool,
) -> Seq<char> {
    "use "@ + path + (match use_tree_list {
        Some(list) => "::"@ + list,
        None => Seq::empty(),
    }) + (if add_star {
        "::*"@
    } else {
        Seq::empty()
    }) + (match alias {
        Some(alias) => " "@ + alias,
        None => Seq::empty(),
    })
}

/// The characters of a text that may be missing.
pub open spec fn chars_of(text: Option<&str>) -> Option<Seq<char>> {
    match text {
        Some(t) => Some(t@),
        None => None,
    }
}

/// A use tree.
pub fn use_tree(path: &str, use_tree_list: Option<&str>, alias: Option<&str>, add_star: bool) -> (snippet:
    Snippet)
    ensures
        asks(
            snippet,
            NodeKind::UseTree,
            use_tree_text(path@, chars_of(use_tree_list), chars_of(alias), add_star),
        ),
{
    let mut buf = pair("use ", path);
    if let Some(use_tree_list) = use_tree_list {
        buf.append("::");
        buf.append(use_tree_list);
    }
    assert(buf@ =~= "use "@ + path@ + (match chars_of(use_tree_list) {
        Some(list) => "::"@ + list,
        None => Seq::empty(),
    }));
    if add_star {
        buf.append("::*");
    }
    if let Some(alias) = alias {
        buf.append(" ");
        buf.append(alias);
    }
    assert(buf@ =~= use_tree_text(path@, chars_of(use_tree_list), chars_of(alias), add_star));
    ast_from_text(NodeKind::UseTree, buf)
}

/// A list of use trees in braces.
pub fn use_tree_list(use_trees: &Vec<String>) -> (snippet: Snippet)
    ensures
        asks(snippet, NodeKind::UseTreeList, "use {"@ + joined(texts(use_trees@), ", "@) + "};"@),
{
    let use_trees = join(use_trees, ", ");
    ast_from_text(NodeKind::UseTreeList, wrap("use {", use_trees.as_str(), "};"))
}

/// A use item of the one tree.
pub fn use_item(use_tree: &str) -> (snippet: Snippet)
    ensures
        asks(snippet, NodeKind::UseItem, "use "@ + use_tree@ + ";"@),
{
    ast_from_text(NodeKind::UseItem, wrap("use ", use_tree, ";"))
}

/// The text of a field of a record expression: the name, and the value
/// after a colon where there is one.
pub open spec fn record_field_text(name: Seq<char>, expr: Option<Seq<char>>) -> Seq<char> {
    match expr {
        Some(expr) => name + ": "@ + expr,
        None => name,
    }
}

/// A field of a record expression.
pub fn record_field(name: &str, expr: Option<&str>) -> (snippet: Snippet)
    ensures
        asks(
            snippet,
            NodeKind::RecordField,
            "fn f() { S { "@ + record_field_text(name@, chars_of(expr)) + ", } }"@,
        ),
{
    let text = match expr {
        Some(expr) => wrap(name, ": ", expr),
        None => String::from_str(name),
    };
    ast_from_text(NodeKind::RecordField, wrap("fn f() { S { ", text.as_str(), ", } }"))
}

/// Each text on a line of its own, indented by four spaces.
pub open spec fn indented_lines(lines: Seq<Seq<char>>) -> Seq<char>
    decreases lines.len(),
{
    if lines.len() == 0 {
        Seq::empty()
    } else {
        indented_lines(lines.drop_last()) + "    "@ + lines.last() + "\n"@
    }
}

/// The text of a block: the statements and then the tail expression, if
/// there is one, each on a line of its own between the braces.
pub open spec fn block_text(stmts: Seq<Seq<char>>, tail_expr: Option<Seq<char>>) -> Seq<char> {
    "{\n"@ + indented_lines(
        match tail_expr {
            Some(tail) => stmts.push(tail),
            None => stmts,
        },
    ) + "}"@
}

/// A block expression of the statements and the tail expression.
pub fn block_expr(stmts: &Vec<String>, tail_expr: Option<&str>) -> (snippet: Snippet)
    ensures
        asks(
            snippet,
            NodeKind::BlockExpr,
            "fn f() "@ + block_text(texts(stmts@), chars_of(tail_expr)),
        ),
{
    let mut buf = String::from_str("fn f() ");
    buf.append("{\n");
    let mut i: usize = 0;
    while i < stmts.len()
        invariant
            0 <= i <= stmts.len(),
            buf@ == "fn f() "@ + "{\n"@ + indented_lines(texts(stmts@).take(i as int)),
        decreases stmts.len() - i,
    {
        buf.append("    ");
        buf.append(stmts[i].as_str());
        buf.append("\n");
        proof {
            let lines = texts(stmts@).take(i + 1);
            assert(lines.drop_last() =~= texts(stmts@).take(i as int));
            assert(buf@ =~= "fn f() "@ + "{\n"@ + indented_lines(lines));
        }
        i += 1;
    }
    assert(texts(stmts@).take(i as int) =~= texts(stmts@));
    if let Some(tail_expr) = tail_expr {
        buf.append("    ");
        buf.append(tail_expr);
        buf.append("\n");
        proof {
            let lines = texts(stmts@).push(tail_expr@);
            assert(lines.drop_last() =~= texts(stmts@));
            assert(buf@ =~= "fn f() "@ + "{\n"@ + indented_lines(lines));
        }
    }
    buf.append("}");
    assert(buf@ =~= "fn f() "@ + block_text(texts(stmts@), chars_of(tail_expr)));
    ast_from_text(NodeKind::BlockExpr, buf)
}

/// The block that holds only the expression.
pub fn block_from_expr(e: &str) -> (snippet: Snippet)
    ensures
        asks(snippet, NodeKind::Block, "fn f() "@ + ("{ "@ + e@ + " }"@)),
{
    let block = wrap("{ ", e, " }");
    ast_from_text(NodeKind::Block, pair("fn f() ", block.as_str()))
}

/// The source in which a text stands as an expression.
pub open spec fn expr_source(text: Seq<char>) -> Seq<char> {
    "const C: () = "@ + text + ";"@
}

/// An expression, from its text.
fn expr_from_text(text: &str) -> (snippet: Snippet)
    ensures
        asks(snippet, NodeKind::Expr, expr_source(text@)),
{
    ast_from_text(NodeKind::Expr, wrap("const C: () = ", text, ";"))
}

/// An expression, from a text that may not hold one.
pub fn try_expr_from_text(text: &str) -> (snippet: Snippet)
    ensures
        snippet.node == NodeKind::Expr,
        snippet.source@ == expr_source(text@),
        !snippet.required,
{
    try_ast_from_text(NodeKind::Expr, wrap("const C: () = ", text, ";"))
}

/// The unit expression.
pub fn expr_unit() -> (snippet: Snippet)
    ensures
        asks(snippet, NodeKind::Expr, expr_source("()"@)),
{
    expr_from_text("()")
}

/// The empty block.
pub fn expr_empty_block() -> (snippet: Snippet)
    ensures
        asks(snippet, NodeKind::Expr, expr_source("{}"@)),
{
    expr_from_text("{}")
}

/// A call of `unimplemented!`.
pub fn expr_unimplemented() -> (snippet: Snippet)
    ensures
        asks(snippet, NodeKind::Expr, expr_source("unimplemented!()"@)),
{
    expr_from_text("unimplemented!()")
}

/// The path as an expression.
pub fn expr_path(path: &str) -> (snippet: Snippet)
    ensures
        asks(snippet, NodeKind::Expr, expr_source(path@)),
{
    expr_from_text(path)
}

/// `continue`.
pub fn expr_continue() -> (snippet: Snippet)
    ensures
        asks(snippet, NodeKind::Expr, expr_source("continue"@)),
{
    expr_from_text("continue")
}

/// `break`.
pub fn expr_break() -> (snippet: Snippet)
    ensures
        asks(snippet, NodeKind::Expr, expr_source("break"@)),
{
    expr_from_text("break")
}

/// `return`.
pub fn expr_return() -> (snippet: Snippet)
    ensures
        asks(snippet, NodeKind::Expr, expr_source("return"@)),
{
    expr_from_text("return")
}

/// A match on the expression, with the given arms.
pub fn expr_match(expr: &str, match_arm_list: &str) -> (snippet: Snippet)
    ensures
        asks(snippet, NodeKind::Expr, expr_source("match "@ + expr@ + " "@ + match_arm_list@)),
{
    let mut text = wrap("match ", expr, " ");
    text.append(match_arm_list);
    expr_from_text(text.as_str())
}

/// An `if` with the condition and the branch taken when it holds.
pub fn expr_if(condition: &str, then_branch: &str) -> (snippet: Snippet)
    ensures
        asks(snippet, NodeKind::Expr, expr_source("if "@ + condition@ + " "@ + then_branch@)),
{
    let mut text = wrap("if ", condition, " ");
    text.append(then_branch);
    expr_from_text(text.as_str())
}

/// The expression with a prefix operator before it.
pub fn expr_prefix(op: &str, expr: &str) -> (snippet: Snippet)
    ensures
        asks(snippet, NodeKind::Expr, expr_source(op@ + expr@)),
{
    let text = pair(op, expr);
    expr_from_text(text.as_str())
}

/// The text of a condition: the expression, after `let`, the pattern and
/// `=` where there is a pattern.
pub open spec fn condition_text(expr: Seq<char>, pattern: Option<Seq<char>>) -> Seq<char> {
    match pattern {
        None => expr,
        Some(pattern) => "let "@ + pattern + " = "@ + expr,
    }
}

/// A condition, as that of a `while` loop.
pub fn condition(expr: &str, pattern: Option<&str>) -> (snippet: Snippet)
    ensures
        asks(
            snippet,
            NodeKind::Condition,
            "const _: () = while "@ + condition_text(expr@, chars_of(pattern)) + " {};"@,
        ),
{
    match pattern {
        None => ast_from_text(NodeKind::Condition, wrap("const _: () = while ", expr, " {};")),
        Some(pattern) => {
            let mut text = wrap("let ", pattern, " = ");
            text.append(expr);
            ast_from_text(
                NodeKind::Condition,
                wrap("const _: () = while ", text.as_str(), " {};"),
            )
        },
    }
}

/// The source in which a text stands as the pattern of a parameter.
pub open spec fn pat_source(text: Seq<char>) -> Seq<char> {
    "fn f("@ + text + ": ())"@
}

/// A pattern of the given kind, from its text.
fn pat_from_text(node: NodeKind, text: &str) -> (snippet: Snippet)
    ensures
        asks(snippet, node, pat_source(text@)),
{
    ast_from_text(node, wrap("fn f(", text, ": ())"))
}

/// The pattern that binds the name.
pub fn bind_pat(name: &str) -> (snippet: Snippet)
    ensures
        asks(snippet, NodeKind::BindPat, pat_source(name@)),
{
    pat_from_text(NodeKind::BindPat, name)
}

/// The pattern `_`.
pub fn placeholder_pat() -> (snippet: Snippet)
    ensures
        asks(snippet, NodeKind::PlaceholderPat, pat_source("_"@)),
{
    pat_from_text(NodeKind::PlaceholderPat, "_")
}

/// A tuple of the patterns.
pub fn tuple_pat(pats: &Vec<String>) -> (snippet: Snippet)
    ensures
        asks(snippet, NodeKind::TuplePat, pat_source("("@ + joined(texts(pats@), ", "@) + ")"@)),
{
    let pats_str = join(pats, ", ");
    let text = wrap("(", pats_str.as_str(), ")");
    pat_from_text(NodeKind::TuplePat, text.as_str())
}

/// A tuple struct pattern: the path, then the patterns in round brackets.
pub fn tuple_struct_pat(path: &str, pats: &Vec<String>) -> (snippet: Snippet)
    ensures
        asks(
            snippet,
            NodeKind::TupleStructPat,
            pat_source(path@ + "("@ + joined(texts(pats@), ", "@) + ")"@),
        ),
{
    let pats_str = join(pats, ", ");
    let mut text = wrap(path, "(", pats_str.as_str());
    text.append(")");
    pat_from_text(NodeKind::TupleStructPat, text.as_str())
}

/// A record pattern: the path, then the patterns in braces.
pub fn record_pat(path: &str, pats: &Vec<String>) -> (snippet: Snippet)
    ensures
        asks(
            snippet,
            NodeKind::RecordPat,
            pat_source(path@ + " { "@ + joined(texts(pats@), ", "@) + " }"@),
        ),
{
    let pats_str = join(pats, ", ");
    let mut text = wrap(path, " { ", pats_str.as_str());
    text.append(" }");
    pat_from_text(NodeKind::RecordPat, text.as_str())
}

/// The path as a pattern: one that binds where the path has one segment,
/// a path pattern otherwise.
pub fn path_pat(path: &str) -> (snippet: Snippet)
    ensures
        asks(snippet, NodeKind::Pat, pat_source(path@)),
{
    pat_from_text(NodeKind::Pat, path)
}

/// A match arm: the patterns with `|` between them, then the expression.
pub fn match_arm(pats: &Vec<String>, expr: &str) -> (snippet: Snippet)
    ensures
        asks(
            snippet,
            NodeKind::MatchArm,
            "fn f() { match () {"@ + (joined(texts(pats@), " | "@) + " => "@ + expr@) + "} }"@,
        ),
{
    let pats_str = join(pats, " | ");
    let text = wrap(pats_str.as_str(), " => ", expr);
    ast_from_text(NodeKind::MatchArm, wrap("fn f() { match () {", text.as_str(), "} }"))
}

/// A match arm as the builder of an arm list reads it.
#[derive(Debug, Clone, PartialEq, Eq)]
pub struct ArmText {
    /// The arm's source text.
    pub text: String,
    /// Whether the arm's expression is like a block, as an `if`, a loop, a
    /// `match` or a block is. Nothing where the arm has no expression.
    pub body_block_like: Option<bool>,
}

/// Whether a comma follows the arm in a list: it does unless the arm's
/// expression is like a block.
pub open spec fn needs_comma(arm: ArmText) -> bool {
    match arm.body_block_like {
        Some(block_like) => !block_like,
        None => true,
    }
}

/// The arms, each on a line of its own, indented by four spaces and
/// followed by a comma where it needs one.
pub open spec fn arm_lines(arms: Seq<ArmText>) -> Seq<char>
    decreases arms.len(),
{
    if arms.len() == 0 {
        Seq::empty()
    } else {
        arm_lines(arms.drop_last()) + "    "@ + arms.last().text@ + (if needs_comma(arms.last()) {
            ","@
        } else {
            Seq::empty()
        }) + "\n"@
    }
}

/// The list of the arms of a match.
pub fn match_arm_list(arms: &Vec<ArmText>) -> (snippet: Snippet)
    ensures
        asks(snippet, NodeKind::MatchArmList, "fn f() { match () {\n"@ + arm_lines(arms@) + "} }"@),
{
    let mut buf = String::from_str("fn f() { match () {\n");
    let mut i: usize = 0;
    while i < arms.len()
        invariant
            0 <= i <= arms.len(),
            buf@ == "fn f() { match () {\n"@ + arm_lines(arms@.take(i as int)),
        decreases arms.len() - i,
    {
        let needs_comma = match arms[i].body_block_like {
            Some(block_like) => !block_like,
            None => true,
        };
        buf.append("    ");
        buf.append(arms[i].text.as_str());
        if needs_comma {
            buf.append(",");
        }
        buf.append("\n");
        proof {
            let done = arms@.take(i + 1);
            assert(done.drop_last() =~= arms@.take(i as int));
            assert(done.last() == arms@[i as int]);
            assert(buf@ =~= "fn f() { match () {\n"@ + arm_lines(done));
        }
        i += 1;
    }
    assert(arms@.take(i as int) =~= arms@);
    buf.append("} }");
    ast_from_text(NodeKind::MatchArmList, buf)
}

/// The source in which a text stands as a where clause.
pub open spec fn where_source(text: Seq<char>) -> Seq<char> {
    "fn f() where "@ + text + " { }"@
}

/// A where predicate: the path, then the bounds with `+` between them.
pub fn where_pred(path: &str, bounds: &Vec<String>) -> (snippet: Snippet)
    ensures
        asks(
            snippet,
            NodeKind::WherePred,
            where_source(path@ + ": "@ + joined(texts(bounds@), " + "@)),
        ),
{
    let bounds = join(bounds, " + ");
    let text = wrap(path, ": ", bounds.as_str());
    ast_from_text(NodeKind::WherePred, wrap("fn f() where ", text.as_str(), " { }"))
}

/// A where clause of the predicates.
pub fn where_clause(preds: &Vec<String>) -> (snippet: Snippet)
    ensures
        asks(snippet, NodeKind::WhereClause, where_source(joined(texts(preds@), ", "@))),
{
    let preds = join(preds, ", ");
    ast_from_text(NodeKind::WhereClause, wrap("fn f() where ", preds.as_str(), " { }"))
}

/// The text of a `let` statement, with the initializer where there is one.
pub open spec fn let_text(pattern: Seq<char>, initializer: Option<Seq<char>>) -> Seq<char> {
    match initializer {
        Some(value) => "let "@ + pattern + " = "@ + value + ";"@,
        None => "let "@ + pattern + ";"@,
    }
}

/// A `let` statement.
pub fn let_stmt(pattern: &str, initializer: Option<&str>) -> (snippet: Snippet)
    ensures
        asks(
            snippet,
            NodeKind::LetStmt,
            "fn f() { "@ + let_text(pattern@, chars_of(initializer)) + " }"@,
        ),
{
    let text = match initializer {
        Some(it) => {
            let mut text = wrap("let ", pattern, " = ");
            text.append(it);
            text.append(";");
            text
        },
        None => wrap("let ", pattern, ";"),
    };
    ast_from_text(NodeKind::LetStmt, wrap("fn f() { ", text.as_str(), " }"))
}

/// The text of an expression statement: the expression, and a semicolon
/// unless the expression is like a block.
pub open spec fn stmt_text(expr: Seq<char>, block_like: bool) -> Seq<char> {
    if block_like {
        expr
    } else {
        expr + ";"@
    }
}

/// An expression statement. `block_like` says whether the expression is
/// like a block, as an `if`, a loop, a `match` or a block is.
pub fn expr_stmt(expr: &str, block_like: bool) -> (snippet: Snippet)
    ensures
        asks(snippet, NodeKind::ExprStmt, "fn f() { "@ + stmt_text(expr@, block_like) + " (); }"@),
{
    let text = if block_like {
        String::from_str(expr)
    } else {
        pair(expr, ";")
    };
    ast_from_text(NodeKind::ExprStmt, wrap("fn f() { ", text.as_str(), " (); }"))
}

/// A call of `unreachable!`.
pub fn unreachable_macro_call() -> (snippet: Snippet)
    ensures
        asks(snippet, NodeKind::MacroCall, "unreachable!()"@),
{
    ast_from_text(NodeKind::MacroCall, String::from_str("unreachable!()"))
}

} // verus!
