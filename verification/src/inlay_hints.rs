//! Inlay hints: the notes on types and parameter names that an editor shows
//! inside the source text, and the rules that decide which are worth showing.

use crate::text::{ends_with, has_char, is_suffix, same_text};
use vstd::prelude::*;
use vstd::string::StrSliceExecFns;

verus! {

/// Which hints are wanted, and how long a label may be.
#[derive(Clone, Debug, PartialEq, Eq)]
pub struct InlayHintsOptions {
    pub type_hints: bool,
    pub parameter_hints: bool,
    pub chaining_hints: bool,
    pub max_length: Option<usize>,
}

impl Default for InlayHintsOptions {
    /// Every kind of hint, of any length.
    fn default() -> (options: InlayHintsOptions)
        ensures
            options.type_hints,
            options.parameter_hints,
            options.chaining_hints,
            options.max_length.is_none(),
    {
        InlayHintsOptions {
            type_hints: true,
            parameter_hints: true,
            chaining_hints: true,
            max_length: None,
        }
    }
}

/// What a hint tells.
#[derive(Clone, Copy, Debug, PartialEq, Eq, Structural)]
pub enum InlayKind {
    TypeHint,
    ParameterHint,
    ChainingHint,
}

/// A stretch of the source text, from the offset `start` up to, and not
/// including, the offset `end`.
#[derive(Clone, Copy, Debug, PartialEq, Eq, Hash, Structural)]
pub struct TextRange {
    pub start: u32,
    pub end: u32,
}

/// One hint: where it belongs, what it tells, and its text.
#[derive(Clone, Debug, PartialEq, Eq)]
pub struct InlayHint {
    pub range: TextRange,
    pub kind: InlayKind,
    pub label: String,
}

/// What the hints read of the signature of a function that is called.
#[derive(Clone, Debug, PartialEq, Eq)]
pub struct FunctionSignature {
    /// Whether the function takes `self`.
    pub has_self_param: bool,
    /// The parameters as they are written, `self` among them.
    pub parameters: Vec<String>,
    /// The names of the parameters, in their order.
    pub parameter_names: Vec<String>,
}

/// The number of parameters besides `self`.
pub open spec fn parameters_besides_self(signature: FunctionSignature) -> nat {
    if signature.has_self_param && signature.parameters@.len() > 0 {
        (signature.parameters@.len() - 1) as nat
    } else {
        signature.parameters@.len()
    }
}

/// The text is a single character that is written as one byte.
pub open spec fn is_one_byte(text: Seq<char>) -> bool {
    text.len() == 1 && (text[0] as u32) < 0x80
}

/// Whether the name of a parameter is worth showing before an argument.
///
/// It is not where the name is empty, where the argument's text already
/// ends with the name, or where the function takes a single parameter whose
/// name is one byte long or is `predicate`, as those of `map` and `filter`
/// are.
pub open spec fn shows_param_hint(
    signature: FunctionSignature,
    param_name: Seq<char>,
    argument: Seq<char>,
) -> bool {
    &&& param_name.len() != 0
    &&& !is_suffix(argument, param_name)
    &&& !(parameters_besides_self(signature) == 1 && (is_one_byte(param_name) || param_name
        == "predicate"@))
}

/// Decides whether to show the name of a parameter before an argument.
pub fn should_show_param_hint(fn_signature: &FunctionSignature, param_name: &str, argument: &str) -> (shown:
    bool)
    ensures
        shown == shows_param_hint(*fn_signature, param_name@, argument@),
{
    if param_name.is_empty() || ends_with(argument, param_name) {
        return false;
    }
    let parameters_len = if fn_signature.has_self_param && fn_signature.parameters.len() > 0 {
        fn_signature.parameters.len() - 1
    } else {
        fn_signature.parameters.len()
    };
    // No hints for the closures of common functions such as `map` and `filter`.
    if parameters_len == 1 {
        let one_byte = param_name.unicode_len() == 1 && (param_name.get_char(0) as u32) < 0x80;
        if one_byte || same_text(param_name, "predicate") {
            return false;
        }
    }
    true
}

/// An argument of a call: where it stands, and its source text.
#[derive(Clone, Debug, PartialEq, Eq)]
pub struct Argument {
    pub range: TextRange,
    pub text: String,
}

/// The number of parameter names that have no argument of their own: the
/// name of `self` in a method call, whose receiver is no argument.
pub open spec fn params_to_skip(signature: FunctionSignature, args: Seq<Argument>) -> int {
    if signature.has_self_param && signature.parameter_names@.len() > args.len() {
        1
    } else {
        0
    }
}

/// The number of arguments that have a parameter name: names and arguments
/// go in pairs until either runs out.
pub open spec fn paired(signature: FunctionSignature, args: Seq<Argument>) -> int {
    let names = signature.parameter_names@.len() - params_to_skip(signature, args);
    if names < args.len() {
        names
    } else {
        args.len() as int
    }
}

/// The hints for the first `upto` arguments: for each argument whose
/// parameter name is worth showing, in their order, a hint at the argument
/// with the name as its text.
pub open spec fn param_hints(signature: FunctionSignature, args: Seq<Argument>, upto: int) -> Seq<
    InlayHint,
>
    decreases upto,
{
    if upto <= 0 {
        Seq::empty()
    } else {
        let earlier = param_hints(signature, args, upto - 1);
        let name = signature.parameter_names@[params_to_skip(signature, args) + upto - 1];
        let arg = args[upto - 1];
        if shows_param_hint(signature, name@, arg.text@) {
            earlier.push(InlayHint { range: arg.range, kind: InlayKind::ParameterHint, label: name })
        } else {
            earlier
        }
    }
}

/// The hints on the parameter names of a call: none where parameter hints
/// are switched off, where the call has no argument list, or where the
/// function called is not known; else those for all arguments that have a
/// parameter name.
pub open spec fn param_name_hints(
    options: InlayHintsOptions,
    args: Option<Seq<Argument>>,
    signature: Option<FunctionSignature>,
) -> Seq<InlayHint> {
    if options.parameter_hints && args.is_some() && signature.is_some() {
        param_hints(signature.unwrap(), args.unwrap(), paired(signature.unwrap(), args.unwrap()))
    } else {
        Seq::empty()
    }
}

/// The arguments that a borrow of a list stands for.
pub open spec fn args_of(args: Option<&Vec<Argument>>) -> Option<Seq<Argument>> {
    match args {
        Some(args) => Some(args@),
        None => None,
    }
}

/// The signature that a borrow of one stands for.
pub open spec fn signature_of(signature: Option<&FunctionSignature>) -> Option<FunctionSignature> {
    match signature {
        Some(signature) => Some(*signature),
        None => None,
    }
}

/// Adds the hints on the parameter names of a call. Nothing comes back,
/// and nothing is added, where parameter hints are switched off, where the
/// call has no argument list, or where the function called is not known.
pub fn get_param_name_hints(
    acc: &mut Vec<InlayHint>,
    options: &InlayHintsOptions,
    args: Option<&Vec<Argument>>,
    fn_signature: Option<&FunctionSignature>,
) -> (done: Option<()>)
    ensures
        done.is_some() <==> options.parameter_hints && args.is_some() && fn_signature.is_some(),
        final(acc)@ == old(acc)@ + param_name_hints(*options, args_of(args), signature_of(fn_signature)),
{
    if !options.parameter_hints {
        return None;
    }
    let args = match args {
        Some(args) => args,
        None => {
            return None;
        },
    };
    let fn_signature = match fn_signature {
        Some(fn_signature) => fn_signature,
        None => {
            return None;
        },
    };
    let n_params_to_skip: usize = if fn_signature.has_self_param && fn_signature.parameter_names.len()
        > args.len() {
        1
    } else {
        0
    };
    let mut i: usize = 0;
    while i < args.len() && i < fn_signature.parameter_names.len() - n_params_to_skip
        invariant
            n_params_to_skip == params_to_skip(*fn_signature, args@),
            n_params_to_skip <= fn_signature.parameter_names@.len(),
            0 <= i <= paired(*fn_signature, args@),
            acc@ == old(acc)@ + param_hints(*fn_signature, args@, i as int),
        decreases args.len() - i,
    {
        let param_name = &fn_signature.parameter_names[n_params_to_skip + i];
        let arg = &args[i];
        if should_show_param_hint(fn_signature, param_name.as_str(), arg.text.as_str()) {
            acc.push(
                InlayHint {
                    range: arg.range,
                    kind: InlayKind::ParameterHint,
                    label: param_name.clone(),
                },
            );
        }
        i += 1;
        assert(acc@ =~= old(acc)@ + param_hints(*fn_signature, args@, i as int));
    }
    assert(acc@ =~= old(acc)@ + param_hints(*fn_signature, args@, i as int));
    Some(())
}

/// What the hints read of the definition behind a type.
#[derive(Clone, Debug, PartialEq, Eq)]
pub enum Adt {
    /// A struct, with its name and the number of its fields.
    Struct { name: String, fields: usize },
    /// An enum, with the names of its variants.
    Enum { variants: Vec<String> },
    /// A union.
    Union,
}

/// What the hints read of an inferred type.
#[derive(Clone, Debug, PartialEq, Eq)]
pub struct TypeInfo {
    /// Whether inference has left the type unknown.
    pub is_unknown: bool,
    /// The struct, enum or union that the type is, if it is one.
    pub adt: Option<Adt>,
    /// The type as it is shown, cut to the length that the options allow.
    pub label: String,
}

/// What the hints read of a node above a pattern.
#[derive(Clone, Copy, Debug, PartialEq, Eq, Structural)]
pub enum Ancestor {
    /// A `let` statement, and whether it gives a type.
    LetStmt { ascribed: bool },
    /// A parameter, and whether it gives a type.
    Param { ascribed: bool },
    /// An arm of a match.
    MatchArm,
    /// An `if`, and whether its condition is an `if let`.
    IfExpr { condition_has_pat: bool },
    /// A `while`, and whether its condition is a `while let`.
    WhileExpr { condition_has_pat: bool },
    /// Any other node.
    Other,
}

/// What the hints read of a pattern that binds a name.
#[derive(Clone, Debug, PartialEq, Eq)]
pub struct BindPat {
    /// The pattern's source text.
    pub text: String,
    /// Where the pattern stands.
    pub range: TextRange,
    /// The pattern's node and the nodes above it, from the inside out.
    pub ancestors: Vec<Ancestor>,
}

/// Whether a list of names holds the text.
pub open spec fn names_hold(names: Seq<String>, text: Seq<char>) -> bool {
    exists|i: int| 0 <= i < names.len() && (#[trigger] names[i])@ == text
}

/// Whether the pattern's text is the name of a variant of the enum that
/// the type is. It is not where the type is no enum.
pub open spec fn is_enum_variant(pat_text: Seq<char>, pat_ty: TypeInfo) -> bool {
    match pat_ty.adt {
        Some(Adt::Enum { variants }) => names_hold(variants@, pat_text),
        _ => false,
    }
}

/// Whether the pattern's text names a variant of the enum that its type is.
pub fn pat_is_enum_variant(bind_pat: &BindPat, pat_ty: &TypeInfo) -> (is_variant: bool)
    ensures
        is_variant == is_enum_variant(bind_pat.text@, *pat_ty),
{
    match &pat_ty.adt {
        Some(Adt::Enum { variants }) => {
            let mut i: usize = 0;
            while i < variants.len()
                invariant
                    0 <= i <= variants.len(),
                    pat_ty.adt == Some(Adt::Enum { variants: *variants }),
                    forall|k: int| 0 <= k < i ==> (#[trigger] variants@[k])@ != bind_pat.text@,
                decreases variants.len() - i,
            {
                if same_text(variants[i].as_str(), bind_pat.text.as_str()) {
                    return true;
                }
                i += 1;
            }
            false
        },
        _ => false,
    }
}

/// Whether the type is a struct without fields that the pattern's text
/// names.
pub open spec fn is_unit_struct_named(pat_text: Seq<char>, pat_ty: TypeInfo) -> bool {
    match pat_ty.adt {
        Some(Adt::Struct { name, fields }) => fields == 0 && name@ == pat_text,
        _ => false,
    }
}

/// What the nodes above a pattern, from place `from` on, say on hiding the
/// pattern's type: the first `let`, parameter, match arm, `if` or `while`
/// decides. A `let` or a parameter hides the type where it gives one
/// itself; a match arm where the pattern is a variant of an enum; an `if`
/// or a `while` where it has a pattern and this pattern is such a variant.
/// Where no such node is found, the type is shown.
pub open spec fn ancestors_hide(ancestors: Seq<Ancestor>, from: int, is_variant: bool) -> bool
    decreases ancestors.len() - from,
{
    if from < 0 || from >= ancestors.len() {
        false
    } else {
        match ancestors[from] {
            Ancestor::LetStmt { ascribed } => ascribed,
            Ancestor::Param { ascribed } => ascribed,
            Ancestor::MatchArm => is_variant,
            Ancestor::IfExpr { condition_has_pat } => condition_has_pat && is_variant,
            Ancestor::WhileExpr { condition_has_pat } => condition_has_pat && is_variant,
            Ancestor::Other => ancestors_hide(ancestors, from + 1, is_variant),
        }
    }
}

/// Whether the type of a pattern is left out: it is where the type is
/// unknown, where it is a unit struct that the pattern names, or where the
/// nodes above the pattern say so.
pub open spec fn hides_type_hint(bind_pat: BindPat, pat_ty: TypeInfo) -> bool {
    pat_ty.is_unknown || is_unit_struct_named(bind_pat.text@, pat_ty) || ancestors_hide(
        bind_pat.ancestors@,
        0,
        is_enum_variant(bind_pat.text@, pat_ty),
    )
}

/// Decides whether to leave out the type of a pattern.
pub fn should_not_display_type_hint(bind_pat: &BindPat, pat_ty: &TypeInfo) -> (hidden: bool)
    ensures
        hidden == hides_type_hint(*bind_pat, *pat_ty),
{
    if pat_ty.is_unknown {
        return true;
    }
    if let Some(Adt::Struct { name, fields }) = &pat_ty.adt {
        if *fields == 0 && same_text(name.as_str(), bind_pat.text.as_str()) {
            return true;
        }
    }
    let ghost is_variant = is_enum_variant(bind_pat.text@, *pat_ty);
    let mut i: usize = 0;
    while i < bind_pat.ancestors.len()
        invariant
            0 <= i <= bind_pat.ancestors.len(),
            !pat_ty.is_unknown,
            !is_unit_struct_named(bind_pat.text@, *pat_ty),
            is_variant == is_enum_variant(bind_pat.text@, *pat_ty),
            ancestors_hide(bind_pat.ancestors@, 0, is_variant) == ancestors_hide(
                bind_pat.ancestors@,
                i as int,
                is_variant,
            ),
        decreases bind_pat.ancestors.len() - i,
    {
        match bind_pat.ancestors[i] {
            Ancestor::LetStmt { ascribed } => {
                return ascribed;
            },
            Ancestor::Param { ascribed } => {
                return ascribed;
            },
            Ancestor::MatchArm => {
                return pat_is_enum_variant(bind_pat, pat_ty);
            },
            Ancestor::IfExpr { condition_has_pat } => {
                return condition_has_pat && pat_is_enum_variant(bind_pat, pat_ty);
            },
            Ancestor::WhileExpr { condition_has_pat } => {
                return condition_has_pat && pat_is_enum_variant(bind_pat, pat_ty);
            },
            Ancestor::Other => {},
        }
        i += 1;
    }
    false
}

/// The hint on the type of a pattern: none where type hints are switched
/// off, where the pattern has no type, or where the type is to be left
/// out; else one, at the pattern, with the type as its text.
pub open spec fn type_hints(options: InlayHintsOptions, pat: BindPat, ty: Option<TypeInfo>) -> Seq<
    InlayHint,
> {
    if options.type_hints && ty.is_some() && !hides_type_hint(pat, ty.unwrap()) {
        seq![InlayHint { range: pat.range, kind: InlayKind::TypeHint, label: ty.unwrap().label }]
    } else {
        Seq::empty()
    }
}

/// The type that a borrow of a type stands for.
pub open spec fn type_of(ty: Option<&TypeInfo>) -> Option<TypeInfo> {
    match ty {
        Some(ty) => Some(*ty),
        None => None,
    }
}

/// Adds the hint on the type of a pattern, if one is wanted. Nothing comes
/// back where none is.
pub fn get_bind_pat_hints(
    acc: &mut Vec<InlayHint>,
    options: &InlayHintsOptions,
    pat: &BindPat,
    ty: Option<&TypeInfo>,
) -> (done: Option<()>)
    ensures
        done.is_some() <==> options.type_hints && ty.is_some() && !hides_type_hint(*pat, *ty.unwrap()),
        final(acc)@ == old(acc)@ + type_hints(*options, *pat, type_of(ty)),
{
    if !options.type_hints {
        return None;
    }
    let ty = match ty {
        Some(ty) => ty,
        None => {
            return None;
        },
    };
    if should_not_display_type_hint(pat, ty) {
        return None;
    }
    acc.push(InlayHint { range: pat.range, kind: InlayKind::TypeHint, label: ty.label.clone() });
    assert(acc@ =~= old(acc)@ + type_hints(*options, *pat, Some(*ty)));
    Some(())
}

/// The kinds of token that the hints tell apart.
#[derive(Clone, Copy, Debug, PartialEq, Eq, Structural)]
pub enum TokenKind {
    Whitespace,
    Comment,
    Dot,
    Other,
}

/// A token: its kind and its source text.
#[derive(Clone, Debug, PartialEq, Eq)]
pub struct Token {
    pub kind: TokenKind,
    pub text: String,
}

/// A token that counts when looking for a chain: any but a comment and
/// white space without a line break.
pub open spec fn is_significant(token: Token) -> bool {
    match token.kind {
        TokenKind::Whitespace => token.text@.contains('\n'),
        TokenKind::Comment => false,
        _ => true,
    }
}

/// The place of the first token that counts at or after `from`, or the
/// number of tokens where there is none.
pub open spec fn next_significant(tokens: Seq<Token>, from: int) -> int
    decreases tokens.len() - from,
{
    if from < 0 || from >= tokens.len() {
        tokens.len() as int
    } else if is_significant(tokens[from]) {
        from
    } else {
        next_significant(tokens, from + 1)
    }
}

/// Whether the tokens after an expression go on a chain of calls: the
/// first two that count are a line break and a dot. Nothing where fewer
/// than two tokens count.
pub open spec fn chain_goes_on(following: Seq<Token>) -> Option<bool> {
    let first = next_significant(following, 0);
    let second = next_significant(following, first + 1);
    if first < following.len() && second < following.len() {
        Some(following[first].kind == TokenKind::Whitespace && following[second].kind == TokenKind::Dot)
    } else {
        None
    }
}

/// Finds the first token that counts at or after `from`.
fn find_significant(tokens: &Vec<Token>, from: usize) -> (found: usize)
    ensures
        found == next_significant(tokens@, from as int),
{
    let mut i = from;
    while i < tokens.len()
        invariant
            from <= i,
            next_significant(tokens@, from as int) == next_significant(tokens@, i as int),
        decreases tokens.len() - i,
    {
        let significant = match tokens[i].kind {
            TokenKind::Whitespace => has_char(tokens[i].text.as_str(), '\n'),
            TokenKind::Comment => false,
            _ => true,
        };
        if significant {
            return i;
        }
        i += 1;
    }
    tokens.len()
}

/// What the hints read of an expression: its type, if it has one, where it
/// stands, and the tokens that follow it among its siblings.
#[derive(Clone, Debug, PartialEq, Eq)]
pub struct ExprFacts {
    pub ty: Option<TypeInfo>,
    pub range: TextRange,
    pub following: Vec<Token>,
}

/// Whether an expression is looked at for a chaining hint: chaining hints
/// are wanted, the expression has a type that is known, and at least two
/// tokens that count follow it.
pub open spec fn chain_is_judged(options: InlayHintsOptions, expr: ExprFacts) -> bool {
    options.chaining_hints && expr.ty.is_some() && !expr.ty.unwrap().is_unknown && chain_goes_on(
        expr.following@,
    ).is_some()
}

/// The hint on the type of an expression in a chain of calls: one, at the
/// expression, with the type as its text, where the expression is looked
/// at and the chain goes on after it; else none.
pub open spec fn chaining_hints(options: InlayHintsOptions, expr: ExprFacts) -> Seq<InlayHint> {
    if chain_is_judged(options, expr) && chain_goes_on(expr.following@) == Some(true) {
        seq![
            InlayHint { range: expr.range, kind: InlayKind::ChainingHint, label: expr.ty.unwrap().label },
        ]
    } else {
        Seq::empty()
    }
}

/// Adds the hint on the type of an expression after which a chain of calls
/// goes on. Nothing comes back where the expression is not looked at.
pub fn get_chaining_hints(acc: &mut Vec<InlayHint>, options: &InlayHintsOptions, expr: &ExprFacts) -> (done:
    Option<()>)
    ensures
        done.is_some() <==> chain_is_judged(*options, *expr),
        final(acc)@ == old(acc)@ + chaining_hints(*options, *expr),
{
    if !options.chaining_hints {
        return None;
    }
    let ty = match &expr.ty {
        Some(ty) => ty,
        None => {
            return None;
        },
    };
    if ty.is_unknown {
        return None;
    }
    let first = find_significant(&expr.following, 0);
    if first >= expr.following.len() {
        return None;
    }
    let second = find_significant(&expr.following, first + 1);
    if second >= expr.following.len() {
        return None;
    }
    let next = expr.following[first].kind;
    let next_next = expr.following[second].kind;
    if next == TokenKind::Whitespace && next_next == TokenKind::Dot {
        acc.push(InlayHint { range: expr.range, kind: InlayKind::ChainingHint, label: ty.label.clone() });
        assert(acc@ =~= old(acc)@ + chaining_hints(*options, *expr));
    }
    Some(())
}

/// What the hints read of a call: its arguments, if it has an argument
/// list, and the signature of the function called, if that is known.
#[derive(Clone, Debug, PartialEq, Eq)]
pub struct CallFacts {
    pub args: Option<Vec<Argument>>,
    pub signature: Option<FunctionSignature>,
}

/// What the hints read of a pattern that binds a name, and its type, if it
/// has one.
#[derive(Clone, Debug, PartialEq, Eq)]
pub struct BindPatFacts {
    pub pat: BindPat,
    pub ty: Option<TypeInfo>,
}

/// What the hints read of one node of a file: what it is as an expression,
/// as a call or method call, and as a binding pattern, as far as it is any
/// of these.
#[derive(Clone, Debug, PartialEq, Eq)]
pub struct NodeFacts {
    pub expr: Option<ExprFacts>,
    pub call: Option<CallFacts>,
    pub bind_pat: Option<BindPatFacts>,
}

/// The arguments of a call, as a sequence.
pub open spec fn call_args(call: CallFacts) -> Option<Seq<Argument>> {
    match call.args {
        Some(args) => Some(args@),
        None => None,
    }
}

/// The hints of one node: the chaining hint where it is an expression,
/// then the parameter hints where it is a call, then the type hint where
/// it is a binding pattern.
pub open spec fn node_hints(options: InlayHintsOptions, node: NodeFacts) -> Seq<InlayHint> {
    (match node.expr {
        Some(expr) => chaining_hints(options, expr),
        None => Seq::empty(),
    }) + (match node.call {
        Some(call) => param_name_hints(options, call_args(call), call.signature),
        None => Seq::empty(),
    }) + (match node.bind_pat {
        Some(bind) => type_hints(options, bind.pat, bind.ty),
        None => Seq::empty(),
    })
}

/// The hints of the first `upto` nodes, in the order of the nodes.
pub open spec fn hints_of(options: InlayHintsOptions, nodes: Seq<NodeFacts>, upto: int) -> Seq<InlayHint>
    decreases upto,
{
    if upto <= 0 {
        Seq::empty()
    } else {
        hints_of(options, nodes, upto - 1) + node_hints(options, nodes[upto - 1])
    }
}

/// All hints of a file, from what is known of its nodes, taken in the
/// order in which they stand in the file.
pub fn inlay_hints(nodes: &Vec<NodeFacts>, options: &InlayHintsOptions) -> (res: Vec<InlayHint>)
    ensures
        res@ == hints_of(*options, nodes@, nodes@.len() as int),
{
    let mut res: Vec<InlayHint> = Vec::new();
    let mut i: usize = 0;
    while i < nodes.len()
        invariant
            0 <= i <= nodes.len(),
            res@ == hints_of(*options, nodes@, i as int),
        decreases nodes.len() - i,
    {
        let node = &nodes[i];
        let ghost before = res@;
        if let Some(expr) = &node.expr {
            get_chaining_hints(&mut res, options, expr);
        }
        let ghost chained = res@;
        if let Some(call) = &node.call {
            get_param_name_hints(&mut res, options, call.args.as_ref(), call.signature.as_ref());
        }
        let ghost called = res@;
        if let Some(bind) = &node.bind_pat {
            get_bind_pat_hints(&mut res, options, &bind.pat, bind.ty.as_ref());
        }
        proof {
            assert(chained =~= before + (match node.expr {
                Some(expr) => chaining_hints(*options, expr),
                None => Seq::empty(),
            }));
            assert(called =~= chained + (match node.call {
                Some(call) => param_name_hints(*options, call_args(call), call.signature),
                None => Seq::empty(),
            }));
            assert(res@ =~= called + (match node.bind_pat {
                Some(bind) => type_hints(*options, bind.pat, bind.ty),
                None => Seq::empty(),
            }));
            assert(res@ =~= before + node_hints(*options, *node));
        }
        i += 1;
    }
    res
}

} // verus!
