use vstd::prelude::*;
use crate::span::Span;
use crate::language::{CallPath, Ident, Purity, Visibility};
use crate::type_system::{TypeArgument, TypeParameter};

verus! {

broadcast use vstd::std_specs::vec::group_vec_axioms;

/// What kind of program a compilation unit is.
#[derive(Clone, Copy, Debug, PartialEq, Eq, Structural)]
pub enum TreeType {
    Predicate,
    Script,
    Contract,
    Library,
}

#[derive(Clone, Debug)]
pub enum Literal {
    U64(u64),
    Boolean(bool),
    String(String),
}

/// The intrinsics the entry synthesizer emits.
#[derive(Clone, Copy, Debug, PartialEq, Eq, Structural)]
pub enum Intrinsic {
    ContractRet,
}

/// A call path together with the type arguments it was written with.
#[derive(Clone, Debug)]
pub struct TypeBinding {
    pub inner: CallPath,
    pub type_arguments: Vec<TypeArgument>,
    pub span: Span,
}

#[derive(Clone, Debug)]
pub struct MethodNameBinding {
    pub method_name: Ident,
    pub type_arguments: Vec<TypeArgument>,
    pub span: Span,
}

/// An untyped expression, as the parser hands it over and as the entry
/// synthesizer builds it.
#[derive(Debug)]
pub struct Expression {
    pub kind: ExpressionKind,
    pub span: Span,
}

#[derive(Debug)]
pub enum ExpressionKind {
    Literal(Literal),
    Variable(Ident),
    AmbiguousVariable(Ident),
    FunctionApplication(Box<FunctionApplicationExpression>),
    MethodApplication(Box<MethodApplicationExpression>),
    TupleIndex(TupleIndexExpression),
    If(Box<IfExpression>),
    CodeBlock(CodeBlock),
    IntrinsicFunction(IntrinsicFunctionExpression),
}

#[derive(Debug)]
pub struct FunctionApplicationExpression {
    pub call_path_binding: TypeBinding,
    pub arguments: Vec<Expression>,
}

#[derive(Debug)]
pub struct MethodApplicationExpression {
    pub method_name_binding: MethodNameBinding,
    pub contract_call_params: Vec<Expression>,
    pub arguments: Vec<Expression>,
}

#[derive(Debug)]
pub struct TupleIndexExpression {
    pub prefix: Box<Expression>,
    pub index: usize,
    pub index_span: Span,
}

#[derive(Debug)]
pub struct IfExpression {
    pub condition: Box<Expression>,
    pub then_branch: Box<Expression>,
    pub else_branch: Option<Box<Expression>>,
}

#[derive(Debug)]
pub struct IntrinsicFunctionExpression {
    pub name: Ident,
    pub kind_binding: Intrinsic,
    pub arguments: Vec<Expression>,
}

#[derive(Debug)]
pub struct CodeBlock {
    pub contents: Vec<AstNode>,
    pub whole_block_span: Span,
}

#[derive(Debug)]
pub struct AstNode {
    pub content: AstNodeContent,
    pub span: Span,
}

#[derive(Debug)]
pub enum AstNodeContent {
    Declaration(Declaration),
    Expression(Expression),
}

#[derive(Debug)]
pub enum Declaration {
    FunctionDeclaration(Box<FunctionDeclaration>),
    VariableDeclaration(Box<VariableDeclaration>),
    StorageDeclaration(Box<StorageDeclaration>),
}

#[derive(Clone, Copy, Debug, PartialEq, Eq, Structural)]
pub enum FunctionDeclarationKind {
    Default,
    Entry,
    ContractMethod,
}

#[derive(Clone, Debug)]
pub struct FunctionParameter {
    pub name: Ident,
    pub type_argument: TypeArgument,
}

#[derive(Debug)]
pub struct FunctionDeclaration {
    pub purity: Purity,
    pub attributes: Vec<String>,
    pub name: Ident,
    pub visibility: Visibility,
    pub body: CodeBlock,
    pub parameters: Vec<FunctionParameter>,
    pub span: Span,
    pub return_type: TypeArgument,
    pub type_parameters: Vec<TypeParameter>,
    pub kind: FunctionDeclarationKind,
}

#[derive(Debug)]
pub struct VariableDeclaration {
    pub name: Ident,
    pub type_ascription: TypeArgument,
    pub body: Expression,
    pub is_mutable: bool,
}

#[derive(Clone, Debug)]
pub struct StorageField {
    pub name: Ident,
    pub type_argument: TypeArgument,
    pub value: u64,
    pub span: Span,
}

#[derive(Clone, Debug)]
pub struct StorageDeclaration {
    pub fields: Vec<StorageField>,
    pub span: Span,
}

/// An untyped module: its top-level nodes and its submodules.
#[derive(Debug)]
pub struct ParseModule {
    pub span: Span,
    pub all_nodes: Vec<AstNode>,
    pub submodules: Vec<ParseSubmodule>,
}

#[derive(Debug)]
pub struct ParseSubmodule {
    pub name: Ident,
    pub dependencies: Vec<Ident>,
    pub module: ParseModule,
}

/// What the parser hands to the semantic core.
#[derive(Debug)]
pub struct ParseProgram {
    pub kind: TreeType,
    pub root: ParseModule,
}

/// Every type handle mentioned by the expression is a handle the
/// interning engine has produced, i.e. lies below `ntypes`.
pub open spec fn expr_wf(e: Expression, ntypes: int) -> bool
    decreases e,
{
    expr_kind_wf(e.kind, ntypes)
}

pub open spec fn expr_kind_wf(k: ExpressionKind, ntypes: int) -> bool
    decreases k,
{
    match k {
        ExpressionKind::Literal(_) => true,
        ExpressionKind::Variable(_) => true,
        ExpressionKind::AmbiguousVariable(_) => true,
        ExpressionKind::FunctionApplication(app) => type_args_wf(
            app.call_path_binding.type_arguments@,
            ntypes,
        ) && exprs_wf(app.arguments@, ntypes, 0),
        ExpressionKind::MethodApplication(app) => type_args_wf(
            app.method_name_binding.type_arguments@,
            ntypes,
        ) && exprs_wf(app.contract_call_params@, ntypes, 0) && exprs_wf(
            app.arguments@,
            ntypes,
            0,
        ),
        ExpressionKind::TupleIndex(t) => expr_wf(*t.prefix, ntypes),
        ExpressionKind::If(i) => expr_wf(*i.condition, ntypes) && expr_wf(*i.then_branch, ntypes)
            && match i.else_branch {
            Some(e) => expr_wf(*e, ntypes),
            None => true,
        },
        ExpressionKind::CodeBlock(b) => nodes_wf(b.contents@, ntypes, 0),
        ExpressionKind::IntrinsicFunction(f) => exprs_wf(f.arguments@, ntypes, 0),
    }
}

pub open spec fn type_args_wf(args: Seq<TypeArgument>, ntypes: int) -> bool {
    forall|j: int| 0 <= j < args.len() ==> (#[trigger] args[j]).type_id < ntypes
}

pub open spec fn exprs_wf(es: Seq<Expression>, ntypes: int, i: int) -> bool
    decreases es, es.len() - i,
{
    if i < 0 || i >= es.len() {
        true
    } else {
        expr_wf(es[i], ntypes) && exprs_wf(es, ntypes, i + 1)
    }
}

pub open spec fn nodes_wf(ns: Seq<AstNode>, ntypes: int, i: int) -> bool
    decreases ns, ns.len() - i,
{
    if i < 0 || i >= ns.len() {
        true
    } else {
        node_wf(ns[i], ntypes) && nodes_wf(ns, ntypes, i + 1)
    }
}

pub open spec fn node_wf(n: AstNode, ntypes: int) -> bool
    decreases n,
{
    match n.content {
        AstNodeContent::Declaration(d) => decl_wf(d, ntypes),
        AstNodeContent::Expression(e) => expr_wf(e, ntypes),
    }
}

pub open spec fn decl_wf(d: Declaration, ntypes: int) -> bool
    decreases d,
{
    match d {
        Declaration::FunctionDeclaration(f) => fn_decl_wf(*f, ntypes),
        Declaration::VariableDeclaration(v) => v.type_ascription.type_id < ntypes && expr_wf(
            v.body,
            ntypes,
        ),
        Declaration::StorageDeclaration(s) => storage_fields_wf(s.fields@, ntypes),
    }
}

pub open spec fn storage_fields_wf(fields: Seq<StorageField>, ntypes: int) -> bool {
    forall|j: int|
        0 <= j < fields.len() ==> (#[trigger] fields[j]).type_argument.type_id < ntypes
}

pub open spec fn fn_decl_wf(f: FunctionDeclaration, ntypes: int) -> bool
    decreases f,
{
    &&& f.return_type.type_id < ntypes
    &&& forall|j: int|
        0 <= j < f.parameters@.len() ==> (#[trigger] f.parameters@[j]).type_argument.type_id
            < ntypes
    &&& nodes_wf(f.body.contents@, ntypes, 0)
}

fn check_type_args_wf(args: &Vec<TypeArgument>, ntypes: usize) -> (r: bool)
    ensures
        r == type_args_wf(args@, ntypes as int),
{
    let n = args.len();
    let mut i: usize = 0;
    while i < n
        invariant
            i <= n,
            n == args@.len(),
            forall|j: int| 0 <= j < i ==> (#[trigger] args@[j]).type_id < ntypes,
        decreases n - i,
    {
        if args[i].type_id >= ntypes {
            return false;
        }
        i = i + 1;
    }
    true
}

fn check_expr_wf(e: &Expression, ntypes: usize) -> (r: bool)
    ensures
        r == expr_wf(*e, ntypes as int),
    decreases *e,
{
    check_expr_kind_wf(&e.kind, ntypes)
}

fn check_expr_kind_wf(k: &ExpressionKind, ntypes: usize) -> (r: bool)
    ensures
        r == expr_kind_wf(*k, ntypes as int),
    decreases *k,
{
    match k {
        ExpressionKind::Literal(_) => true,
        ExpressionKind::Variable(_) => true,
        ExpressionKind::AmbiguousVariable(_) => true,
        ExpressionKind::FunctionApplication(app) => check_type_args_wf(
            &app.call_path_binding.type_arguments,
            ntypes,
        ) && check_exprs_wf(&app.arguments, ntypes, 0),
        ExpressionKind::MethodApplication(app) => check_type_args_wf(
            &app.method_name_binding.type_arguments,
            ntypes,
        ) && check_exprs_wf(&app.contract_call_params, ntypes, 0) && check_exprs_wf(
            &app.arguments,
            ntypes,
            0,
        ),
        ExpressionKind::TupleIndex(t) => check_expr_wf(&t.prefix, ntypes),
        ExpressionKind::If(i) => {
            let c = check_expr_wf(&i.condition, ntypes);
            let t = check_expr_wf(&i.then_branch, ntypes);
            let e = match &i.else_branch {
                Some(eb) => check_expr_wf(eb, ntypes),
                None => true,
            };
            c && t && e
        },
        ExpressionKind::CodeBlock(b) => check_nodes_wf(&b.contents, ntypes, 0),
        ExpressionKind::IntrinsicFunction(f) => check_exprs_wf(&f.arguments, ntypes, 0),
    }
}

fn check_exprs_wf(es: &Vec<Expression>, ntypes: usize, i: usize) -> (r: bool)
    requires
        i <= es@.len(),
    ensures
        r == exprs_wf(es@, ntypes as int, i as int),
    decreases es@, es@.len() - i,
{
    if i >= es.len() {
        true
    } else {
        check_expr_wf(&es[i], ntypes) && check_exprs_wf(es, ntypes, i + 1)
    }
}

fn check_nodes_wf(ns: &Vec<AstNode>, ntypes: usize, i: usize) -> (r: bool)
    requires
        i <= ns@.len(),
    ensures
        r == nodes_wf(ns@, ntypes as int, i as int),
    decreases ns@, ns@.len() - i,
{
    if i >= ns.len() {
        true
    } else {
        check_node_wf(&ns[i], ntypes) && check_nodes_wf(ns, ntypes, i + 1)
    }
}

fn check_node_wf(n: &AstNode, ntypes: usize) -> (r: bool)
    ensures
        r == node_wf(*n, ntypes as int),
    decreases *n,
{
    match &n.content {
        AstNodeContent::Declaration(d) => check_decl_wf(d, ntypes),
        AstNodeContent::Expression(e) => check_expr_wf(e, ntypes),
    }
}

fn check_decl_wf(d: &Declaration, ntypes: usize) -> (r: bool)
    ensures
        r == decl_wf(*d, ntypes as int),
    decreases *d,
{
    match d {
        Declaration::FunctionDeclaration(f) => check_fn_decl_wf(f, ntypes),
        Declaration::VariableDeclaration(v) => v.type_ascription.type_id < ntypes
            && check_expr_wf(&v.body, ntypes),
        Declaration::StorageDeclaration(s) => {
            let n = s.fields.len();
            let mut i: usize = 0;
            while i < n
                invariant
                    i <= n,
                    n == s.fields@.len(),
                    decl_wf(*d, ntypes as int) == storage_fields_wf(s.fields@, ntypes as int),
                    forall|j: int|
                        0 <= j < i ==> (#[trigger] s.fields@[j]).type_argument.type_id < ntypes,
                decreases n - i,
            {
                if s.fields[i].type_argument.type_id >= ntypes {
                    proof {
                        assert(!storage_fields_wf(s.fields@, ntypes as int));
                    }
                    return false;
                }
                i = i + 1;
            }
            proof {
                assert(storage_fields_wf(s.fields@, ntypes as int));
            }
            true
        },
    }
}

fn check_fn_decl_wf(f: &FunctionDeclaration, ntypes: usize) -> (r: bool)
    ensures
        r == fn_decl_wf(*f, ntypes as int),
    decreases *f,
{
    if f.return_type.type_id >= ntypes {
        return false;
    }
    let n = f.parameters.len();
    let mut i: usize = 0;
    while i < n
        invariant
            i <= n,
            n == f.parameters@.len(),
            forall|j: int|
                0 <= j < i ==> (#[trigger] f.parameters@[j]).type_argument.type_id < ntypes,
        decreases n - i,
    {
        if f.parameters[i].type_argument.type_id >= ntypes {
            return false;
        }
        i = i + 1;
    }
    check_nodes_wf(&f.body.contents, ntypes, 0)
}

/// Well-formedness only bounds handles from above, so it survives
/// growth of the interning table.
pub proof fn lemma_expr_wf_mono(e: Expression, n1: int, n2: int)
    requires
        expr_wf(e, n1),
        n1 <= n2,
    ensures
        expr_wf(e, n2),
    decreases e,
{
    lemma_expr_kind_wf_mono(e.kind, n1, n2);
}

proof fn lemma_expr_kind_wf_mono(k: ExpressionKind, n1: int, n2: int)
    requires
        expr_kind_wf(k, n1),
        n1 <= n2,
    ensures
        expr_kind_wf(k, n2),
    decreases k,
{
    match k {
        ExpressionKind::Literal(_) => {},
        ExpressionKind::Variable(_) => {},
        ExpressionKind::AmbiguousVariable(_) => {},
        ExpressionKind::FunctionApplication(app) => {
            lemma_exprs_wf_mono(app.arguments@, n1, n2, 0);
        },
        ExpressionKind::MethodApplication(app) => {
            lemma_exprs_wf_mono(app.contract_call_params@, n1, n2, 0);
            lemma_exprs_wf_mono(app.arguments@, n1, n2, 0);
        },
        ExpressionKind::TupleIndex(t) => {
            lemma_expr_wf_mono(*t.prefix, n1, n2);
        },
        ExpressionKind::If(i) => {
            lemma_expr_wf_mono(*i.condition, n1, n2);
            lemma_expr_wf_mono(*i.then_branch, n1, n2);
            match i.else_branch {
                Some(e) => {
                    lemma_expr_wf_mono(*e, n1, n2);
                },
                None => {},
            }
        },
        ExpressionKind::CodeBlock(b) => {
            lemma_nodes_wf_mono(b.contents@, n1, n2, 0);
        },
        ExpressionKind::IntrinsicFunction(f) => {
            lemma_exprs_wf_mono(f.arguments@, n1, n2, 0);
        },
    }
}

proof fn lemma_exprs_wf_mono(es: Seq<Expression>, n1: int, n2: int, i: int)
    requires
        exprs_wf(es, n1, i),
        n1 <= n2,
    ensures
        exprs_wf(es, n2, i),
    decreases es, es.len() - i,
{
    if 0 <= i < es.len() {
        lemma_expr_wf_mono(es[i], n1, n2);
        lemma_exprs_wf_mono(es, n1, n2, i + 1);
    }
}

pub proof fn lemma_nodes_wf_mono(ns: Seq<AstNode>, n1: int, n2: int, i: int)
    requires
        nodes_wf(ns, n1, i),
        n1 <= n2,
    ensures
        nodes_wf(ns, n2, i),
    decreases ns, ns.len() - i,
{
    if 0 <= i < ns.len() {
        lemma_node_wf_mono(ns[i], n1, n2);
        lemma_nodes_wf_mono(ns, n1, n2, i + 1);
    }
}

pub proof fn lemma_node_wf_mono(n: AstNode, n1: int, n2: int)
    requires
        node_wf(n, n1),
        n1 <= n2,
    ensures
        node_wf(n, n2),
    decreases n,
{
    match n.content {
        AstNodeContent::Declaration(d) => {
            lemma_decl_wf_mono(d, n1, n2);
        },
        AstNodeContent::Expression(e) => {
            lemma_expr_wf_mono(e, n1, n2);
        },
    }
}

proof fn lemma_decl_wf_mono(d: Declaration, n1: int, n2: int)
    requires
        decl_wf(d, n1),
        n1 <= n2,
    ensures
        decl_wf(d, n2),
    decreases d,
{
    match d {
        Declaration::FunctionDeclaration(f) => {
            lemma_nodes_wf_mono(f.body.contents@, n1, n2, 0);
        },
        Declaration::VariableDeclaration(v) => {
            lemma_expr_wf_mono(v.body, n1, n2);
        },
        Declaration::StorageDeclaration(_) => {},
    }
}

/// An expression without type handles or children is well formed.
pub proof fn lemma_atomic_wf(e: Expression, n: int)
    requires
        (e.kind matches ExpressionKind::Literal(_)) || (e.kind
            matches ExpressionKind::Variable(_)) || (e.kind
            matches ExpressionKind::AmbiguousVariable(_)),
    ensures
        expr_wf(e, n),
{
}

/// A function application is well formed when its type arguments are in
/// range and its arguments are well formed.
pub proof fn lemma_fn_app_wf(e: Expression, n: int)
    requires
        e.kind matches ExpressionKind::FunctionApplication(app) && type_args_wf(
            app.call_path_binding.type_arguments@,
            n,
        ) && exprs_wf(app.arguments@, n, 0),
    ensures
        expr_wf(e, n),
{
}

pub proof fn lemma_method_app_wf(e: Expression, n: int)
    requires
        e.kind matches ExpressionKind::MethodApplication(app) && type_args_wf(
            app.method_name_binding.type_arguments@,
            n,
        ) && exprs_wf(app.contract_call_params@, n, 0) && exprs_wf(app.arguments@, n, 0),
    ensures
        expr_wf(e, n),
{
}

pub proof fn lemma_tuple_index_wf(e: Expression, n: int)
    requires
        e.kind matches ExpressionKind::TupleIndex(t) && expr_wf(*t.prefix, n),
    ensures
        expr_wf(e, n),
{
}

pub proof fn lemma_if_wf(e: Expression, n: int)
    requires
        e.kind matches ExpressionKind::If(i) && expr_wf(*i.condition, n) && expr_wf(
            *i.then_branch,
            n,
        ) && (i.else_branch matches Some(eb) ==> expr_wf(*eb, n)),
    ensures
        expr_wf(e, n),
{
}

pub proof fn lemma_code_block_wf(e: Expression, n: int)
    requires
        e.kind matches ExpressionKind::CodeBlock(b) && nodes_wf(b.contents@, n, 0),
    ensures
        expr_wf(e, n),
{
}

pub proof fn lemma_intrinsic_wf(e: Expression, n: int)
    requires
        e.kind matches ExpressionKind::IntrinsicFunction(f) && exprs_wf(f.arguments@, n, 0),
    ensures
        expr_wf(e, n),
{
}

/// A variable-declaration node is well formed when its annotation is in
/// range and its initializer is well formed.
pub proof fn lemma_var_decl_node_wf(nd: AstNode, n: int)
    requires
        nd.content matches AstNodeContent::Declaration(Declaration::VariableDeclaration(v))
            && v.type_ascription.type_id < n && expr_wf(v.body, n),
    ensures
        node_wf(nd, n),
{
}

pub proof fn lemma_expr_node_wf(nd: AstNode, n: int)
    requires
        nd.content matches AstNodeContent::Expression(e) && expr_wf(e, n),
    ensures
        node_wf(nd, n),
{
}

/// Appending a well-formed node keeps a node sequence well formed.
pub proof fn lemma_nodes_wf_push(ns: Seq<AstNode>, x: AstNode, ntypes: int, i: int)
    requires
        nodes_wf(ns, ntypes, i),
        node_wf(x, ntypes),
        0 <= i <= ns.len(),
    ensures
        nodes_wf(ns.push(x), ntypes, i),
    decreases ns.len() - i,
{
    if i < ns.len() {
        assert(ns.push(x)[i] == ns[i]);
        lemma_nodes_wf_push(ns, x, ntypes, i + 1);
    } else {
        assert(ns.push(x)[i] == x);
        assert(nodes_wf(ns.push(x), ntypes, i + 1));
    }
}

/// A sequence whose members are each well formed is well formed.
pub proof fn lemma_exprs_wf_pointwise(es: Seq<Expression>, ntypes: int, i: int)
    requires
        0 <= i <= es.len(),
        forall|j: int| 0 <= j < es.len() ==> expr_wf(#[trigger] es[j], ntypes),
    ensures
        exprs_wf(es, ntypes, i),
    decreases es.len() - i,
{
    if i < es.len() {
        lemma_exprs_wf_pointwise(es, ntypes, i + 1);
    }
}

/// Node well-formedness of a prefix extends to each node in it.
pub proof fn lemma_nodes_wf_index(ns: Seq<AstNode>, ntypes: int, i: int, k: int)
    requires
        nodes_wf(ns, ntypes, i),
        0 <= i <= k < ns.len(),
    ensures
        node_wf(ns[k], ntypes),
    decreases k - i,
{
    if i < k {
        lemma_nodes_wf_index(ns, ntypes, i + 1, k);
    }
}

/// Decides whether every type handle the nodes mention was produced by
/// an engine with `ntypes` entries: the internal consistency check run
/// on synthesized code before it is spliced into the tree.
pub fn check_nodes(ns: &Vec<AstNode>, ntypes: usize) -> (r: bool)
    ensures
        r == nodes_wf(ns@, ntypes as int, 0),
{
    check_nodes_wf(ns, ntypes, 0)
}

} // verus!
