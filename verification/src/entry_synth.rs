use vstd::prelude::*;
use crate::declaration::{TyFunctionDecl, TyFunctionDeclKind};
use crate::engines::{fn_ty_decl_wf, Engines};
use crate::handler::{CompileError, ErrorEmitted, Handler};
use crate::language::{CallPath, Ident, Purity, Visibility};
use crate::parse_tree::{
    check_nodes, nodes_wf, AstNode, AstNodeContent, CodeBlock, Declaration, Expression,
    ExpressionKind, FunctionApplicationExpression, MethodApplicationExpression, Intrinsic, MethodNameBinding,
    TupleIndexExpression, TypeBinding,
};
use crate::span::Span;
use crate::typed_tree::{TyAstNode, TyAstNodeContent, TyDecl, TyModule};
use crate::type_system::{TypeArgument, TypeId, TypeInfo, TypeInfoView};

verus! {

broadcast use vstd::std_specs::vec::group_vec_axioms;

/// `e` is a free-function call `name::<...>(...)` with a sentinel span
/// and `nargs` arguments.
pub open spec fn is_call_to(e: Expression, name: Seq<char>, nargs: int) -> bool {
    &&& e.span.is_dummy
    &&& e.kind matches ExpressionKind::FunctionApplication(app)
        && app.call_path_binding.inner.suffix.text@ == name
        && app.call_path_binding.inner.suffix.span.is_dummy
        && app.call_path_binding.inner.prefixes@.len() == 0
        && !app.call_path_binding.inner.is_absolute && app.call_path_binding.span.is_dummy
        && app.arguments@.len() == nargs
}

pub open spec fn call_args(e: Expression) -> Seq<Expression> {
    match e.kind {
        ExpressionKind::FunctionApplication(app) => app.arguments@,
        _ => Seq::empty(),
    }
}

pub open spec fn call_type_args(e: Expression) -> Seq<TypeArgument> {
    match e.kind {
        ExpressionKind::FunctionApplication(app) => app.call_path_binding.type_arguments@,
        _ => Seq::empty(),
    }
}

/// `e` is a method call `recv.name(...)`-style with a sentinel span and
/// `nargs` arguments (the receiver included).
pub open spec fn is_method_call(e: Expression, name: Seq<char>, nargs: int) -> bool {
    &&& e.span.is_dummy
    &&& e.kind matches ExpressionKind::MethodApplication(app)
        && app.method_name_binding.method_name.text@ == name
        && app.method_name_binding.method_name.span.is_dummy
        && app.method_name_binding.span.is_dummy
        && app.method_name_binding.type_arguments@.len() == 0 && app.contract_call_params@.len()
        == 0 && app.arguments@.len() == nargs
}

pub open spec fn method_args(e: Expression) -> Seq<Expression> {
    match e.kind {
        ExpressionKind::MethodApplication(app) => app.arguments@,
        _ => Seq::empty(),
    }
}

/// `e` is `name.idx`, a tuple-index read of a variable.
pub open spec fn is_tuple_index(e: Expression, name: Seq<char>, idx: int) -> bool {
    &&& e.span.is_dummy
    &&& e.kind matches ExpressionKind::TupleIndex(t) && t.index == idx
        && t.index_span.is_dummy && t.prefix.span.is_dummy && (
    t.prefix.kind matches ExpressionKind::AmbiguousVariable(v) && v.text@ == name
        && v.span.is_dummy)
}

fn dummy_binding(suffix: String, type_arguments: Vec<TypeArgument>) -> (r: TypeBinding)
    ensures
        r.inner.suffix.text@ == suffix@,
        r.inner.suffix.span.is_dummy,
        r.inner.prefixes@.len() == 0,
        !r.inner.is_absolute,
        r.span.is_dummy,
        r.type_arguments@ == type_arguments@,
{
    TypeBinding {
        inner: CallPath {
            prefixes: Vec::new(),
            suffix: Ident::new_no_span(suffix),
            is_absolute: false,
        },
        type_arguments,
        span: Span::dummy(),
    }
}

/// The call that encodes a value into the runtime's transport buffer.
pub fn call_encode(_engines: &Engines, arg: Expression) -> (r: Expression)
    ensures
        is_call_to(r, "encode"@, 1),
        call_args(r) == seq![arg],
        call_type_args(r).len() == 0,
{
    let mut arguments: Vec<Expression> = Vec::new();
    arguments.push(arg);
    let r = Expression {
        kind: ExpressionKind::FunctionApplication(
            Box::new(
                FunctionApplicationExpression {
                    call_path_binding: dummy_binding(String::from_str("encode"), Vec::new()),
                    arguments,
                },
            ),
        ),
        span: Span::dummy(),
    };
    proof {
        reveal_strlit("encode");
    }
    r
}

/// The call that decodes the inbound call's method-name string from the
/// first argument slot. Interns the string-slice descriptor.
pub fn call_decode_first_param(engines: &mut Engines) -> (r: Expression)
    requires
        old(engines).wf(),
    ensures
        final(engines).wf(),
        final(engines).de == old(engines).de,
        old(engines).types().len() <= final(engines).types().len(),
        forall|i: int|
            0 <= i < old(engines).types().len() ==> #[trigger] final(engines).types()[i] == old(
                engines,
            ).types()[i],
        final(engines).types() == old(engines).types() || final(engines).types() == old(
            engines,
        ).types().push(TypeInfoView::StringSlice),
        is_call_to(r, "decode_first_param"@, 0),
        call_type_args(r).len() == 1,
        call_type_args(r)[0].type_id < final(engines).types().len(),
        final(engines).types()[call_type_args(r)[0].type_id as int] == TypeInfoView::StringSlice,
        call_type_args(r)[0].initial_type_id == call_type_args(r)[0].type_id,
        call_type_args(r)[0].span.is_dummy,
{
    let string_slice_type_id = engines.insert_type(TypeInfo::StringSlice);
    let mut type_arguments: Vec<TypeArgument> = Vec::new();
    type_arguments.push(
        TypeArgument {
            type_id: string_slice_type_id,
            initial_type_id: string_slice_type_id,
            span: Span::dummy(),
        },
    );
    let r = Expression {
        kind: ExpressionKind::FunctionApplication(
            Box::new(
                FunctionApplicationExpression {
                    call_path_binding: dummy_binding(
                        String::from_str("decode_first_param"),
                        type_arguments,
                    ),
                    arguments: Vec::new(),
                },
            ),
        ),
        span: Span::dummy(),
    };
    proof {
        reveal_strlit("decode_first_param");
    }
    r
}

/// The call that decodes a method's argument tuple from the second
/// argument slot.
pub fn call_decode_second_param(_engines: &Engines, args_type: TypeArgument) -> (r: Expression)
    ensures
        is_call_to(r, "decode_second_param"@, 0),
        call_type_args(r) == seq![args_type],
{
    let mut type_arguments: Vec<TypeArgument> = Vec::new();
    type_arguments.push(args_type);
    let r = Expression {
        kind: ExpressionKind::FunctionApplication(
            Box::new(
                FunctionApplicationExpression {
                    call_path_binding: dummy_binding(
                        String::from_str("decode_second_param"),
                        type_arguments,
                    ),
                    arguments: Vec::new(),
                },
            ),
        ),
        span: Span::dummy(),
    };
    proof {
        reveal_strlit("decode_second_param");
    }
    r
}

/// The equality test the dispatcher uses to compare the decoded method
/// name against a method's source name.
pub fn call_eq(_engines: &Engines, l: Expression, r_arg: Expression) -> (r: Expression)
    ensures
        is_method_call(r, "eq"@, 2),
        method_args(r) == seq![l, r_arg],
{
    let mut arguments: Vec<Expression> = Vec::new();
    arguments.push(l);
    arguments.push(r_arg);
    let r = Expression {
        kind: ExpressionKind::MethodApplication(
            Box::new(
                MethodApplicationExpression {
                    method_name_binding: MethodNameBinding {
                        method_name: Ident::new_no_span(String::from_str("eq")),
                        type_arguments: Vec::new(),
                        span: Span::dummy(),
                    },
                    contract_call_params: Vec::new(),
                    arguments,
                },
            ),
        ),
        span: Span::dummy(),
    };
    proof {
        reveal_strlit("eq");
    }
    r
}

/// A unary method call on an expression, by method name: the dispatcher
/// uses it for the encoded buffer's pointer and byte length.
pub fn call_fn(expr: Expression, name: &str) -> (r: Expression)
    ensures
        is_method_call(r, name@, 1),
        method_args(r) == seq![expr],
{
    let mut arguments: Vec<Expression> = Vec::new();
    arguments.push(expr);
    Expression {
        kind: ExpressionKind::MethodApplication(
            Box::new(
                MethodApplicationExpression {
                    method_name_binding: MethodNameBinding {
                        method_name: Ident::new_no_span(name.to_owned()),
                        type_arguments: Vec::new(),
                        span: Span::dummy(),
                    },
                    contract_call_params: Vec::new(),
                    arguments,
                },
            ),
        ),
        span: Span::dummy(),
    }
}

/// Positional reads `name.0, name.1, ...`, one per parameter of the
/// declaration, in declaration order: how the dispatcher passes the
/// decoded tuple on to the real method.
pub fn arguments_as_expressions(name: Ident, decl: &TyFunctionDecl) -> (r: Vec<Expression>)
    ensures
        r@.len() == decl.parameters@.len(),
        forall|i: int| 0 <= i < r@.len() ==> is_tuple_index(#[trigger] r@[i], name.text@, i),
        forall|n: int, i: int|
            0 <= i < r@.len() ==> #[trigger] crate::parse_tree::expr_wf(r@[i], n),
{
    let count = decl.parameters.len();
    let mut out: Vec<Expression> = Vec::new();
    let mut i: usize = 0;
    while i < count
        invariant
            i <= count,
            out@.len() == i,
            forall|j: int| 0 <= j < i ==> is_tuple_index(#[trigger] out@[j], name.text@, j),
            forall|n: int, j: int|
                0 <= j < i ==> #[trigger] crate::parse_tree::expr_wf(out@[j], n),
        decreases count - i,
    {
        let prefix = Expression {
            kind: ExpressionKind::AmbiguousVariable(
                Ident::new_no_span(name.text.clone()),
            ),
            span: Span::dummy(),
        };
        let e = Expression {
            kind: ExpressionKind::TupleIndex(
                TupleIndexExpression { prefix: Box::new(prefix), index: i, index_span: Span::dummy() },
            ),
            span: Span::dummy(),
        };
        proof {
            assert forall|n: int| crate::parse_tree::expr_wf(e, n) by {
                match e.kind {
                    ExpressionKind::TupleIndex(t) => {
                        crate::parse_tree::lemma_atomic_wf(*t.prefix, n);
                        crate::parse_tree::lemma_tuple_index_wf(e, n);
                    },
                    _ => {},
                }
            }
        }
        out.push(e);
        i = i + 1;
    }
    out
}

/// Re-interning of each parameter's resolved descriptor, left to right.
pub open spec fn spec_args_ids(
    ts: Seq<TypeInfoView>,
    params: Seq<crate::declaration::TyFunctionParameter>,
    i: int,
    acc: Seq<TypeId>,
) -> (Seq<TypeInfoView>, Seq<TypeId>)
    decreases params.len() - i,
{
    if i < 0 || i >= params.len() {
        (ts, acc)
    } else {
        let tid = params[i].type_argument.type_id;
        let rt = if tid < ts.len() {
            ts[tid as int]
        } else {
            TypeInfoView::Unknown
        };
        let (ts1, t1) = crate::subst::spec_insert_view(ts, rt);
        spec_args_ids(ts1, params, i + 1, acc.push(t1))
    }
}

/// The tuple type mirroring a method's parameter types in declaration
/// order, or nothing for a parameterless method. A single parameter is
/// not special-cased: one-parameter methods go through the tuple path
/// as well. Every descriptor re-interns, so building the tuple cannot
/// fail.
pub fn arguments_type(engines: &mut Engines, decl_id: crate::type_system::DeclId) -> (r: Option<
    TypeArgument,
>)
    requires
        old(engines).wf(),
        decl_id < old(engines).functions().len(),
    ensures
        final(engines).wf(),
        final(engines).de == old(engines).de,
        old(engines).types().len() <= final(engines).types().len(),
        forall|i: int|
            0 <= i < old(engines).types().len() ==> #[trigger] final(engines).types()[i] == old(
                engines,
            ).types()[i],
        (old(engines).functions()[decl_id as int].parameters@.len() == 0 <==> r is None),
        r is None ==> final(engines).types() == old(engines).types(),
        match r {
            Some(ta) => {
                &&& ta.type_id < final(engines).types().len()
                &&& ta.initial_type_id == ta.type_id
                &&& ta.span.is_dummy
                &&& final(engines).types()[ta.type_id as int] matches TypeInfoView::Tuple(ms)
                    && ms == spec_args_ids(
                    old(engines).types(),
                    old(engines).functions()[decl_id as int].parameters@,
                    0,
                    Seq::empty(),
                ).1 && ms.len() == old(engines).functions()[decl_id as int].parameters@.len()
            },
            None => true,
        },
{
    let ghost ts0 = engines.types();
    let ghost params = engines.functions()[decl_id as int].parameters@;
    proof {
        assert(fn_ty_decl_wf(engines.functions()[decl_id as int], ts0.len() as int));
    }
    if engines.get_function(decl_id).parameters.len() == 0 {
        return None;
    }
    let n = engines.get_function(decl_id).parameters.len();
    let mut members: Vec<TypeId> = Vec::new();
    let mut i: usize = 0;
    while i < n
        invariant
            i <= n,
            engines.wf(),
            engines.de == old(engines).de,
            decl_id < engines.functions().len(),
            params == engines.functions()[decl_id as int].parameters@,
            n == params.len(),
            members@.len() == i,
            ts0 == old(engines).types(),
            ts0.len() <= engines.types().len(),
            forall|j: int| 0 <= j < ts0.len() ==> #[trigger] engines.types()[j] == ts0[j],
            forall|j: int|
                0 <= j < params.len() ==> (#[trigger] params[j]).type_argument.type_id
                    < ts0.len(),
            forall|j: int| 0 <= j < members@.len() ==> #[trigger] members@[j] < engines.types().len(),
            spec_args_ids(ts0, params, 0, Seq::empty()) == spec_args_ids(
                engines.types(),
                params,
                i as int,
                members@,
            ),
        decreases n - i,
    {
        let tid = engines.get_function(decl_id).parameters[i].type_argument.type_id;
        proof {
            assert(engines.types()[tid as int] == ts0[tid as int]);
        }
        let cloned_info = crate::type_system::clone_type_info(engines.get_type(tid));
        proof {
            assert(crate::engines::info_wf(
                engines.types()[tid as int],
                tid as int,
                engines.structs().len() as int,
            ));
            match engines.types()[tid as int] {
                TypeInfoView::Tuple(inner) => {
                    assert(crate::engines::info_wf(
                        TypeInfoView::Tuple(inner),
                        tid as int,
                        engines.structs().len() as int,
                    ));
                    assert(crate::engines::members_below(inner, tid as int));
                    assert(crate::engines::members_below(inner, engines.types().len() as int));
                },
                _ => {},
            }
            assert(crate::engines::info_wf(
                cloned_info@,
                engines.types().len() as int,
                engines.structs().len() as int,
            ));
        }
        let t1 = engines.insert_type(cloned_info);
        members.push(t1);
        i = i + 1;
    }
    let ghost ms = members@;
    proof {
        assert(crate::engines::members_below(members@, engines.types().len() as int));
        assert(crate::engines::info_wf(
            TypeInfoView::Tuple(members@),
            engines.types().len() as int,
            engines.structs().len() as int,
        ));
    }
    let type_id = engines.insert_type(TypeInfo::Tuple(members));
    proof {
        assert(final(engines).types()[type_id as int] == TypeInfoView::Tuple(ms));
    }
    Some(TypeArgument { type_id, initial_type_id: type_id, span: Span::dummy() })
}

/// The tuple type of a script entry's arguments: the main function's
/// parameter handles in declaration order, as they stand. Scripts decode
/// their input data directly into this tuple.
pub fn script_arguments_type(engines: &mut Engines, decl_id: crate::type_system::DeclId) -> (r:
    Option<TypeArgument>)
    requires
        old(engines).wf(),
        decl_id < old(engines).functions().len(),
    ensures
        final(engines).wf(),
        final(engines).de == old(engines).de,
        old(engines).types().len() <= final(engines).types().len(),
        forall|i: int|
            0 <= i < old(engines).types().len() ==> #[trigger] final(engines).types()[i] == old(
                engines,
            ).types()[i],
        (old(engines).functions()[decl_id as int].parameters@.len() == 0 <==> r is None),
        match r {
            Some(ta) => {
                &&& ta.type_id < final(engines).types().len()
                &&& ta.initial_type_id == ta.type_id
                &&& ta.span.is_dummy
                &&& final(engines).types()[ta.type_id as int] matches TypeInfoView::Tuple(ms)
                    && ms.len() == old(engines).functions()[decl_id as int].parameters@.len()
                    && (forall|i: int|
                    0 <= i < ms.len() ==> #[trigger] ms[i] == old(
                        engines,
                    ).functions()[decl_id as int].parameters@[i].type_argument.type_id)
            },
            None => final(engines).types() == old(engines).types(),
        },
{
    let ghost ts0 = engines.types();
    let ghost params = engines.functions()[decl_id as int].parameters@;
    proof {
        assert(fn_ty_decl_wf(engines.functions()[decl_id as int], ts0.len() as int));
    }
    if engines.get_function(decl_id).parameters.len() == 0 {
        return None;
    }
    let n = engines.get_function(decl_id).parameters.len();
    let mut members: Vec<TypeId> = Vec::new();
    let mut i: usize = 0;
    while i < n
        invariant
            i <= n,
            engines.wf(),
            decl_id < engines.functions().len(),
            params == engines.functions()[decl_id as int].parameters@,
            n == params.len(),
            members@.len() == i,
            ts0 == engines.types(),
            forall|j: int|
                0 <= j < params.len() ==> (#[trigger] params[j]).type_argument.type_id
                    < ts0.len(),
            forall|j: int|
                0 <= j < i ==> #[trigger] members@[j] == params[j].type_argument.type_id,
        decreases n - i,
    {
        let tid = engines.get_function(decl_id).parameters[i].type_argument.type_id;
        members.push(tid);
        i = i + 1;
    }
    let ghost ms = members@;
    proof {
        assert(crate::engines::members_below(members@, engines.types().len() as int));
        assert(crate::engines::info_wf(
            TypeInfoView::Tuple(members@),
            engines.types().len() as int,
            engines.structs().len() as int,
        ));
    }
    let type_id = engines.insert_type(TypeInfo::Tuple(members));
    proof {
        assert(final(engines).types()[type_id as int] == TypeInfoView::Tuple(ms));
    }
    Some(TypeArgument { type_id, initial_type_id: type_id, span: Span::dummy() })
}

/// The call that decodes the script's input data into the entry's
/// argument tuple.
pub fn call_decode_script_data(_engines: &Engines, args_type: TypeArgument) -> (r: Expression)
    ensures
        is_call_to(r, "decode_script_data"@, 0),
        call_type_args(r) == seq![args_type],
{
    let mut type_arguments: Vec<TypeArgument> = Vec::new();
    type_arguments.push(args_type);
    let r = Expression {
        kind: ExpressionKind::FunctionApplication(
            Box::new(
                FunctionApplicationExpression {
                    call_path_binding: dummy_binding(
                        String::from_str("decode_script_data"),
                        type_arguments,
                    ),
                    arguments: Vec::new(),
                },
            ),
        ),
        span: Span::dummy(),
    };
    proof {
        reveal_strlit("decode_script_data");
    }
    r
}

/// A plain call to the function of the given name, arguments bound
/// positionally.
pub fn call_function_with_suffix(suffix: String, arguments: Vec<Expression>) -> (r: Expression)
    ensures
        is_call_to(r, suffix@, arguments@.len() as int),
        call_args(r) == arguments@,
        call_type_args(r).len() == 0,
{
    Expression {
        kind: ExpressionKind::FunctionApplication(
            Box::new(
                FunctionApplicationExpression {
                    call_path_binding: dummy_binding(suffix, Vec::new()),
                    arguments,
                },
            ),
        ),
        span: Span::dummy(),
    }
}

/// The node that hands the encoded result back through the runtime's
/// return intrinsic, as the buffer's pointer and byte length.
pub open spec fn is_contract_ret_node(n: AstNode, result_name: Seq<char>) -> bool {
    &&& n.span.is_dummy
    &&& n.content matches AstNodeContent::Expression(e) && e.span.is_dummy && (
    e.kind matches ExpressionKind::IntrinsicFunction(f) && f.name.text@ == "__contract_ret"@
        && f.kind_binding == Intrinsic::ContractRet && f.arguments@.len() == 2 && is_method_call(
        f.arguments@[0],
        "ptr"@,
        1,
    ) && is_method_call(f.arguments@[1], "number_of_bytes"@, 1) && (method_args(f.arguments@[0])[0].kind
        matches ExpressionKind::AmbiguousVariable(v1) && v1.text@ == result_name) && (method_args(
        f.arguments@[1],
    )[0].kind matches ExpressionKind::AmbiguousVariable(v2) && v2.text@ == result_name))
}

/// Builds the return node over the named result variable.
pub fn contract_ret_node(engines: &Engines, result_name: &str) -> (r: AstNode)
    ensures
        is_contract_ret_node(r, result_name@),
        forall|n: int| #[trigger] crate::parse_tree::node_wf(r, n),
{
    let recv_ptr = Expression {
        kind: ExpressionKind::AmbiguousVariable(Ident::new_no_span(result_name.to_owned())),
        span: Span::dummy(),
    };
    let ghost g_recv_ptr = recv_ptr;
    let ptr_arg = call_fn(recv_ptr, "ptr");
    let recv_len = Expression {
        kind: ExpressionKind::AmbiguousVariable(Ident::new_no_span(result_name.to_owned())),
        span: Span::dummy(),
    };
    let ghost g_recv_len = recv_len;
    let len_arg = call_fn(recv_len, "number_of_bytes");
    proof {
        assert forall|n: int| crate::parse_tree::expr_wf(ptr_arg, n) by {
            crate::parse_tree::lemma_atomic_wf(g_recv_ptr, n);
            crate::parse_tree::lemma_exprs_wf_pointwise(method_args(ptr_arg), n, 0);
            crate::parse_tree::lemma_method_app_wf(ptr_arg, n);
        }
        assert forall|n: int| crate::parse_tree::expr_wf(len_arg, n) by {
            crate::parse_tree::lemma_atomic_wf(g_recv_len, n);
            crate::parse_tree::lemma_exprs_wf_pointwise(method_args(len_arg), n, 0);
            crate::parse_tree::lemma_method_app_wf(len_arg, n);
        }
    }
    let ghost g_ptr = ptr_arg;
    let ghost g_len = len_arg;
    let mut arguments: Vec<Expression> = Vec::new();
    arguments.push(ptr_arg);
    arguments.push(len_arg);
    let r = AstNode {
        content: AstNodeContent::Expression(
            Expression {
                kind: ExpressionKind::IntrinsicFunction(
                    crate::parse_tree::IntrinsicFunctionExpression {
                        name: Ident::new_no_span(String::from_str("__contract_ret")),
                        kind_binding: Intrinsic::ContractRet,
                        arguments,
                    },
                ),
                span: Span::dummy(),
            },
        ),
        span: Span::dummy(),
    };
    proof {
        reveal_strlit("__contract_ret");
        assert forall|n: int| #[trigger] crate::parse_tree::node_wf(r, n) by {
            match r.content {
                AstNodeContent::Expression(e) => {
                    match e.kind {
                        ExpressionKind::IntrinsicFunction(f) => {
                            assert(f.arguments@ =~= seq![g_ptr, g_len]);
                            crate::parse_tree::lemma_exprs_wf_pointwise(f.arguments@, n, 0);
                            crate::parse_tree::lemma_intrinsic_wf(e, n);
                        },
                        _ => {},
                    }
                    crate::parse_tree::lemma_expr_node_wf(r, n);
                },
                _ => {},
            }
        }
    }
    r
}

/// The node that binds the decoded argument tuple: a variable named
/// `args` initialized by the named decoder with the tuple type as its
/// one type argument, every span the sentinel.
pub open spec fn is_args_decl_node(n: AstNode, decoder: Seq<char>) -> bool {
    &&& n.span.is_dummy
    &&& n.content matches AstNodeContent::Declaration(Declaration::VariableDeclaration(v))
        && v.name.text@ == "args"@ && v.name.span.is_dummy && !v.is_mutable && is_call_to(
        v.body,
        decoder,
        0,
    ) && call_type_args(v.body) == seq![v.type_ascription]
}

/// The tuple type the args declaration decodes into.
pub open spec fn args_decl_type_id(n: AstNode) -> TypeId {
    match n.content {
        AstNodeContent::Declaration(Declaration::VariableDeclaration(v)) => v.type_ascription.type_id,
        _ => 0,
    }
}

/// The node that binds the encoded result: a variable named `result`,
/// typed as the raw transport slice, initialized by `encode` applied to
/// a call of `callee` whose arguments read `args.0, args.1, ...` in
/// order; every span the sentinel.
pub open spec fn is_result_encode_node(
    n: AstNode,
    callee: Seq<char>,
    nargs: int,
    ts: Seq<TypeInfoView>,
) -> bool {
    &&& n.span.is_dummy
    &&& n.content matches AstNodeContent::Declaration(Declaration::VariableDeclaration(v))
        && v.name.text@ == "result"@ && v.name.span.is_dummy && !v.is_mutable
        && v.type_ascription.type_id < ts.len() && ts[v.type_ascription.type_id as int]
        == TypeInfoView::RawUntypedSlice && is_call_to(v.body, "encode"@, 1) && is_call_to(
        call_args(v.body)[0],
        callee,
        nargs,
    ) && call_type_args(call_args(v.body)[0]).len() == 0 && (forall|i: int|
        0 <= i < nargs ==> is_tuple_index(
            #[trigger] call_args(call_args(v.body)[0])[i],
            "args"@,
            i,
        ))
}

/// The node that binds the decoded method name: a variable named
/// `method_name`, typed as the string slice, initialized by the
/// first-slot decoder; every span the sentinel.
pub open spec fn is_method_name_decl_node(n: AstNode, ts: Seq<TypeInfoView>) -> bool {
    &&& n.span.is_dummy
    &&& n.content matches AstNodeContent::Declaration(Declaration::VariableDeclaration(v))
        && v.name.text@ == "method_name"@ && v.name.span.is_dummy && !v.is_mutable
        && v.type_ascription.type_id < ts.len() && ts[v.type_ascription.type_id as int]
        == TypeInfoView::StringSlice && is_call_to(v.body, "decode_first_param"@, 0)
        && call_type_args(v.body).len() == 1 && call_type_args(v.body)[0].type_id
        == v.type_ascription.type_id && call_type_args(v.body)[0].span.is_dummy
}

/// The body a synthesized script entry carries: decode the script data
/// into the parameter tuple (skipped for a parameterless main), call
/// `main` with the decoded values bound positionally, encode the result
/// and return it through the runtime convention.
pub open spec fn spec_script_entry_body(
    contents: Seq<AstNode>,
    param_tids: Seq<TypeId>,
    ts: Seq<TypeInfoView>,
) -> bool {
    let nargs = param_tids.len() as int;
    &&& contents.len() == if nargs > 0 {
        3int
    } else {
        2int
    }
    &&& nargs > 0 ==> is_args_decl_node(contents[0], "decode_script_data"@) && args_decl_type_id(
        contents[0],
    ) < ts.len() && (ts[args_decl_type_id(contents[0]) as int] matches TypeInfoView::Tuple(ms)
        && ms == param_tids)
    &&& is_result_encode_node(contents[contents.len() - 2], "main"@, nargs, ts)
    &&& is_contract_ret_node(contents[contents.len() - 1], "result"@)
}

/// One dispatcher branch: compare the decoded name against the method's
/// source name by string equality; on a match decode the argument tuple
/// (even for one parameter), call the declaration wrapped under its
/// synthetic `__contract_entry_` name, encode the result and hand it to
/// the return intrinsic. No branch carries an alternative: an unmatched
/// name falls through to the next test, and past the last one the
/// behavior is the runtime's.
pub open spec fn is_dispatch_branch(
    n: AstNode,
    method: TyFunctionDecl,
    ts: Seq<TypeInfoView>,
) -> bool {
    let nargs = method.parameters@.len() as int;
    &&& n.span.is_dummy
    &&& n.content matches AstNodeContent::Expression(e) && e.span.is_dummy && (
    e.kind matches ExpressionKind::If(branch) && branch.else_branch is None && is_method_call(
        *branch.condition,
        "eq"@,
        2,
    ) && (method_args(*branch.condition)[0].kind matches ExpressionKind::Variable(mv)
        && mv.text@ == "method_name"@ && mv.span.is_dummy) && method_args(
        *branch.condition,
    )[0].span.is_dummy && (method_args(*branch.condition)[1].kind matches ExpressionKind::Literal(
        crate::parse_tree::Literal::String(lit),
    ) && lit@ == method.name.text@) && method_args(*branch.condition)[1].span.is_dummy && (
    branch.then_branch.kind matches ExpressionKind::CodeBlock(b) && branch.then_branch.span.is_dummy
        && b.whole_block_span.is_dummy && {
        let tn = b.contents@;
        &&& tn.len() == if nargs > 0 {
            3int
        } else {
            2int
        }
        &&& nargs > 0 ==> is_args_decl_node(tn[0], "decode_second_param"@) && args_decl_type_id(
            tn[0],
        ) < ts.len() && (ts[args_decl_type_id(tn[0]) as int] matches TypeInfoView::Tuple(ms)
            && ms.len() == nargs)
        &&& is_result_encode_node(
            tn[tn.len() - 2],
            "__contract_entry_"@ + method.call_path.suffix.text@,
            nargs,
            ts,
        )
        &&& is_contract_ret_node(tn[tn.len() - 1], "result"@)
    }))
}

/// The body a synthesized contract entry carries: bind the decoded
/// method name, then one dispatch branch per collected contract method,
/// in collection order — submodules first, then the root, declaration
/// order within each; the first matching name wins.
pub open spec fn spec_contract_dispatch_body(
    contents: Seq<AstNode>,
    methods: Seq<crate::type_system::DeclId>,
    fns: Seq<TyFunctionDecl>,
    ts: Seq<TypeInfoView>,
) -> bool {
    &&& contents.len() == 1 + methods.len()
    &&& is_method_name_decl_node(contents[0], ts)
    &&& forall|k: int|
        0 <= k < methods.len() && methods[k] < fns.len() ==> is_dispatch_branch(
            #[trigger] contents[1 + k],
            fns[methods[k] as int],
            ts,
        )
}

/// Every fact the body predicates state about the interning table is a
/// lookup of an existing handle, so the predicates survive growth.
pub proof fn lemma_dispatch_branch_grow(
    n: AstNode,
    method: TyFunctionDecl,
    ts1: Seq<TypeInfoView>,
    ts2: Seq<TypeInfoView>,
)
    requires
        is_dispatch_branch(n, method, ts1),
        ts1.len() <= ts2.len(),
        forall|i: int| 0 <= i < ts1.len() ==> #[trigger] ts2[i] == ts1[i],
    ensures
        is_dispatch_branch(n, method, ts2),
{
    match n.content {
        AstNodeContent::Expression(e) => {
            match e.kind {
                ExpressionKind::If(branch) => {
                    match branch.then_branch.kind {
                        ExpressionKind::CodeBlock(b) => {
                            let tn = b.contents@;
                            let nargs = method.parameters@.len() as int;
                            if nargs > 0 {
                                assert(ts2[args_decl_type_id(tn[0]) as int] == ts1[args_decl_type_id(
                                    tn[0],
                                ) as int]);
                            }
                            match tn[tn.len() - 2].content {
                                AstNodeContent::Declaration(
                                    Declaration::VariableDeclaration(v),
                                ) => {
                                    assert(ts2[v.type_ascription.type_id as int] == ts1[v.type_ascription.type_id as int]);
                                },
                                _ => {},
                            }
                        },
                        _ => {},
                    }
                },
                _ => {},
            }
        },
        _ => {},
    }
}

/// Splices the synthesized entry function into the root module: the
/// declaration is built with the sentinel span, checked for internal
/// consistency, inserted into the declaration engine and appended to the
/// root's nodes. A diagnostic from that internal check is fatal and
/// marks an engine bug, not a user error.
pub fn gen_entry_fn(
    handler: &mut Handler,
    engines: &mut Engines,
    root: &mut TyModule,
    purity: Purity,
    contents: Vec<AstNode>,
    unit_type_id: TypeId,
) -> (r: Result<(), ErrorEmitted>)
    requires
        old(engines).wf(),
        unit_type_id < old(engines).types().len(),
    ensures
        final(engines).wf(),
        final(engines).types() == old(engines).types(),
        final(engines).structs() == old(engines).structs(),
        final(engines).storages() == old(engines).storages(),
        match r {
            Ok(_) => {
                &&& nodes_wf(contents@, old(engines).types().len() as int, 0)
                &&& *final(handler) == *old(handler)
                &&& final(engines).functions() == old(engines).functions().push(
                    final(engines).functions().last(),
                )
                &&& final(engines).functions().last().name.text@ == "__entry"@
                &&& final(engines).functions().last().name.span.is_dummy
                &&& final(engines).functions().last().kind == TyFunctionDeclKind::Entry
                &&& final(engines).functions().last().purity == purity
                &&& final(engines).functions().last().parameters@.len() == 0
                &&& final(engines).functions().last().return_type.type_id == unit_type_id
                &&& final(engines).functions().last().visibility == Visibility::Public
                &&& final(engines).functions().last().span.is_dummy
                &&& final(engines).functions().last().call_path.suffix.text@ == "__entry"@
                &&& final(engines).functions().last().call_path.suffix.span.is_dummy
                &&& final(engines).functions().last().call_path.prefixes@.len() == 0
                &&& final(engines).functions().last().body.whole_block_span.is_dummy
                &&& final(engines).functions().last().return_type.span.is_dummy
                &&& final(engines).functions().last().return_type.initial_type_id == unit_type_id
                &&& final(engines).functions().last().type_parameters@.len() == 0
                &&& final(engines).functions().last().body.contents@ == contents@
                &&& final(root).all_nodes@ == old(root).all_nodes@.push(
                    final(root).all_nodes@.last(),
                )
                &&& final(root).all_nodes@.last().span.is_dummy
                &&& (final(root).all_nodes@.last().content matches TyAstNodeContent::Declaration(
                    TyDecl::FunctionDecl { name, decl_id },
                ) && name.text@ == "__entry"@ && decl_id as int == old(engines).functions().len())
                &&& final(root).submodules@ == old(root).submodules@
            },
            Err(_) => {
                &&& !nodes_wf(contents@, old(engines).types().len() as int, 0)
                &&& final(engines).functions() == old(engines).functions()
                &&& *final(root) == *old(root)
                &&& final(handler).warnings@ == old(handler).warnings@
                &&& exists|e: CompileError|
                    final(handler).errors@ == old(handler).errors@.push(e) && (e matches
                    CompileError::InternalSynthesisFailure { span } && span.is_dummy)
            },
        },
{
    if !check_nodes(&contents, engines.type_count()) {
        let err = CompileError::InternalSynthesisFailure { span: Span::dummy() };
        return Err(handler.emit_err(err));
    }
    proof {
        reveal_strlit("__entry");
    }
    let entry_name = Ident::new_no_span(String::from_str("__entry"));
    let entry_decl = TyFunctionDecl {
        name: Ident::new_no_span(String::from_str("__entry")),
        call_path: CallPath { prefixes: Vec::new(), suffix: entry_name, is_absolute: false },
        body: CodeBlock { contents, whole_block_span: Span::dummy() },
        parameters: Vec::new(),
        return_type: TypeArgument {
            type_id: unit_type_id,
            initial_type_id: unit_type_id,
            span: Span::dummy(),
        },
        type_parameters: Vec::new(),
        visibility: Visibility::Public,
        purity,
        span: Span::dummy(),
        kind: TyFunctionDeclKind::Entry,
    };
    let decl_id = engines.insert_function(entry_decl);
    root.all_nodes.push(
        TyAstNode {
            content: TyAstNodeContent::Declaration(
                TyDecl::FunctionDecl {
                    name: Ident::new_no_span(String::from_str("__entry")),
                    decl_id,
                },
            ),
            span: Span::dummy(),
        },
    );
    Ok(())
}

} // verus!
