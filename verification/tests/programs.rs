use sway_semantics::declaration::{TyFunctionDecl, TyFunctionDeclKind, TyFunctionParameter, TyStorageDecl, TyStorageField};
use sway_semantics::engines::Engines;
use sway_semantics::handler::{CompileError, Handler};
use sway_semantics::language::{CallPath, Ident, Purity, Visibility};
use sway_semantics::parse_tree::{
    AstNode, AstNodeContent, CodeBlock, Declaration, Expression, ExpressionKind,
    FunctionDeclaration, FunctionDeclarationKind, FunctionParameter, Literal, ParseModule,
    ParseProgram, ParseSubmodule, TreeType,
};
use sway_semantics::entry_synth::gen_entry_fn;
use sway_semantics::parse_tree::VariableDeclaration;
use sway_semantics::program::{BuildConfig, Namespace};
use sway_semantics::source_map::{breakpoint_pc, build_line_map, line_of_offset};
use sway_semantics::span::Span;
use sway_semantics::typed_tree::{TyAstNode, TyAstNodeContent, TyDecl, TyModule, TyProgram, TyProgramKind};
use sway_semantics::type_system::{TypeArgument, TypeInfo};

fn ident(text: &str) -> Ident {
    Ident::new(String::from(text), Span::new(1, 2))
}

fn ta(type_id: usize) -> TypeArgument {
    TypeArgument { type_id, initial_type_id: type_id, span: Span::dummy() }
}

fn fn_decl_node(
    name: &str,
    params: Vec<FunctionParameter>,
    return_tid: usize,
    kind: FunctionDeclarationKind,
) -> AstNode {
    AstNode {
        content: AstNodeContent::Declaration(Declaration::FunctionDeclaration(Box::new(
            FunctionDeclaration {
                purity: Purity::Pure,
                attributes: Vec::new(),
                name: ident(name),
                visibility: Visibility::Public,
                body: CodeBlock { contents: Vec::new(), whole_block_span: Span::dummy() },
                parameters: params,
                span: Span::new(3, 9),
                return_type: ta(return_tid),
                type_parameters: Vec::new(),
                kind,
            },
        ))),
        span: Span::new(3, 9),
    }
}

fn param(name: &str, tid: usize) -> FunctionParameter {
    FunctionParameter { name: ident(name), type_argument: ta(tid) }
}

fn call_suffix(e: &Expression) -> Option<&str> {
    match &e.kind {
        ExpressionKind::FunctionApplication(app) => {
            Some(app.call_path_binding.inner.suffix.text.as_str())
        },
        _ => None,
    }
}

#[test]
fn script_entry_decodes_two_values_in_order() {
    let mut engines = Engines::new();
    let u64_tid = engines.insert_type(TypeInfo::UnsignedInteger(64));
    let bool_tid = engines.insert_type(TypeInfo::Boolean);
    let unit_tid = engines.insert_type(TypeInfo::Tuple(Vec::new()));
    let parsed = ParseProgram {
        kind: TreeType::Script,
        root: ParseModule {
            span: Span::new(0, 100),
            all_nodes: vec![fn_decl_node(
                "main",
                vec![param("a", u64_tid), param("b", bool_tid)],
                unit_tid,
                FunctionDeclarationKind::Default,
            )],
            submodules: Vec::new(),
        },
    };
    let mut handler = Handler::new();
    let program = TyProgram::type_check(
        &mut handler,
        &mut engines,
        &parsed,
        Namespace { core_ops_available: true },
        "demo",
        Some(&BuildConfig { new_encoding: true }),
    )
    .expect("script type check");
    assert!(handler.errors.is_empty());
    assert_eq!(program.kind, TyProgramKind::Script);
    assert_eq!(program.root.all_nodes.len(), 2);
    let entry_id = match &program.root.all_nodes[1].content {
        TyAstNodeContent::Declaration(TyDecl::FunctionDecl { name, decl_id }) => {
            assert_eq!(name.text, "__entry");
            *decl_id
        },
        other => panic!("expected the synthesized entry, got {:?}", other),
    };
    let entry = engines.get_function(entry_id);
    assert_eq!(entry.kind, TyFunctionDeclKind::Entry);
    assert_eq!(entry.purity, Purity::Pure);
    assert!(entry.parameters.is_empty());
    assert!(entry.span.is_dummy);
    let contents = &entry.body.contents;
    assert_eq!(contents.len(), 3);
    // Step 1: decode the script data into the exact argument tuple.
    let args_decl = match &contents[0].content {
        AstNodeContent::Declaration(Declaration::VariableDeclaration(v)) => v,
        other => panic!("expected the args declaration, got {:?}", other),
    };
    assert_eq!(args_decl.name.text, "args");
    assert_eq!(call_suffix(&args_decl.body), Some("decode_script_data"));
    match engines.get_type(args_decl.type_ascription.type_id) {
        TypeInfo::Tuple(ms) => {
            assert_eq!(ms.len(), 2);
            assert!(matches!(engines.get_type(ms[0]), TypeInfo::UnsignedInteger(64)));
            assert!(matches!(engines.get_type(ms[1]), TypeInfo::Boolean));
        },
        other => panic!("expected the argument tuple, got {:?}", other),
    }
    // Step 2: call main with the decoded values, bound positionally.
    let result_decl = match &contents[1].content {
        AstNodeContent::Declaration(Declaration::VariableDeclaration(v)) => v,
        other => panic!("expected the result declaration, got {:?}", other),
    };
    assert_eq!(result_decl.name.text, "result");
    assert_eq!(call_suffix(&result_decl.body), Some("encode"));
    let encoded_arg = match &result_decl.body.kind {
        ExpressionKind::FunctionApplication(app) => &app.arguments[0],
        other => panic!("expected the encode call, got {:?}", other),
    };
    assert_eq!(call_suffix(encoded_arg), Some("main"));
    match &encoded_arg.kind {
        ExpressionKind::FunctionApplication(app) => {
            assert_eq!(app.arguments.len(), 2);
            for (i, a) in app.arguments.iter().enumerate() {
                match &a.kind {
                    ExpressionKind::TupleIndex(t) => {
                        assert_eq!(t.index, i);
                        match &t.prefix.kind {
                            ExpressionKind::AmbiguousVariable(v) => assert_eq!(v.text, "args"),
                            other => panic!("expected the args variable, got {:?}", other),
                        }
                    },
                    other => panic!("expected a tuple index, got {:?}", other),
                }
            }
        },
        _ => unreachable!(),
    }
    // Step 3: hand the encoded buffer back through the return intrinsic.
    match &contents[2].content {
        AstNodeContent::Expression(e) => match &e.kind {
            ExpressionKind::IntrinsicFunction(f) => {
                assert_eq!(f.name.text, "__contract_ret");
                assert_eq!(f.arguments.len(), 2);
            },
            other => panic!("expected the return intrinsic, got {:?}", other),
        },
        other => panic!("expected the return node, got {:?}", other),
    }
}

#[test]
fn contract_dispatch_decodes_single_argument_through_tuple() {
    let mut engines = Engines::new();
    let u64_tid = engines.insert_type(TypeInfo::UnsignedInteger(64));
    let unit_tid = engines.insert_type(TypeInfo::Tuple(Vec::new()));
    let parsed = ParseProgram {
        kind: TreeType::Contract,
        root: ParseModule {
            span: Span::new(0, 100),
            all_nodes: vec![
                fn_decl_node("foo", Vec::new(), unit_tid, FunctionDeclarationKind::ContractMethod),
                fn_decl_node(
                    "bar",
                    vec![param("x", u64_tid)],
                    u64_tid,
                    FunctionDeclarationKind::ContractMethod,
                ),
            ],
            submodules: Vec::new(),
        },
    };
    let mut handler = Handler::new();
    let program = TyProgram::type_check(
        &mut handler,
        &mut engines,
        &parsed,
        Namespace { core_ops_available: true },
        "demo",
        Some(&BuildConfig { new_encoding: true }),
    )
    .expect("contract type check");
    assert!(handler.errors.is_empty());
    assert_eq!(program.kind, TyProgramKind::Contract);
    assert_eq!(program.root.all_nodes.len(), 3);
    let entry_id = match &program.root.all_nodes[2].content {
        TyAstNodeContent::Declaration(TyDecl::FunctionDecl { name, decl_id }) => {
            assert_eq!(name.text, "__entry");
            *decl_id
        },
        other => panic!("expected the synthesized entry, got {:?}", other),
    };
    let entry = engines.get_function(entry_id);
    assert_eq!(entry.kind, TyFunctionDeclKind::Entry);
    assert_eq!(entry.purity, Purity::ReadsWrites);
    let contents = &entry.body.contents;
    // One method-name declaration, then one branch per method.
    assert_eq!(contents.len(), 3);
    let name_decl = match &contents[0].content {
        AstNodeContent::Declaration(Declaration::VariableDeclaration(v)) => v,
        other => panic!("expected the method-name declaration, got {:?}", other),
    };
    assert_eq!(name_decl.name.text, "method_name");
    assert_eq!(call_suffix(&name_decl.body), Some("decode_first_param"));
    // The branch for `bar` sits second, after `foo`, in collection order.
    let bar_branch = match &contents[2].content {
        AstNodeContent::Expression(e) => match &e.kind {
            ExpressionKind::If(i) => i,
            other => panic!("expected a dispatch branch, got {:?}", other),
        },
        other => panic!("expected a dispatch branch, got {:?}", other),
    };
    match &bar_branch.condition.kind {
        ExpressionKind::MethodApplication(app) => {
            assert_eq!(app.method_name_binding.method_name.text, "eq");
            assert_eq!(app.arguments.len(), 2);
            match &app.arguments[1].kind {
                ExpressionKind::Literal(Literal::String(s)) => assert_eq!(s, "bar"),
                other => panic!("expected the method-name literal, got {:?}", other),
            }
        },
        other => panic!("expected the name comparison, got {:?}", other),
    }
    let then_nodes = match &bar_branch.then_branch.kind {
        ExpressionKind::CodeBlock(b) => &b.contents,
        other => panic!("expected the branch body, got {:?}", other),
    };
    assert_eq!(then_nodes.len(), 3);
    // Even a one-parameter method goes through the tuple-decode path.
    let args_decl = match &then_nodes[0].content {
        AstNodeContent::Declaration(Declaration::VariableDeclaration(v)) => v,
        other => panic!("expected the args declaration, got {:?}", other),
    };
    assert_eq!(args_decl.name.text, "args");
    assert_eq!(call_suffix(&args_decl.body), Some("decode_second_param"));
    match engines.get_type(args_decl.type_ascription.type_id) {
        TypeInfo::Tuple(ms) => {
            assert_eq!(ms.len(), 1);
            assert!(matches!(engines.get_type(ms[0]), TypeInfo::UnsignedInteger(64)));
        },
        other => panic!("expected a one-element tuple, got {:?}", other),
    }
    let result_decl = match &then_nodes[1].content {
        AstNodeContent::Declaration(Declaration::VariableDeclaration(v)) => v,
        other => panic!("expected the result declaration, got {:?}", other),
    };
    assert_eq!(call_suffix(&result_decl.body), Some("encode"));
    let wrapped = match &result_decl.body.kind {
        ExpressionKind::FunctionApplication(app) => &app.arguments[0],
        _ => unreachable!(),
    };
    // The dispatcher calls the wrapped declaration under its synthetic name.
    assert_eq!(call_suffix(wrapped), Some("__contract_entry_bar"));
    match &wrapped.kind {
        ExpressionKind::FunctionApplication(app) => {
            assert_eq!(app.arguments.len(), 1);
            assert!(matches!(app.arguments[0].kind, ExpressionKind::TupleIndex(_)));
        },
        _ => unreachable!(),
    }
    match &then_nodes[2].content {
        AstNodeContent::Expression(e) => match &e.kind {
            ExpressionKind::IntrinsicFunction(f) => {
                assert_eq!(f.name.text, "__contract_ret");
                assert_eq!(f.arguments.len(), 2);
            },
            other => panic!("expected the return intrinsic, got {:?}", other),
        },
        other => panic!("expected the return node, got {:?}", other),
    }
    // The foo branch has no decode step: no parameters to decode.
    let foo_branch = match &contents[1].content {
        AstNodeContent::Expression(e) => match &e.kind {
            ExpressionKind::If(i) => i,
            _ => unreachable!(),
        },
        _ => unreachable!(),
    };
    let foo_nodes = match &foo_branch.then_branch.kind {
        ExpressionKind::CodeBlock(b) => &b.contents,
        _ => unreachable!(),
    };
    assert_eq!(foo_nodes.len(), 2);
}

#[test]
fn synthesis_is_a_no_op_when_disabled_or_for_libraries() {
    let mut engines = Engines::new();
    let unit_tid = engines.insert_type(TypeInfo::Tuple(Vec::new()));
    let parsed = ParseProgram {
        kind: TreeType::Library,
        root: ParseModule {
            span: Span::new(0, 10),
            all_nodes: vec![fn_decl_node(
                "helper",
                Vec::new(),
                unit_tid,
                FunctionDeclarationKind::Default,
            )],
            submodules: Vec::new(),
        },
    };
    let mut handler = Handler::new();
    let program = TyProgram::type_check(
        &mut handler,
        &mut engines,
        &parsed,
        Namespace { core_ops_available: false },
        "demo",
        Some(&BuildConfig { new_encoding: true }),
    )
    .expect("library type check");
    assert_eq!(program.root.all_nodes.len(), 1);
    assert_eq!(program.kind, TyProgramKind::Library);
}

#[test]
fn contract_methods_decode_every_descriptor_kind() {
    let mut engines = Engines::new();
    let bool_tid = engines.insert_type(TypeInfo::Boolean);
    let unit_tid = engines.insert_type(TypeInfo::Tuple(Vec::new()));
    // The tuple mirrors the parameter types whatever they are: a bare
    // boolean parameter decodes through a one-element tuple like any
    // other descriptor.
    let parsed = ParseProgram {
        kind: TreeType::Contract,
        root: ParseModule {
            span: Span::new(0, 50),
            all_nodes: vec![fn_decl_node(
                "toggle",
                vec![param("on", bool_tid)],
                unit_tid,
                FunctionDeclarationKind::ContractMethod,
            )],
            submodules: Vec::new(),
        },
    };
    let mut handler = Handler::new();
    let program = TyProgram::type_check(
        &mut handler,
        &mut engines,
        &parsed,
        Namespace { core_ops_available: true },
        "demo",
        Some(&BuildConfig { new_encoding: true }),
    )
    .expect("contract type check");
    assert!(handler.errors.is_empty());
    let entry_id = match &program.root.all_nodes[1].content {
        TyAstNodeContent::Declaration(TyDecl::FunctionDecl { decl_id, .. }) => *decl_id,
        other => panic!("expected the synthesized entry, got {:?}", other),
    };
    let branch = match &engines.get_function(entry_id).body.contents[1].content {
        AstNodeContent::Expression(e) => match &e.kind {
            ExpressionKind::If(i) => i,
            other => panic!("expected a dispatch branch, got {:?}", other),
        },
        other => panic!("expected a dispatch branch, got {:?}", other),
    };
    let then_nodes = match &branch.then_branch.kind {
        ExpressionKind::CodeBlock(b) => &b.contents,
        _ => unreachable!(),
    };
    let args_decl = match &then_nodes[0].content {
        AstNodeContent::Declaration(Declaration::VariableDeclaration(v)) => v,
        other => panic!("expected the args declaration, got {:?}", other),
    };
    match engines.get_type(args_decl.type_ascription.type_id) {
        TypeInfo::Tuple(ms) => {
            assert_eq!(ms.len(), 1);
            assert!(matches!(engines.get_type(ms[0]), TypeInfo::Boolean));
        },
        other => panic!("expected a one-element tuple, got {:?}", other),
    }
}

#[test]
fn ill_formed_synthesized_nodes_are_an_internal_synthesis_failure() {
    let mut engines = Engines::new();
    let unit_tid = engines.insert_type(TypeInfo::Tuple(Vec::new()));
    let mut root = TyModule {
        span: Span::dummy(),
        all_nodes: Vec::new(),
        submodules: Vec::new(),
    };
    // A node whose type annotation points past the interning table fails
    // the synthesizer's internal consistency check.
    let bad_node = AstNode {
        content: AstNodeContent::Declaration(Declaration::VariableDeclaration(Box::new(
            VariableDeclaration {
                name: ident("ghost_var"),
                type_ascription: ta(999),
                body: Expression {
                    kind: ExpressionKind::Literal(Literal::U64(1)),
                    span: Span::dummy(),
                },
                is_mutable: false,
            },
        ))),
        span: Span::dummy(),
    };
    let mut handler = Handler::new();
    let res = gen_entry_fn(
        &mut handler,
        &mut engines,
        &mut root,
        Purity::Pure,
        vec![bad_node],
        unit_tid,
    );
    assert!(res.is_err());
    assert_eq!(handler.errors.len(), 1);
    assert!(matches!(handler.errors[0], CompileError::InternalSynthesisFailure { .. }));
    assert!(root.all_nodes.is_empty());
}

#[test]
fn dependency_cycle_is_fatal() {
    let mut engines = Engines::new();
    let unit_tid = engines.insert_type(TypeInfo::Tuple(Vec::new()));
    let make_module = |name: &str, dep: &str| ParseSubmodule {
        name: ident(name),
        dependencies: vec![ident(dep)],
        module: ParseModule { span: Span::dummy(), all_nodes: Vec::new(), submodules: Vec::new() },
    };
    let parsed = ParseProgram {
        kind: TreeType::Library,
        root: ParseModule {
            span: Span::new(0, 10),
            all_nodes: vec![fn_decl_node(
                "helper",
                Vec::new(),
                unit_tid,
                FunctionDeclarationKind::Default,
            )],
            submodules: vec![make_module("alpha", "beta"), make_module("beta", "alpha")],
        },
    };
    let mut handler = Handler::new();
    let res = TyProgram::type_check(
        &mut handler,
        &mut engines,
        &parsed,
        Namespace { core_ops_available: false },
        "demo",
        None,
    );
    assert!(res.is_err());
    assert_eq!(handler.errors.len(), 1);
    assert!(matches!(handler.errors[0], CompileError::DependencyCycle { .. }));
}

fn typed_fn_node(engines: &mut Engines, name: &str, param_tid: Option<usize>, ret_tid: usize, span: Span) -> TyAstNode {
    let parameters = match param_tid {
        Some(tid) => vec![TyFunctionParameter { name: ident("p"), type_argument: ta(tid) }],
        None => Vec::new(),
    };
    let decl_id = engines.insert_function(TyFunctionDecl {
        name: ident(name),
        call_path: CallPath { prefixes: Vec::new(), suffix: ident(name), is_absolute: false },
        body: CodeBlock { contents: Vec::new(), whole_block_span: Span::dummy() },
        parameters,
        return_type: ta(ret_tid),
        type_parameters: Vec::new(),
        visibility: Visibility::Public,
        purity: Purity::Pure,
        span,
        kind: TyFunctionDeclKind::Default,
    });
    TyAstNode {
        content: TyAstNodeContent::Declaration(TyDecl::FunctionDecl { name: ident(name), decl_id }),
        span,
    }
}

#[test]
fn finalization_failure_is_isolated_per_node() {
    let mut engines = Engines::new();
    let u64_tid = engines.insert_type(TypeInfo::UnsignedInteger(64));
    let unknown_tid = engines.insert_type(TypeInfo::Unknown);
    let n1 = typed_fn_node(&mut engines, "one", Some(u64_tid), u64_tid, Span::new(1, 2));
    let n2 = typed_fn_node(&mut engines, "two", Some(unknown_tid), u64_tid, Span::new(3, 4));
    let n3 = typed_fn_node(&mut engines, "three", None, u64_tid, Span::new(5, 6));
    let mut program = TyProgram {
        kind: TyProgramKind::Contract,
        root: TyModule { span: Span::dummy(), all_nodes: vec![n1, n2, n3], submodules: Vec::new() },
        declarations: Vec::new(),
        configurables: Vec::new(),
        storage_slots: Vec::new(),
        logged_types: Vec::new(),
        messages_types: Vec::new(),
    };
    let mut handler = Handler::new();
    let analyze = program.type_check_analyze(&mut handler, &engines);
    assert!(analyze.is_ok());
    assert!(handler.errors.is_empty());
    let finalize = program.type_check_finalize(&mut handler, &engines);
    assert!(finalize.is_err());
    // Node two failed; nodes one and three still finalized, and exactly
    // one error was recorded.
    assert_eq!(handler.errors.len(), 1);
    match &handler.errors[0] {
        CompileError::TypeUnresolved { span } => assert_eq!(*span, Span::new(3, 4)),
        other => panic!("unexpected error: {:?}", other),
    }
}

#[test]
fn analysis_records_every_failing_node_and_continues() {
    let engines = Engines::new();
    let bad = |s: Span| TyAstNode {
        content: TyAstNodeContent::Declaration(TyDecl::FunctionDecl {
            name: ident("ghost_fn"),
            decl_id: 7,
        }),
        span: s,
    };
    let program = TyProgram {
        kind: TyProgramKind::Script,
        root: TyModule {
            span: Span::dummy(),
            all_nodes: vec![bad(Span::new(1, 2)), bad(Span::new(3, 4))],
            submodules: Vec::new(),
        },
        declarations: Vec::new(),
        configurables: Vec::new(),
        storage_slots: Vec::new(),
        logged_types: Vec::new(),
        messages_types: Vec::new(),
    };
    let mut handler = Handler::new();
    let res = program.type_check_analyze(&mut handler, &engines);
    assert!(res.is_err());
    assert_eq!(handler.errors.len(), 2);
}

#[test]
fn storage_slots_are_deterministic_and_sorted() {
    let mut engines = Engines::new();
    let u64_tid = engines.insert_type(TypeInfo::UnsignedInteger(64));
    let storage_id = engines.insert_storage(TyStorageDecl {
        fields: vec![
            TyStorageField { name: ident("zeta"), type_argument: ta(u64_tid), value: 7, span: Span::dummy() },
            TyStorageField { name: ident("alpha"), type_argument: ta(u64_tid), value: 3, span: Span::dummy() },
            TyStorageField { name: ident("mid"), type_argument: ta(u64_tid), value: 5, span: Span::dummy() },
        ],
        span: Span::dummy(),
    });
    let make_program = || TyProgram {
        kind: TyProgramKind::Contract,
        root: TyModule { span: Span::dummy(), all_nodes: Vec::new(), submodules: Vec::new() },
        declarations: vec![TyDecl::StorageDecl { decl_id: storage_id, decl_span: Span::dummy() }],
        configurables: Vec::new(),
        storage_slots: Vec::new(),
        logged_types: Vec::new(),
        messages_types: Vec::new(),
    };
    let mut handler = Handler::new();
    let first = make_program()
        .get_typed_program_with_initialized_storage_slots(&mut handler, &engines)
        .expect("slots");
    let second = make_program()
        .get_typed_program_with_initialized_storage_slots(&mut handler, &engines)
        .expect("slots");
    assert_eq!(first.storage_slots, second.storage_slots);
    assert_eq!(first.storage_slots.len(), 3);
    for w in first.storage_slots.windows(2) {
        assert!(w[0].key < w[1].key || (w[0].key == w[1].key && w[0].value <= w[1].value));
    }
    assert!(handler.errors.is_empty());
}

#[test]
fn non_contract_programs_get_no_storage_slots() {
    let engines = Engines::new();
    let program = TyProgram {
        kind: TyProgramKind::Script,
        root: TyModule { span: Span::dummy(), all_nodes: Vec::new(), submodules: Vec::new() },
        declarations: Vec::new(),
        configurables: Vec::new(),
        storage_slots: Vec::new(),
        logged_types: Vec::new(),
        messages_types: Vec::new(),
    };
    let mut handler = Handler::new();
    let out = program
        .get_typed_program_with_initialized_storage_slots(&mut handler, &engines)
        .expect("slots");
    assert!(out.storage_slots.is_empty());
}

#[test]
fn line_map_keeps_first_instruction_per_line() {
    let src: Vec<u8> = b"fn main() {\n    let x = 1;\n}\n".to_vec();
    assert_eq!(line_of_offset(&src, 0), Some(1));
    assert_eq!(line_of_offset(&src, 12), Some(2));
    assert_eq!(line_of_offset(&src, 27), Some(3));
    assert_eq!(line_of_offset(&src, 1000), None);
    let entries: Vec<(u64, u64)> = vec![(13, 40), (13, 24), (14, 50), (13, 32)];
    let map = build_line_map(&entries);
    assert_eq!(map, vec![(13, 24), (14, 50)]);
    assert_eq!(breakpoint_pc(24, 16), 28);
}
