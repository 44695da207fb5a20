use vstd::prelude::*;
use crate::declaration::{TyFunctionDecl, TyFunctionDeclKind, TyFunctionParameter, TyStorageDecl, TyStorageField};
use crate::engines::{fn_ty_decl_wf, storage_decl_wf, Engines};
use crate::language::{CallPath, Ident};
use crate::parse_tree::{
    decl_wf, fn_decl_wf, lemma_nodes_wf_index, node_wf, nodes_wf, storage_fields_wf, AstNode,
    AstNodeContent, CodeBlock, Declaration, FunctionDeclaration, FunctionDeclarationKind,
    ParseModule, ParseSubmodule, StorageDeclaration,
};
use crate::span::Span;
use crate::typed_tree::{TyAstNode, TyAstNodeContent, TyDecl, TyModule, TySubmodule};
use crate::type_system::TypeParameter;

verus! {

broadcast use vstd::std_specs::vec::group_vec_axioms;

/// Every type handle anywhere in the module tree was produced by an
/// engine with `ntypes` entries.
pub open spec fn parse_module_wf(pm: ParseModule, ntypes: int) -> bool
    decreases pm, 1int,
{
    &&& nodes_wf(pm.all_nodes@, ntypes, 0)
    &&& parse_submodules_wf(pm.submodules@, ntypes, 0)
}

pub open spec fn parse_submodules_wf(subs: Seq<ParseSubmodule>, ntypes: int, i: int) -> bool
    decreases subs, 0int, subs.len() - i,
{
    if i < 0 || i >= subs.len() {
        true
    } else {
        parse_module_wf(subs[i].module, ntypes) && parse_submodules_wf(subs, ntypes, i + 1)
    }
}

/// The typed kind a parsed function-declaration kind maps to.
pub open spec fn spec_fn_kind(k: FunctionDeclarationKind) -> TyFunctionDeclKind {
    match k {
        FunctionDeclarationKind::Default => TyFunctionDeclKind::Default,
        FunctionDeclarationKind::Entry => TyFunctionDeclKind::Entry,
        FunctionDeclarationKind::ContractMethod => TyFunctionDeclKind::ContractMethod,
    }
}

/// The typed declaration in the engine reflects the parsed one: same
/// name, parameters, return type, kind, purity, visibility and span.
/// The body is checked separately and is not carried by this model.
pub open spec fn fn_corresponds(td: TyFunctionDecl, f: FunctionDeclaration) -> bool {
    &&& td.name.text@ == f.name.text@
    &&& td.name.span == f.name.span
    &&& td.call_path.suffix.text@ == f.name.text@
    &&& td.parameters@.len() == f.parameters@.len()
    &&& forall|j: int|
        0 <= j < td.parameters@.len() ==> (#[trigger] td.parameters@[j]).name.text@
            == f.parameters@[j].name.text@ && td.parameters@[j].type_argument
            == f.parameters@[j].type_argument
    &&& td.return_type == f.return_type
    &&& td.type_parameters@.len() == f.type_parameters@.len()
    &&& forall|j: int|
        0 <= j < td.type_parameters@.len() ==> (#[trigger] td.type_parameters@[j]).name@
            == f.type_parameters@[j].name@ && td.type_parameters@[j].type_id
            == f.type_parameters@[j].type_id
    &&& td.kind == spec_fn_kind(f.kind)
    &&& td.purity == f.purity
    &&& td.visibility == f.visibility
    &&& td.span == f.span
    &&& td.body.contents@.len() == 0
}

pub open spec fn storage_corresponds(td: TyStorageDecl, s: StorageDeclaration) -> bool {
    &&& td.fields@.len() == s.fields@.len()
    &&& forall|j: int|
        0 <= j < td.fields@.len() ==> (#[trigger] td.fields@[j]).name.text@
            == s.fields@[j].name.text@ && td.fields@[j].type_argument == s.fields@[j].type_argument
            && td.fields@[j].value == s.fields@[j].value && td.fields@[j].span == s.fields@[j].span
    &&& td.span == s.span
}

/// One parsed top-level node checks into one typed node: declarations
/// become engine handles, everything else a side effect.
pub open spec fn node_corresponds(
    pn: AstNode,
    tn: TyAstNode,
    fns: Seq<TyFunctionDecl>,
    stos: Seq<TyStorageDecl>,
) -> bool {
    &&& tn.span == pn.span
    &&& match pn.content {
        AstNodeContent::Declaration(Declaration::FunctionDeclaration(f)) => tn.content matches
            TyAstNodeContent::Declaration(TyDecl::FunctionDecl { name, decl_id }) && name.text@
            == f.name.text@ && decl_id < fns.len() && fn_corresponds(fns[decl_id as int], *f),
        AstNodeContent::Declaration(Declaration::StorageDeclaration(s)) => tn.content matches
            TyAstNodeContent::Declaration(TyDecl::StorageDecl { decl_id, decl_span }) && decl_id
            < stos.len() && storage_corresponds(stos[decl_id as int], *s) && decl_span == s.span,
        AstNodeContent::Declaration(Declaration::VariableDeclaration(_)) => tn.content matches
            TyAstNodeContent::SideEffect,
        AstNodeContent::Expression(_) => tn.content matches TyAstNodeContent::SideEffect,
    }
}

/// Correspondence only reads existing table entries, so it survives
/// growth of the engine tables.
pub proof fn lemma_corresponds_grow(
    pn: AstNode,
    tn: TyAstNode,
    fns1: Seq<TyFunctionDecl>,
    fns2: Seq<TyFunctionDecl>,
    stos1: Seq<TyStorageDecl>,
    stos2: Seq<TyStorageDecl>,
)
    requires
        node_corresponds(pn, tn, fns1, stos1),
        fns1.len() <= fns2.len(),
        forall|i: int| 0 <= i < fns1.len() ==> #[trigger] fns2[i] == fns1[i],
        stos1.len() <= stos2.len(),
        forall|i: int| 0 <= i < stos1.len() ==> #[trigger] stos2[i] == stos1[i],
    ensures
        node_corresponds(pn, tn, fns2, stos2),
{
    match pn.content {
        AstNodeContent::Declaration(Declaration::FunctionDeclaration(f)) => {
            match tn.content {
                TyAstNodeContent::Declaration(TyDecl::FunctionDecl { decl_id, .. }) => {
                    assert(fns2[decl_id as int] == fns1[decl_id as int]);
                },
                _ => {},
            }
        },
        AstNodeContent::Declaration(Declaration::StorageDeclaration(s)) => {
            match tn.content {
                TyAstNodeContent::Declaration(TyDecl::StorageDecl { decl_id, .. }) => {
                    assert(stos2[decl_id as int] == stos1[decl_id as int]);
                },
                _ => {},
            }
        },
        _ => {},
    }
}

fn clone_ident(x: &Ident) -> (r: Ident)
    ensures
        r.text@ == x.text@,
        r.span == x.span,
        r == *x,
{
    Ident { text: x.text.clone(), span: x.span }
}

fn convert_params(ps: &Vec<crate::parse_tree::FunctionParameter>) -> (r: Vec<TyFunctionParameter>)
    ensures
        r@.len() == ps@.len(),
        forall|j: int|
            0 <= j < r@.len() ==> (#[trigger] r@[j]).name.text@ == ps@[j].name.text@ && r@[j].name.span
                == ps@[j].name.span && r@[j].type_argument == ps@[j].type_argument,
{
    let n = ps.len();
    let mut out: Vec<TyFunctionParameter> = Vec::new();
    let mut i: usize = 0;
    while i < n
        invariant
            i <= n,
            n == ps@.len(),
            out@.len() == i,
            forall|j: int|
                0 <= j < i ==> (#[trigger] out@[j]).name.text@ == ps@[j].name.text@
                    && out@[j].name.span == ps@[j].name.span && out@[j].type_argument
                    == ps@[j].type_argument,
        decreases n - i,
    {
        out.push(
            TyFunctionParameter {
                name: clone_ident(&ps[i].name),
                type_argument: ps[i].type_argument,
            },
        );
        i = i + 1;
    }
    out
}

fn convert_type_params(ps: &Vec<TypeParameter>) -> (r: Vec<TypeParameter>)
    ensures
        r@.len() == ps@.len(),
        forall|j: int|
            0 <= j < r@.len() ==> (#[trigger] r@[j]).name@ == ps@[j].name@ && r@[j].type_id
                == ps@[j].type_id && r@[j].initial_type_id == ps@[j].initial_type_id,
{
    let n = ps.len();
    let mut out: Vec<TypeParameter> = Vec::new();
    let mut i: usize = 0;
    while i < n
        invariant
            i <= n,
            n == ps@.len(),
            out@.len() == i,
            forall|j: int|
                0 <= j < i ==> (#[trigger] out@[j]).name@ == ps@[j].name@ && out@[j].type_id
                    == ps@[j].type_id && out@[j].initial_type_id == ps@[j].initial_type_id,
        decreases n - i,
    {
        out.push(
            TypeParameter {
                name: ps[i].name.clone(),
                type_id: ps[i].type_id,
                initial_type_id: ps[i].initial_type_id,
            },
        );
        i = i + 1;
    }
    out
}

fn convert_storage_fields(fs: &Vec<crate::parse_tree::StorageField>) -> (r: Vec<TyStorageField>)
    ensures
        r@.len() == fs@.len(),
        forall|j: int|
            0 <= j < r@.len() ==> (#[trigger] r@[j]).name.text@ == fs@[j].name.text@
                && r@[j].type_argument == fs@[j].type_argument && r@[j].value == fs@[j].value
                && r@[j].span == fs@[j].span,
{
    let n = fs.len();
    let mut out: Vec<TyStorageField> = Vec::new();
    let mut i: usize = 0;
    while i < n
        invariant
            i <= n,
            n == fs@.len(),
            out@.len() == i,
            forall|j: int|
                0 <= j < i ==> (#[trigger] out@[j]).name.text@ == fs@[j].name.text@
                    && out@[j].type_argument == fs@[j].type_argument && out@[j].value
                    == fs@[j].value && out@[j].span == fs@[j].span,
        decreases n - i,
    {
        out.push(
            TyStorageField {
                name: clone_ident(&fs[i].name),
                type_argument: fs[i].type_argument,
                value: fs[i].value,
                span: fs[i].span,
            },
        );
        i = i + 1;
    }
    out
}

fn convert_fn_kind(k: FunctionDeclarationKind) -> (r: TyFunctionDeclKind)
    ensures
        r == spec_fn_kind(k),
{
    match k {
        FunctionDeclarationKind::Default => TyFunctionDeclKind::Default,
        FunctionDeclarationKind::Entry => TyFunctionDeclKind::Entry,
        FunctionDeclarationKind::ContractMethod => TyFunctionDeclKind::ContractMethod,
    }
}

/// Per-module type checking: converts each parsed top-level node into a
/// typed node, inserting function and storage declarations into the
/// shared declaration engine, submodules first.
pub fn check_module(engines: &mut Engines, pm: &ParseModule) -> (r: TyModule)
    requires
        old(engines).wf(),
        parse_module_wf(*pm, old(engines).types().len() as int),
    ensures
        final(engines).wf(),
        final(engines).types() == old(engines).types(),
        final(engines).structs() == old(engines).structs(),
        old(engines).functions().len() <= final(engines).functions().len(),
        forall|i: int|
            0 <= i < old(engines).functions().len() ==> #[trigger] final(engines).functions()[i]
                == old(engines).functions()[i],
        old(engines).storages().len() <= final(engines).storages().len(),
        forall|i: int|
            0 <= i < old(engines).storages().len() ==> #[trigger] final(engines).storages()[i]
                == old(engines).storages()[i],
        r.span == pm.span,
        r.submodules@.len() == pm.submodules@.len(),
        forall|k: int|
            0 <= k < r.submodules@.len() ==> (#[trigger] r.submodules@[k]).name.text@
                == pm.submodules@[k].name.text@,
        r.all_nodes@.len() == pm.all_nodes@.len(),
        forall|k: int|
            0 <= k < r.all_nodes@.len() ==> node_corresponds(
                pm.all_nodes@[k],
                #[trigger] r.all_nodes@[k],
                final(engines).functions(),
                final(engines).storages(),
            ),
    decreases *pm,
{
    let ghost ts0 = engines.types();
    let nsub = pm.submodules.len();
    let mut subs: Vec<TySubmodule> = Vec::new();
    let mut i: usize = 0;
    while i < nsub
        invariant
            i <= nsub,
            nsub == pm.submodules@.len(),
            engines.wf(),
            ts0 == old(engines).types(),
            engines.types() == ts0,
            engines.structs() == old(engines).structs(),
            old(engines).functions().len() <= engines.functions().len(),
            forall|j: int|
                0 <= j < old(engines).functions().len() ==> #[trigger] engines.functions()[j]
                    == old(engines).functions()[j],
            old(engines).storages().len() <= engines.storages().len(),
            forall|j: int|
                0 <= j < old(engines).storages().len() ==> #[trigger] engines.storages()[j] == old(
                    engines,
                ).storages()[j],
            parse_submodules_wf(pm.submodules@, ts0.len() as int, 0),
            subs@.len() == i,
            forall|k: int|
                0 <= k < i ==> (#[trigger] subs@[k]).name.text@ == pm.submodules@[k].name.text@,
        decreases nsub - i,
    {
        proof {
            lemma_parse_submodules_wf_index(pm.submodules@, ts0.len() as int, 0, i as int);
        }
        let sm = check_module(engines, &pm.submodules[i].module);
        subs.push(TySubmodule { name: clone_ident(&pm.submodules[i].name), module: sm });
        i = i + 1;
    }
    let n = pm.all_nodes.len();
    let mut nodes: Vec<TyAstNode> = Vec::new();
    let mut k: usize = 0;
    while k < n
        invariant
            k <= n,
            n == pm.all_nodes@.len(),
            engines.wf(),
            ts0 == old(engines).types(),
            engines.types() == ts0,
            engines.structs() == old(engines).structs(),
            old(engines).functions().len() <= engines.functions().len(),
            forall|j: int|
                0 <= j < old(engines).functions().len() ==> #[trigger] engines.functions()[j]
                    == old(engines).functions()[j],
            old(engines).storages().len() <= engines.storages().len(),
            forall|j: int|
                0 <= j < old(engines).storages().len() ==> #[trigger] engines.storages()[j] == old(
                    engines,
                ).storages()[j],
            nodes_wf(pm.all_nodes@, ts0.len() as int, 0),
            nodes@.len() == k,
            forall|j: int|
                0 <= j < k ==> node_corresponds(
                    pm.all_nodes@[j],
                    #[trigger] nodes@[j],
                    engines.functions(),
                    engines.storages(),
                ),
        decreases n - k,
    {
        let ghost fns_before = engines.functions();
        let ghost stos_before = engines.storages();
        proof {
            lemma_nodes_wf_index(pm.all_nodes@, ts0.len() as int, 0, k as int);
        }
        let node: TyAstNode = match &pm.all_nodes[k].content {
            AstNodeContent::Declaration(Declaration::FunctionDeclaration(f)) => {
                let td = TyFunctionDecl {
                    name: clone_ident(&f.name),
                    call_path: CallPath {
                        prefixes: Vec::new(),
                        suffix: clone_ident(&f.name),
                        is_absolute: false,
                    },
                    body: CodeBlock { contents: Vec::new(), whole_block_span: Span::dummy() },
                    parameters: convert_params(&f.parameters),
                    return_type: f.return_type,
                    type_parameters: convert_type_params(&f.type_parameters),
                    visibility: f.visibility,
                    purity: f.purity,
                    span: f.span,
                    kind: convert_fn_kind(f.kind),
                };
                proof {
                    assert(fn_ty_decl_wf(td, engines.types().len() as int));
                }
                let decl_id = engines.insert_function(td);
                TyAstNode {
                    content: TyAstNodeContent::Declaration(
                        TyDecl::FunctionDecl { name: clone_ident(&f.name), decl_id },
                    ),
                    span: pm.all_nodes[k].span,
                }
            },
            AstNodeContent::Declaration(Declaration::StorageDeclaration(s)) => {
                let td = TyStorageDecl { fields: convert_storage_fields(&s.fields), span: s.span };
                proof {
                    assert(storage_decl_wf(td, engines.types().len() as int));
                }
                let decl_id = engines.insert_storage(td);
                TyAstNode {
                    content: TyAstNodeContent::Declaration(
                        TyDecl::StorageDecl { decl_id, decl_span: s.span },
                    ),
                    span: pm.all_nodes[k].span,
                }
            },
            AstNodeContent::Declaration(Declaration::VariableDeclaration(_)) => TyAstNode {
                content: TyAstNodeContent::SideEffect,
                span: pm.all_nodes[k].span,
            },
            AstNodeContent::Expression(_) => TyAstNode {
                content: TyAstNodeContent::SideEffect,
                span: pm.all_nodes[k].span,
            },
        };
        nodes.push(node);
        proof {
            assert forall|j: int| 0 <= j < k implies node_corresponds(
                pm.all_nodes@[j],
                #[trigger] nodes@[j],
                engines.functions(),
                engines.storages(),
            ) by {
                assert(nodes@[j] == nodes@.take(k as int)[j]);
                lemma_corresponds_grow(
                    pm.all_nodes@[j],
                    nodes@[j],
                    fns_before,
                    engines.functions(),
                    stos_before,
                    engines.storages(),
                );
            }
        }
        k = k + 1;
    }
    TyModule { span: pm.span, all_nodes: nodes, submodules: subs }
}

pub proof fn lemma_parse_submodules_wf_index(
    subs: Seq<ParseSubmodule>,
    ntypes: int,
    i: int,
    k: int,
)
    requires
        parse_submodules_wf(subs, ntypes, i),
        0 <= i <= k < subs.len(),
    ensures
        parse_module_wf(subs[k].module, ntypes),
    decreases k - i,
{
    if i < k {
        lemma_parse_submodules_wf_index(subs, ntypes, i + 1, k);
    }
}

} // verus!
