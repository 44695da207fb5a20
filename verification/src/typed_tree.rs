use vstd::prelude::*;
use crate::declaration::{StorageSlot, TyFunctionDecl, TyFunctionDeclKind};
use crate::engines::Engines;
use crate::language::Ident;
use crate::span::Span;
use crate::type_system::{DeclId, TypeId};

verus! {

broadcast use vstd::std_specs::vec::group_vec_axioms;

/// A typed top-level declaration: a handle into the declaration engine.
#[derive(Clone, Debug)]
pub enum TyDecl {
    FunctionDecl { name: Ident, decl_id: DeclId },
    StructDecl { decl_id: DeclId },
    StorageDecl { decl_id: DeclId, decl_span: Span },
}

/// A typed top-level node.
#[derive(Clone, Debug)]
pub struct TyAstNode {
    pub content: TyAstNodeContent,
    pub span: Span,
}

#[derive(Clone, Debug)]
pub enum TyAstNodeContent {
    Declaration(TyDecl),
    SideEffect,
}

#[derive(Debug)]
pub struct TySubmodule {
    pub name: Ident,
    pub module: TyModule,
}

/// A typed module: its top-level nodes in declaration order, and its
/// typed submodules.
#[derive(Debug)]
pub struct TyModule {
    pub span: Span,
    pub all_nodes: Vec<TyAstNode>,
    pub submodules: Vec<TySubmodule>,
}

#[derive(Clone, Copy, Debug, PartialEq, Eq, Structural)]
pub enum TyProgramKind {
    Contract,
    Library,
    Predicate,
    Script,
}

/// The fully typed program: built once, extended in place by the entry
/// synthesizer, then analyzed, finalized, and given its storage layout.
#[derive(Debug)]
pub struct TyProgram {
    pub kind: TyProgramKind,
    pub root: TyModule,
    pub declarations: Vec<TyDecl>,
    pub configurables: Vec<Ident>,
    pub storage_slots: Vec<StorageSlot>,
    pub logged_types: Vec<TypeId>,
    pub messages_types: Vec<TypeId>,
}

/// The declaration handle a contract-dispatch entry must call exists and
/// names a contract method.
pub open spec fn spec_is_contract_fn(node: TyAstNode, fns: Seq<TyFunctionDecl>) -> bool {
    match node.content {
        TyAstNodeContent::Declaration(TyDecl::FunctionDecl { decl_id, .. }) => decl_id < fns.len()
            && fns[decl_id as int].kind == TyFunctionDeclKind::ContractMethod,
        _ => false,
    }
}

pub open spec fn spec_node_decl_id(node: TyAstNode) -> DeclId {
    match node.content {
        TyAstNodeContent::Declaration(TyDecl::FunctionDecl { decl_id, .. }) => decl_id,
        _ => 0,
    }
}

/// The contract methods declared by the nodes of one module, in
/// declaration order, from position `i`.
pub open spec fn spec_nodes_contract_fns(ns: Seq<TyAstNode>, fns: Seq<TyFunctionDecl>, i: int) -> Seq<
    DeclId,
>
    decreases ns.len() - i,
{
    if i < 0 || i >= ns.len() {
        Seq::empty()
    } else {
        let rest = spec_nodes_contract_fns(ns, fns, i + 1);
        if spec_is_contract_fn(ns[i], fns) {
            seq![spec_node_decl_id(ns[i])] + rest
        } else {
            rest
        }
    }
}

/// The contract methods of a module tree: all submodules recursively,
/// in order, then the module's own nodes. This is the order the
/// dispatcher's branches take; with duplicate method names the first
/// collected declaration wins.
pub open spec fn spec_module_contract_fns(m: TyModule, fns: Seq<TyFunctionDecl>) -> Seq<DeclId>
    decreases m, 1int,
{
    spec_submodules_contract_fns(m.submodules@, fns, 0) + spec_nodes_contract_fns(
        m.all_nodes@,
        fns,
        0,
    )
}

pub open spec fn spec_submodules_contract_fns(
    subs: Seq<TySubmodule>,
    fns: Seq<TyFunctionDecl>,
    i: int,
) -> Seq<DeclId>
    decreases subs, 0int, subs.len() - i,
{
    if i < 0 || i >= subs.len() {
        Seq::empty()
    } else {
        spec_module_contract_fns(subs[i].module, fns) + spec_submodules_contract_fns(
            subs,
            fns,
            i + 1,
        )
    }
}

fn nodes_contract_fns(
    ns: &Vec<TyAstNode>,
    engines: &Engines,
    i: usize,
    out: &mut Vec<DeclId>,
)
    requires
        i <= ns@.len(),
    ensures
        final(out)@ == old(out)@ + spec_nodes_contract_fns(ns@, engines.functions(), i as int),
    decreases ns@.len() - i,
{
    if i >= ns.len() {
        proof {
            assert(out@ =~= out@ + Seq::<DeclId>::empty());
        }
        return ;
    }
    match &ns[i].content {
        TyAstNodeContent::Declaration(TyDecl::FunctionDecl { decl_id, .. }) => {
            let id: DeclId = *decl_id;
            let is_method = if id < engines.de.functions.len() {
                matches!(engines.get_function(id).kind, TyFunctionDeclKind::ContractMethod)
            } else {
                false
            };
            if is_method {
                out.push(id);
            }
        },
        _ => {},
    }
    nodes_contract_fns(ns, engines, i + 1, out);
    proof {
        if spec_is_contract_fn(ns@[i as int], engines.functions()) {
            assert(old(out)@.push(spec_node_decl_id(ns@[i as int])) + spec_nodes_contract_fns(
                ns@,
                engines.functions(),
                i as int + 1,
            ) =~= old(out)@ + spec_nodes_contract_fns(ns@, engines.functions(), i as int));
        } else {
            assert(old(out)@ + spec_nodes_contract_fns(ns@, engines.functions(), i as int + 1)
                =~= old(out)@ + spec_nodes_contract_fns(ns@, engines.functions(), i as int));
        }
    }
}

fn submodules_contract_fns(
    subs: &Vec<TySubmodule>,
    engines: &Engines,
    i: usize,
    out: &mut Vec<DeclId>,
)
    requires
        i <= subs@.len(),
    ensures
        final(out)@ == old(out)@ + spec_submodules_contract_fns(subs@, engines.functions(), i as int),
    decreases subs, 0int, subs@.len() - i,
{
    if i >= subs.len() {
        proof {
            assert(out@ =~= out@ + Seq::<DeclId>::empty());
        }
        return ;
    }
    module_contract_fns_into(&subs[i].module, engines, out);
    submodules_contract_fns(subs, engines, i + 1, out);
    proof {
        assert(old(out)@ + spec_module_contract_fns(subs@[i as int].module, engines.functions())
            + spec_submodules_contract_fns(subs@, engines.functions(), i as int + 1) =~= old(out)@
            + spec_submodules_contract_fns(subs@, engines.functions(), i as int));
    }
}

fn module_contract_fns_into(m: &TyModule, engines: &Engines, out: &mut Vec<DeclId>)
    ensures
        final(out)@ == old(out)@ + spec_module_contract_fns(*m, engines.functions()),
    decreases *m, 1int,
{
    submodules_contract_fns(&m.submodules, engines, 0, out);
    nodes_contract_fns(&m.all_nodes, engines, 0, out);
    proof {
        assert(old(out)@ + spec_submodules_contract_fns(m.submodules@, engines.functions(), 0)
            + spec_nodes_contract_fns(m.all_nodes@, engines.functions(), 0) =~= old(out)@
            + spec_module_contract_fns(*m, engines.functions()));
    }
}

proof fn lemma_nodes_contract_fns_valid(ns: Seq<TyAstNode>, fns: Seq<TyFunctionDecl>, i: int)
    ensures
        forall|p: int|
            0 <= p < spec_nodes_contract_fns(ns, fns, i).len() ==> (
            #[trigger] spec_nodes_contract_fns(ns, fns, i)[p]) < fns.len() && fns[spec_nodes_contract_fns(
                ns,
                fns,
                i,
            )[p] as int].kind == TyFunctionDeclKind::ContractMethod,
    decreases ns.len() - i,
{
    if 0 <= i < ns.len() {
        lemma_nodes_contract_fns_valid(ns, fns, i + 1);
    }
}

proof fn lemma_submodules_contract_fns_valid(
    subs: Seq<TySubmodule>,
    fns: Seq<TyFunctionDecl>,
    i: int,
)
    ensures
        forall|p: int|
            0 <= p < spec_submodules_contract_fns(subs, fns, i).len() ==> (
            #[trigger] spec_submodules_contract_fns(subs, fns, i)[p]) < fns.len()
                && fns[spec_submodules_contract_fns(subs, fns, i)[p] as int].kind
                == TyFunctionDeclKind::ContractMethod,
    decreases subs, 0int, subs.len() - i,
{
    if 0 <= i < subs.len() {
        lemma_module_contract_fns_valid(subs[i].module, fns);
        lemma_submodules_contract_fns_valid(subs, fns, i + 1);
    }
}

/// Every handle the dispatcher collection returns is a live function
/// handle naming a contract method.
pub proof fn lemma_module_contract_fns_valid(m: TyModule, fns: Seq<TyFunctionDecl>)
    ensures
        forall|p: int|
            0 <= p < spec_module_contract_fns(m, fns).len() ==> (
            #[trigger] spec_module_contract_fns(m, fns)[p]) < fns.len() && fns[spec_module_contract_fns(
                m,
                fns,
            )[p] as int].kind == TyFunctionDeclKind::ContractMethod,
    decreases m, 1int,
{
    lemma_submodules_contract_fns_valid(m.submodules@, fns, 0);
    lemma_nodes_contract_fns_valid(m.all_nodes@, fns, 0);
}

/// Appending a node that is no contract method leaves the collection
/// unchanged.
pub proof fn lemma_nodes_contract_fns_push(
    ns: Seq<TyAstNode>,
    x: TyAstNode,
    fns: Seq<TyFunctionDecl>,
    i: int,
)
    requires
        0 <= i <= ns.len(),
        !spec_is_contract_fn(x, fns),
    ensures
        spec_nodes_contract_fns(ns.push(x), fns, i) == spec_nodes_contract_fns(ns, fns, i),
    decreases ns.len() - i,
{
    if i < ns.len() {
        assert(ns.push(x)[i] == ns[i]);
        lemma_nodes_contract_fns_push(ns, x, fns, i + 1);
    } else {
        assert(ns.push(x)[i] == x);
        assert(spec_nodes_contract_fns(ns.push(x), fns, i + 1) =~= Seq::<DeclId>::empty());
    }
}

proof fn lemma_nodes_contract_fns_fns_push(
    ns: Seq<TyAstNode>,
    fns: Seq<TyFunctionDecl>,
    d: TyFunctionDecl,
    i: int,
)
    requires
        d.kind != TyFunctionDeclKind::ContractMethod,
    ensures
        spec_nodes_contract_fns(ns, fns.push(d), i) == spec_nodes_contract_fns(ns, fns, i),
    decreases ns.len() - i,
{
    if 0 <= i < ns.len() {
        lemma_nodes_contract_fns_fns_push(ns, fns, d, i + 1);
        match ns[i].content {
            TyAstNodeContent::Declaration(TyDecl::FunctionDecl { decl_id, .. }) => {
                if decl_id < fns.len() {
                    assert(fns.push(d)[decl_id as int] == fns[decl_id as int]);
                }
            },
            _ => {},
        }
    }
}

proof fn lemma_submodules_contract_fns_fns_push(
    subs: Seq<TySubmodule>,
    fns: Seq<TyFunctionDecl>,
    d: TyFunctionDecl,
    i: int,
)
    requires
        d.kind != TyFunctionDeclKind::ContractMethod,
    ensures
        spec_submodules_contract_fns(subs, fns.push(d), i) == spec_submodules_contract_fns(
            subs,
            fns,
            i,
        ),
    decreases subs, 0int, subs.len() - i,
{
    if 0 <= i < subs.len() {
        lemma_module_contract_fns_fns_push(subs[i].module, fns, d);
        lemma_submodules_contract_fns_fns_push(subs, fns, d, i + 1);
    }
}

/// Appending a declaration that is no contract method to the function
/// table leaves the collection unchanged.
pub proof fn lemma_module_contract_fns_fns_push(
    m: TyModule,
    fns: Seq<TyFunctionDecl>,
    d: TyFunctionDecl,
)
    requires
        d.kind != TyFunctionDeclKind::ContractMethod,
    ensures
        spec_module_contract_fns(m, fns.push(d)) == spec_module_contract_fns(m, fns),
    decreases m, 1int,
{
    lemma_submodules_contract_fns_fns_push(m.submodules@, fns, d, 0);
    lemma_nodes_contract_fns_fns_push(m.all_nodes@, fns, d, 0);
}

impl TyModule {
    /// Every contract-exposed method declared anywhere in this module
    /// tree, submodules first, each module's nodes in declaration order.
    pub fn contract_fns(&self, engines: &Engines) -> (r: Vec<DeclId>)
        ensures
            r@ == spec_module_contract_fns(*self, engines.functions()),
    {
        let mut out: Vec<DeclId> = Vec::new();
        module_contract_fns_into(self, engines, &mut out);
        out
    }
}

} // verus!
