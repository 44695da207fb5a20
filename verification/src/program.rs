use vstd::prelude::*;
use crate::declaration::{StorageSlot, TyStorageDecl};
use crate::engines::Engines;
use crate::handler::{CompileError, ErrorEmitted, Handler};
use crate::hashing::spec_hash_chars;
use crate::typed_tree::{TyAstNode, TyAstNodeContent, TyDecl, TyProgram, TyProgramKind};
use crate::type_system::{TypeId, TypeInfoView};

verus! {

broadcast use vstd::std_specs::vec::group_vec_axioms;

/// The pre-populated library imports handed to every module of the
/// program; the dispatcher synthesis needs the comparison operators it
/// carries.
#[derive(Clone, Copy, Debug)]
pub struct Namespace {
    pub core_ops_available: bool,
}

/// The build options the core reads: whether the transport-encoding
/// calling convention (and with it entry synthesis) is on.
#[derive(Clone, Copy, Debug)]
pub struct BuildConfig {
    pub new_encoding: bool,
}

/// Pass 1 accepts a node when every declaration handle it carries was
/// produced by the declaration engine.
pub open spec fn spec_node_analyze_ok(n: TyAstNode, nfns: int, nstructs: int, nstos: int) -> bool {
    match n.content {
        TyAstNodeContent::Declaration(TyDecl::FunctionDecl { decl_id, .. }) => decl_id < nfns,
        TyAstNodeContent::Declaration(TyDecl::StructDecl { decl_id }) => decl_id < nstructs,
        TyAstNodeContent::Declaration(TyDecl::StorageDecl { decl_id, .. }) => decl_id < nstos,
        TyAstNodeContent::SideEffect => true,
    }
}

/// The diagnostics pass 1 records for the nodes from position `i` on:
/// one per failing node, in declaration order.
pub open spec fn spec_analyze_errors(
    ns: Seq<TyAstNode>,
    nfns: int,
    nstructs: int,
    nstos: int,
    i: int,
) -> Seq<CompileError>
    decreases ns.len() - i,
{
    if i < 0 || i >= ns.len() {
        Seq::empty()
    } else {
        let rest = spec_analyze_errors(ns, nfns, nstructs, nstos, i + 1);
        if spec_node_analyze_ok(ns[i], nfns, nstructs, nstos) {
            rest
        } else {
            seq![CompileError::TypeUnresolved { span: ns[i].span }] + rest
        }
    }
}

/// A type handle finalization accepts: resolved, and resolved to a
/// concrete descriptor (not unknown, not an unconstrained numeric, not
/// a free generic).
pub open spec fn spec_type_concrete(ts: Seq<TypeInfoView>, tid: TypeId) -> bool {
    tid < ts.len() && match ts[tid as int] {
        TypeInfoView::Unknown => false,
        TypeInfoView::Numeric => false,
        TypeInfoView::UnknownGeneric { .. } => false,
        _ => true,
    }
}

/// Pass 2 accepts a node when the declaration behind it only carries
/// concrete types.
pub open spec fn spec_node_finalize_ok(n: TyAstNode, e: Engines) -> bool {
    match n.content {
        TyAstNodeContent::Declaration(TyDecl::FunctionDecl { decl_id, .. }) => decl_id
            < e.functions().len() && spec_type_concrete(
            e.types(),
            e.functions()[decl_id as int].return_type.type_id,
        ) && forall|j: int|
            0 <= j < e.functions()[decl_id as int].parameters@.len() ==> spec_type_concrete(
                e.types(),
                (#[trigger] e.functions()[decl_id as int].parameters@[j]).type_argument.type_id,
            ),
        TyAstNodeContent::Declaration(TyDecl::StructDecl { decl_id }) => decl_id
            < e.structs().len() && forall|j: int|
            0 <= j < e.structs()[decl_id as int].fields@.len() ==> spec_type_concrete(
                e.types(),
                (#[trigger] e.structs()[decl_id as int].fields@[j]).type_argument.type_id,
            ),
        TyAstNodeContent::Declaration(TyDecl::StorageDecl { decl_id, .. }) => decl_id
            < e.storages().len(),
        TyAstNodeContent::SideEffect => true,
    }
}

pub open spec fn spec_finalize_errors(ns: Seq<TyAstNode>, e: Engines, i: int) -> Seq<CompileError>
    decreases ns.len() - i,
{
    if i < 0 || i >= ns.len() {
        Seq::empty()
    } else {
        let rest = spec_finalize_errors(ns, e, i + 1);
        if spec_node_finalize_ok(ns[i], e) {
            rest
        } else {
            seq![CompileError::TypeUnresolved { span: ns[i].span }] + rest
        }
    }
}

fn node_analyze_ok(n: &TyAstNode, engines: &Engines) -> (r: bool)
    ensures
        r == spec_node_analyze_ok(
            *n,
            engines.functions().len() as int,
            engines.structs().len() as int,
            engines.storages().len() as int,
        ),
{
    match &n.content {
        TyAstNodeContent::Declaration(TyDecl::FunctionDecl { decl_id, .. }) => *decl_id
            < engines.de.functions.len(),
        TyAstNodeContent::Declaration(TyDecl::StructDecl { decl_id }) => *decl_id
            < engines.de.structs.len(),
        TyAstNodeContent::Declaration(TyDecl::StorageDecl { decl_id, .. }) => *decl_id
            < engines.de.storages.len(),
        TyAstNodeContent::SideEffect => true,
    }
}

fn type_concrete(engines: &Engines, tid: TypeId) -> (r: bool)
    ensures
        r == spec_type_concrete(engines.types(), tid),
{
    if tid >= engines.type_count() {
        return false;
    }
    let t = engines.get_type(tid);
    match t {
        crate::type_system::TypeInfo::Unknown => false,
        crate::type_system::TypeInfo::Numeric => false,
        crate::type_system::TypeInfo::UnknownGeneric { .. } => false,
        _ => true,
    }
}

fn fn_params_concrete(engines: &Engines, id: usize) -> (r: bool)
    requires
        id < engines.functions().len(),
    ensures
        r == (forall|j: int|
            0 <= j < engines.functions()[id as int].parameters@.len() ==> spec_type_concrete(
                engines.types(),
                (#[trigger] engines.functions()[id as int].parameters@[j]).type_argument.type_id,
            )),
{
    let np = engines.get_function(id).parameters.len();
    let mut j: usize = 0;
    while j < np
        invariant
            j <= np,
            id < engines.functions().len(),
            np == engines.functions()[id as int].parameters@.len(),
            forall|k: int|
                0 <= k < j ==> spec_type_concrete(
                    engines.types(),
                    (#[trigger] engines.functions()[id as int].parameters@[k]).type_argument.type_id,
                ),
        decreases np - j,
    {
        let ptid = engines.get_function(id).parameters[j].type_argument.type_id;
        if !type_concrete(engines, ptid) {
            proof {
                assert(!spec_type_concrete(
                    engines.types(),
                    (engines.functions()[id as int].parameters@[j as int]).type_argument.type_id,
                ));
            }
            return false;
        }
        j = j + 1;
    }
    true
}

fn struct_fields_concrete(engines: &Engines, id: usize) -> (r: bool)
    requires
        id < engines.structs().len(),
    ensures
        r == (forall|j: int|
            0 <= j < engines.structs()[id as int].fields@.len() ==> spec_type_concrete(
                engines.types(),
                (#[trigger] engines.structs()[id as int].fields@[j]).type_argument.type_id,
            )),
{
    let nf = engines.get_struct(id).fields.len();
    let mut j: usize = 0;
    while j < nf
        invariant
            j <= nf,
            id < engines.structs().len(),
            nf == engines.structs()[id as int].fields@.len(),
            forall|k: int|
                0 <= k < j ==> spec_type_concrete(
                    engines.types(),
                    (#[trigger] engines.structs()[id as int].fields@[k]).type_argument.type_id,
                ),
        decreases nf - j,
    {
        let ftid = engines.get_struct(id).fields[j].type_argument.type_id;
        if !type_concrete(engines, ftid) {
            proof {
                assert(!spec_type_concrete(
                    engines.types(),
                    (engines.structs()[id as int].fields@[j as int]).type_argument.type_id,
                ));
            }
            return false;
        }
        j = j + 1;
    }
    true
}

fn node_finalize_ok(n: &TyAstNode, engines: &Engines) -> (r: bool)
    ensures
        r == spec_node_finalize_ok(*n, *engines),
{
    match &n.content {
        TyAstNodeContent::Declaration(TyDecl::FunctionDecl { decl_id, .. }) => {
            if *decl_id >= engines.de.functions.len() {
                return false;
            }
            let id: usize = *decl_id;
            if !type_concrete(engines, engines.get_function(id).return_type.type_id) {
                return false;
            }
            fn_params_concrete(engines, id)
        },
        TyAstNodeContent::Declaration(TyDecl::StructDecl { decl_id }) => {
            if *decl_id >= engines.de.structs.len() {
                return false;
            }
            let id: usize = *decl_id;
            struct_fields_concrete(engines, id)
        },
        TyAstNodeContent::Declaration(TyDecl::StorageDecl { decl_id, .. }) => *decl_id
            < engines.de.storages.len(),
        TyAstNodeContent::SideEffect => true,
    }
}

impl TyProgram {
    /// Pass 1: a read-only walk over every top-level node in declaration
    /// order. A failing node is recorded and does not stop the traversal
    /// of its siblings; the pass fails overall when any node failed.
    pub fn type_check_analyze(&self, handler: &mut Handler, engines: &Engines) -> (r: Result<
        (),
        ErrorEmitted,
    >)
        ensures
            final(handler).warnings@ == old(handler).warnings@,
            final(handler).errors@ == old(handler).errors@ + spec_analyze_errors(
                self.root.all_nodes@,
                engines.functions().len() as int,
                engines.structs().len() as int,
                engines.storages().len() as int,
                0,
            ),
            r is Ok <==> spec_analyze_errors(
                self.root.all_nodes@,
                engines.functions().len() as int,
                engines.structs().len() as int,
                engines.storages().len() as int,
                0,
            ).len() == 0,
    {
        let ghost nfns = engines.functions().len() as int;
        let ghost nstructs = engines.structs().len() as int;
        let ghost nstos = engines.storages().len() as int;
        let n = self.root.all_nodes.len();
        let mut i: usize = 0;
        let mut failed = false;
        while i < n
            invariant
                i <= n,
                n == self.root.all_nodes@.len(),
                nfns == engines.functions().len() as int,
                nstructs == engines.structs().len() as int,
                nstos == engines.storages().len() as int,
                handler.warnings@ == old(handler).warnings@,
                old(handler).errors@ + spec_analyze_errors(
                    self.root.all_nodes@,
                    nfns,
                    nstructs,
                    nstos,
                    0,
                ) == handler.errors@ + spec_analyze_errors(
                    self.root.all_nodes@,
                    nfns,
                    nstructs,
                    nstos,
                    i as int,
                ),
                failed == (handler.errors@.len() > old(handler).errors@.len()),
                handler.errors@.len() >= old(handler).errors@.len(),
            decreases n - i,
        {
            let ok = node_analyze_ok(&self.root.all_nodes[i], engines);
            if !ok {
                let span = self.root.all_nodes[i].span;
                let _ = handler.emit_err(CompileError::TypeUnresolved { span });
                failed = true;
                proof {
                    assert(seq![CompileError::TypeUnresolved { span }] + spec_analyze_errors(
                        self.root.all_nodes@,
                        nfns,
                        nstructs,
                        nstos,
                        i as int + 1,
                    ) == spec_analyze_errors(self.root.all_nodes@, nfns, nstructs, nstos, i as int));
                    assert(handler.errors@ + spec_analyze_errors(
                        self.root.all_nodes@,
                        nfns,
                        nstructs,
                        nstos,
                        i as int + 1,
                    ) =~= old(handler).errors@ + spec_analyze_errors(
                        self.root.all_nodes@,
                        nfns,
                        nstructs,
                        nstos,
                        0,
                    ));
                }
            }
            i = i + 1;
        }
        proof {
            assert(handler.errors@ =~= old(handler).errors@ + spec_analyze_errors(
                self.root.all_nodes@,
                nfns,
                nstructs,
                nstos,
                0,
            ));
        }
        if failed {
            Err(ErrorEmitted)
        } else {
            Ok(())
        }
    }

    /// Pass 2: every node is given its chance in declaration order; one
    /// node's failure is caught in an isolated scope and does not keep
    /// later nodes from finalizing. The walker favors collecting every
    /// diagnostic over failing fast; the pass still fails overall when
    /// any node failed.
    pub fn type_check_finalize(&mut self, handler: &mut Handler, engines: &Engines) -> (r: Result<
        (),
        ErrorEmitted,
    >)
        ensures
            *final(self) == *old(self),
            final(handler).warnings@ == old(handler).warnings@,
            final(handler).errors@ == old(handler).errors@ + spec_finalize_errors(
                old(self).root.all_nodes@,
                *engines,
                0,
            ),
            r is Ok <==> spec_finalize_errors(old(self).root.all_nodes@, *engines, 0).len() == 0,
    {
        let mut scoped = Handler::new();
        let n = self.root.all_nodes.len();
        let mut i: usize = 0;
        while i < n
            invariant
                i <= n,
                *self == *old(self),
                n == self.root.all_nodes@.len(),
                scoped.warnings@.len() == 0,
                spec_finalize_errors(self.root.all_nodes@, *engines, 0) == scoped.errors@
                    + spec_finalize_errors(self.root.all_nodes@, *engines, i as int),
            decreases n - i,
        {
            let ok = node_finalize_ok(&self.root.all_nodes[i], engines);
            if !ok {
                let span = self.root.all_nodes[i].span;
                let _ = scoped.emit_err(CompileError::TypeUnresolved { span });
                proof {
                    assert(seq![CompileError::TypeUnresolved { span }] + spec_finalize_errors(
                        self.root.all_nodes@,
                        *engines,
                        i as int + 1,
                    ) == spec_finalize_errors(self.root.all_nodes@, *engines, i as int));
                    assert(scoped.errors@ + spec_finalize_errors(
                        self.root.all_nodes@,
                        *engines,
                        i as int + 1,
                    ) =~= spec_finalize_errors(self.root.all_nodes@, *engines, 0));
                }
            }
            i = i + 1;
        }
        proof {
            assert(scoped.errors@ =~= spec_finalize_errors(self.root.all_nodes@, *engines, 0));
        }
        let had_errors = scoped.has_errors();
        handler.append(scoped);
        if had_errors {
            Err(ErrorEmitted)
        } else {
            Ok(())
        }
    }
}

/// The slot the layout gives one storage field: the field's name hashed
/// into the key space, the initializer as the stored word.
pub open spec fn spec_field_slot(f: crate::declaration::TyStorageField) -> StorageSlot {
    StorageSlot { key: spec_hash_chars(f.name.text@, 0, 0), value: f.value }
}

/// Slot order: by key, ties by value.
pub open spec fn slot_le(a: StorageSlot, b: StorageSlot) -> bool {
    a.key < b.key || (a.key == b.key && a.value <= b.value)
}

/// Where `x` goes in the already-sorted prefix: the first position whose
/// slot does not precede `x`.
pub open spec fn spec_insert_pos(s: Seq<StorageSlot>, x: StorageSlot, i: int) -> int
    decreases s.len() - i,
{
    if i < 0 || i >= s.len() {
        s.len() as int
    } else if slot_le(x, s[i]) {
        i
    } else {
        spec_insert_pos(s, x, i + 1)
    }
}

/// Insertion sort at the specification level, folding left to right.
pub open spec fn spec_sort_slots_from(v: Seq<StorageSlot>, i: int, acc: Seq<StorageSlot>) -> Seq<
    StorageSlot,
>
    decreases v.len() - i,
{
    if i < 0 || i >= v.len() {
        acc
    } else {
        spec_sort_slots_from(v, i + 1, acc.insert(spec_insert_pos(acc, v[i], 0), v[i]))
    }
}

/// The deterministic normal form of a slot list: the same input always
/// sorts to the same output, so repeated runs of the initializer give
/// bit-identical, identically ordered lists.
pub open spec fn spec_sort_slots(v: Seq<StorageSlot>) -> Seq<StorageSlot> {
    spec_sort_slots_from(v, 0, Seq::empty())
}

proof fn lemma_insert_pos_bounds(s: Seq<StorageSlot>, x: StorageSlot, i: int)
    requires
        0 <= i <= s.len(),
    ensures
        i <= spec_insert_pos(s, x, i) <= s.len(),
    decreases s.len() - i,
{
    if i < s.len() && !slot_le(x, s[i]) {
        lemma_insert_pos_bounds(s, x, i + 1);
    }
}

/// Slots stand in their order: every earlier slot precedes every later
/// one.
pub open spec fn slots_sorted(s: Seq<StorageSlot>) -> bool {
    forall|i: int, j: int| 0 <= i < j < s.len() ==> slot_le(#[trigger] s[i], #[trigger] s[j])
}

proof fn lemma_insert_pos_front(s: Seq<StorageSlot>, x: StorageSlot, i: int)
    requires
        0 <= i <= s.len(),
    ensures
        forall|j: int| i <= j < spec_insert_pos(s, x, i) ==> !slot_le(x, #[trigger] s[j]),
        spec_insert_pos(s, x, i) < s.len() ==> slot_le(x, s[spec_insert_pos(s, x, i)]),
    decreases s.len() - i,
{
    if i < s.len() && !slot_le(x, s[i]) {
        lemma_insert_pos_front(s, x, i + 1);
    }
}

proof fn lemma_insert_preserves_sorted(s: Seq<StorageSlot>, x: StorageSlot)
    requires
        slots_sorted(s),
    ensures
        slots_sorted(s.insert(spec_insert_pos(s, x, 0), x)),
{
    let p = spec_insert_pos(s, x, 0);
    lemma_insert_pos_bounds(s, x, 0);
    lemma_insert_pos_front(s, x, 0);
    let t = s.insert(p, x);
    assert forall|i: int, j: int| 0 <= i < j < t.len() implies slot_le(
        #[trigger] t[i],
        #[trigger] t[j],
    ) by {
        if i < p {
            assert(t[i] == s[i]);
        }
        if i > p {
            assert(t[i] == s[i - 1]);
        }
        if j < p {
            assert(t[j] == s[j]);
        }
        if j > p {
            assert(t[j] == s[j - 1]);
        }
        if i == p {
            assert(t[i] == x);
        }
        if j == p {
            assert(t[j] == x);
        }
    }
}

proof fn lemma_sort_from_sorted(v: Seq<StorageSlot>, i: int, acc: Seq<StorageSlot>)
    requires
        slots_sorted(acc),
    ensures
        slots_sorted(spec_sort_slots_from(v, i, acc)),
    decreases v.len() - i,
{
    if 0 <= i < v.len() {
        lemma_insert_preserves_sorted(acc, v[i]);
        lemma_sort_from_sorted(v, i + 1, acc.insert(spec_insert_pos(acc, v[i], 0), v[i]));
    }
}

/// The deterministic normal form really is ordered: the initializer's
/// output is sorted by slot key, ties broken by value.
pub proof fn lemma_sort_slots_sorted(v: Seq<StorageSlot>)
    ensures
        slots_sorted(spec_sort_slots(v)),
{
    lemma_sort_from_sorted(v, 0, Seq::empty());
}

proof fn lemma_insert_multiset(s: Seq<StorageSlot>, x: StorageSlot, p: int)
    requires
        0 <= p <= s.len(),
    ensures
        s.insert(p, x).to_multiset() =~= s.to_multiset().insert(x),
{
    broadcast use vstd::seq_lib::group_to_multiset_ensures;

    let t = s.insert(p, x);
    assert(t.remove(p) =~= s);
    assert(t[p] == x);
    assert(t.remove(p).to_multiset() =~= t.to_multiset().remove(x));
    assert(t.to_multiset().contains(x)) by {
        assert(t.contains(x));
    }
    assert(t.to_multiset().remove(x).insert(x) =~= t.to_multiset());
}

proof fn lemma_sort_from_multiset(v: Seq<StorageSlot>, i: int, acc: Seq<StorageSlot>)
    requires
        0 <= i <= v.len(),
    ensures
        spec_sort_slots_from(v, i, acc).to_multiset() =~= acc.to_multiset().add(
            v.subrange(i, v.len() as int).to_multiset(),
        ),
    decreases v.len() - i,
{
    broadcast use vstd::seq_lib::group_to_multiset_ensures;

    if i >= v.len() {
        assert(v.subrange(i, v.len() as int) =~= Seq::<StorageSlot>::empty());
        assert(Seq::<StorageSlot>::empty().to_multiset() =~= vstd::multiset::Multiset::<StorageSlot>::empty());
    } else {
        let p = spec_insert_pos(acc, v[i], 0);
        lemma_insert_pos_bounds(acc, v[i], 0);
        lemma_insert_multiset(acc, v[i], p);
        lemma_sort_from_multiset(v, i + 1, acc.insert(p, v[i]));
        let tail = v.subrange(i + 1, v.len() as int);
        assert(v.subrange(i, v.len() as int) =~= seq![v[i]] + tail);
        vstd::seq_lib::lemma_multiset_commutative(seq![v[i]], tail);
        assert(seq![v[i]] =~= Seq::<StorageSlot>::empty().push(v[i]));
        assert(seq![v[i]].to_multiset() =~= vstd::multiset::Multiset::<StorageSlot>::empty().insert(
            v[i],
        )) by {
            assert(Seq::<StorageSlot>::empty().to_multiset()
                =~= vstd::multiset::Multiset::<StorageSlot>::empty());
            assert(Seq::<StorageSlot>::empty().push(v[i]).to_multiset()
                =~= Seq::<StorageSlot>::empty().to_multiset().insert(v[i]));
        }
    }
}

/// Sorting loses and invents nothing: the normal form is a permutation
/// of the layout it was given.
pub proof fn lemma_sort_slots_permutes(v: Seq<StorageSlot>)
    ensures
        spec_sort_slots(v).to_multiset() =~= v.to_multiset(),
{
    broadcast use vstd::seq_lib::group_to_multiset_ensures;

    lemma_sort_from_multiset(v, 0, Seq::empty());
    assert(v.subrange(0, v.len() as int) =~= v);
    assert(Seq::<StorageSlot>::empty().to_multiset() =~= vstd::multiset::Multiset::<StorageSlot>::empty());
}

fn compute_slots(decl: &TyStorageDecl) -> (r: Vec<StorageSlot>)
    ensures
        r@.len() == decl.fields@.len(),
        forall|i: int| 0 <= i < r@.len() ==> #[trigger] r@[i] == spec_field_slot(decl.fields@[i]),
{
    let n = decl.fields.len();
    let mut out: Vec<StorageSlot> = Vec::new();
    let mut i: usize = 0;
    while i < n
        invariant
            i <= n,
            n == decl.fields@.len(),
            out@.len() == i,
            forall|j: int| 0 <= j < i ==> #[trigger] out@[j] == spec_field_slot(decl.fields@[j]),
        decreases n - i,
    {
        let name = decl.fields[i].name.text.as_str();
        let key = crate::hashing::hash_str(name);
        out.push(StorageSlot { key, value: decl.fields[i].value });
        i = i + 1;
    }
    out
}

fn insert_pos(s: &Vec<StorageSlot>, x: StorageSlot, i: usize) -> (r: usize)
    requires
        i <= s@.len(),
    ensures
        r as int == spec_insert_pos(s@, x, i as int),
        r <= s@.len(),
    decreases s@.len() - i,
{
    if i >= s.len() {
        s.len()
    } else if x.key < s[i].key || (x.key == s[i].key && x.value <= s[i].value) {
        i
    } else {
        insert_pos(s, x, i + 1)
    }
}

/// Sorts the slot list into its deterministic normal form. Sorting is a
/// normalization step only: it standardizes the build output, it is not
/// part of the layout algorithm.
pub fn sort_slots(slots: Vec<StorageSlot>) -> (r: Vec<StorageSlot>)
    ensures
        r@ == spec_sort_slots(slots@),
{
    let n = slots.len();
    let mut out: Vec<StorageSlot> = Vec::new();
    let mut i: usize = 0;
    while i < n
        invariant
            i <= n,
            n == slots@.len(),
            spec_sort_slots(slots@) == spec_sort_slots_from(slots@, i as int, out@),
        decreases n - i,
    {
        let x = slots[i];
        proof {
            lemma_insert_pos_bounds(out@, x, 0);
        }
        let p = insert_pos(&out, x, 0);
        out.insert(p, x);
        i = i + 1;
    }
    out
}

/// First storage declaration among the program's top-level declarations.
pub open spec fn spec_find_storage(decls: Seq<TyDecl>, i: int) -> Option<int>
    decreases decls.len() - i,
{
    if i < 0 || i >= decls.len() {
        None
    } else if decls[i] matches TyDecl::StorageDecl { .. } {
        Some(i)
    } else {
        spec_find_storage(decls, i + 1)
    }
}

/// The slot list the initializer must produce: for a contract with a
/// storage declaration, that declaration's layout in sorted normal form;
/// an empty list otherwise. Computing this twice from the same input
/// gives the same list: the right-hand side is a function of the input.
pub open spec fn spec_initialized_slots(
    kind: TyProgramKind,
    decls: Seq<TyDecl>,
    storages: Seq<TyStorageDecl>,
) -> Seq<StorageSlot> {
    if kind == TyProgramKind::Contract {
        match spec_find_storage(decls, 0) {
            Some(i) => match decls[i] {
                TyDecl::StorageDecl { decl_id, .. } => {
                    if decl_id < storages.len() {
                        let fields = storages[decl_id as int].fields@;
                        spec_sort_slots(Seq::new(fields.len(), |j: int| spec_field_slot(fields[j])))
                    } else {
                        Seq::empty()
                    }
                },
                _ => Seq::empty(),
            },
            None => Seq::empty(),
        }
    } else {
        Seq::empty()
    }
}

proof fn lemma_find_storage_some(decls: Seq<TyDecl>, i: int, j: int)
    requires
        0 <= i,
        spec_find_storage(decls, i) == Some(j),
    ensures
        i <= j < decls.len(),
        decls[j] matches TyDecl::StorageDecl { .. },
    decreases decls.len() - i,
{
    if i < decls.len() && !(decls[i] matches TyDecl::StorageDecl { .. }) {
        lemma_find_storage_some(decls, i + 1, j);
    }
}

fn find_storage_ix(decls: &Vec<TyDecl>, i: usize) -> (r: Option<usize>)
    requires
        i <= decls@.len(),
    ensures
        match r {
            Some(j) => spec_find_storage(decls@, i as int) == Some(j as int) && j < decls@.len(),
            None => spec_find_storage(decls@, i as int) is None,
        },
    decreases decls@.len() - i,
{
    if i >= decls.len() {
        None
    } else {
        match &decls[i] {
            TyDecl::StorageDecl { .. } => Some(i),
            _ => find_storage_ix(decls, i + 1),
        }
    }
}

impl TyProgram {
    /// The post-finalization storage pass: applies only to contracts;
    /// with no storage declaration the slot list is empty, with one the
    /// layout is computed and sorted into its deterministic normal form.
    pub fn get_typed_program_with_initialized_storage_slots(
        self,
        handler: &mut Handler,
        engines: &Engines,
    ) -> (r: Result<TyProgram, ErrorEmitted>)
        ensures
            *final(handler) == *old(handler),
            match r {
                Ok(p) => {
                    &&& p.kind == self.kind
                    &&& p.root == self.root
                    &&& p.declarations == self.declarations
                    &&& p.configurables == self.configurables
                    &&& p.logged_types == self.logged_types
                    &&& p.messages_types == self.messages_types
                    &&& p.storage_slots@ == spec_initialized_slots(
                        self.kind,
                        self.declarations@,
                        engines.storages(),
                    )
                },
                Err(_) => false,
            },
    {
        let is_contract = matches!(self.kind, TyProgramKind::Contract);
        if !is_contract {
            let mut p = self;
            p.storage_slots = Vec::new();
            return Ok(p);
        }
        let found = find_storage_ix(&self.declarations, 0);
        match found {
            Some(ix) => {
                proof {
                    lemma_find_storage_some(self.declarations@, 0, ix as int);
                }
                let decl_id: usize = match &self.declarations[ix] {
                    TyDecl::StorageDecl { decl_id, .. } => *decl_id,
                    _ => 0,
                };
                if decl_id < engines.de.storages.len() {
                    let storage = engines.get_storage(decl_id);
                    let raw = compute_slots(storage);
                    proof {
                        let fields = engines.storages()[decl_id as int].fields@;
                        assert(raw@ =~= Seq::new(
                            fields.len(),
                            |j: int| spec_field_slot(fields[j]),
                        ));
                    }
                    let sorted = sort_slots(raw);
                    let mut p = self;
                    p.storage_slots = sorted;
                    Ok(p)
                } else {
                    let mut p = self;
                    p.storage_slots = Vec::new();
                    Ok(p)
                }
            },
            None => {
                let mut p = self;
                p.storage_slots = Vec::new();
                Ok(p)
            },
        }
    }
}

/// The typed program kind of a parse-tree kind.
pub open spec fn spec_kind_of(t: crate::parse_tree::TreeType) -> TyProgramKind {
    match t {
        crate::parse_tree::TreeType::Predicate => TyProgramKind::Predicate,
        crate::parse_tree::TreeType::Script => TyProgramKind::Script,
        crate::parse_tree::TreeType::Contract => TyProgramKind::Contract,
        crate::parse_tree::TreeType::Library => TyProgramKind::Library,
    }
}

/// Whether this build synthesizes an entry function for this kind.
pub open spec fn spec_synthesizes(
    t: crate::parse_tree::TreeType,
    cfg: Option<&BuildConfig>,
) -> bool {
    (match cfg {
        Some(c) => c.new_encoding,
        None => false,
    }) && (t == crate::parse_tree::TreeType::Script || t == crate::parse_tree::TreeType::Contract)
}

/// First parsed function declaration with the given name.
pub open spec fn spec_find_fn_decl(
    ns: Seq<crate::parse_tree::AstNode>,
    name: Seq<char>,
    i: int,
) -> Option<int>
    decreases ns.len() - i,
{
    if i < 0 || i >= ns.len() {
        None
    } else if ns[i].content matches crate::parse_tree::AstNodeContent::Declaration(
        crate::parse_tree::Declaration::FunctionDeclaration(f),
    ) && f.name.text@ == name {
        Some(i)
    } else {
        spec_find_fn_decl(ns, name, i + 1)
    }
}

proof fn lemma_find_fn_decl_some(
    ns: Seq<crate::parse_tree::AstNode>,
    name: Seq<char>,
    i: int,
    k: int,
)
    requires
        0 <= i,
        spec_find_fn_decl(ns, name, i) == Some(k),
    ensures
        i <= k < ns.len(),
        ns[k].content matches crate::parse_tree::AstNodeContent::Declaration(
            crate::parse_tree::Declaration::FunctionDeclaration(f),
        ) && f.name.text@ == name,
    decreases ns.len() - i,
{
    if i < ns.len() && !(ns[i].content matches crate::parse_tree::AstNodeContent::Declaration(
        crate::parse_tree::Declaration::FunctionDeclaration(f),
    ) && f.name.text@ == name) {
        lemma_find_fn_decl_some(ns, name, i + 1, k);
    }
}

/// A typed node declares a live function of the given name.
pub open spec fn spec_typed_fn_match(
    n: TyAstNode,
    name: Seq<char>,
    fns: Seq<crate::declaration::TyFunctionDecl>,
) -> bool {
    n.content matches TyAstNodeContent::Declaration(TyDecl::FunctionDecl { name: nm, decl_id })
        && nm.text@ == name && decl_id < fns.len()
}

pub open spec fn spec_find_typed_fn(
    ns: Seq<TyAstNode>,
    name: Seq<char>,
    fns: Seq<crate::declaration::TyFunctionDecl>,
    i: int,
) -> Option<int>
    decreases ns.len() - i,
{
    if i < 0 || i >= ns.len() {
        None
    } else if spec_typed_fn_match(ns[i], name, fns) {
        Some(i)
    } else {
        spec_find_typed_fn(ns, name, fns, i + 1)
    }
}

proof fn lemma_find_typed_fn_none(
    ns: Seq<TyAstNode>,
    name: Seq<char>,
    fns: Seq<crate::declaration::TyFunctionDecl>,
    i: int,
)
    requires
        0 <= i,
        spec_find_typed_fn(ns, name, fns, i) is None,
    ensures
        forall|k: int| i <= k < ns.len() ==> !spec_typed_fn_match(#[trigger] ns[k], name, fns),
    decreases ns.len() - i,
{
    if i < ns.len() {
        lemma_find_typed_fn_none(ns, name, fns, i + 1);
    }
}

fn find_typed_fn(ns: &Vec<TyAstNode>, name: &str, engines: &Engines, i: usize) -> (r: Option<
    usize,
>)
    requires
        i <= ns@.len(),
    ensures
        match r {
            Some(k) => k < ns@.len() && spec_typed_fn_match(ns@[k as int], name@, engines.functions())
                && spec_find_typed_fn(ns@, name@, engines.functions(), i as int) == Some(k as int),
            None => spec_find_typed_fn(ns@, name@, engines.functions(), i as int) is None,
        },
    decreases ns@.len() - i,
{
    if i >= ns.len() {
        None
    } else {
        let hit = match &ns[i].content {
            TyAstNodeContent::Declaration(TyDecl::FunctionDecl { name: nm, decl_id }) => {
                if *decl_id < engines.de.functions.len() {
                    crate::language::str_eq(nm.text.as_str(), name)
                } else {
                    false
                }
            },
            _ => false,
        };
        if hit {
            Some(i)
        } else {
            find_typed_fn(ns, name, engines, i + 1)
        }
    }
}

/// The top-level declarations of the typed root, in order.
pub open spec fn spec_collect_decls(ns: Seq<TyAstNode>, i: int) -> Seq<TyDecl>
    decreases ns.len() - i,
{
    if i < 0 || i >= ns.len() {
        Seq::empty()
    } else {
        let rest = spec_collect_decls(ns, i + 1);
        match ns[i].content {
            TyAstNodeContent::Declaration(d) => seq![d] + rest,
            TyAstNodeContent::SideEffect => rest,
        }
    }
}

fn collect_decls(ns: &Vec<TyAstNode>, i: usize, out: &mut Vec<TyDecl>)
    requires
        i <= ns@.len(),
    ensures
        final(out)@ == old(out)@ + spec_collect_decls(ns@, i as int),
    decreases ns@.len() - i,
{
    if i >= ns.len() {
        proof {
            assert(out@ =~= out@ + Seq::<TyDecl>::empty());
        }
        return ;
    }
    match &ns[i].content {
        TyAstNodeContent::Declaration(d) => {
            let copy: TyDecl = match d {
                TyDecl::FunctionDecl { name, decl_id } => TyDecl::FunctionDecl {
                    name: crate::language::Ident { text: name.text.clone(), span: name.span },
                    decl_id: *decl_id,
                },
                TyDecl::StructDecl { decl_id } => TyDecl::StructDecl { decl_id: *decl_id },
                TyDecl::StorageDecl { decl_id, decl_span } => TyDecl::StorageDecl {
                    decl_id: *decl_id,
                    decl_span: *decl_span,
                },
            };
            proof {
                assert(copy == ns@[i as int].content->Declaration_0);
            }
            out.push(copy);
        },
        TyAstNodeContent::SideEffect => {},
    }
    collect_decls(ns, i + 1, out);
    proof {
        match ns@[i as int].content {
            TyAstNodeContent::Declaration(d) => {
                assert(old(out)@.push(d) + spec_collect_decls(ns@, i as int + 1) =~= old(out)@
                    + spec_collect_decls(ns@, i as int));
            },
            TyAstNodeContent::SideEffect => {
                assert(old(out)@ + spec_collect_decls(ns@, i as int + 1) =~= old(out)@
                    + spec_collect_decls(ns@, i as int));
            },
        }
    }
}

impl TyProgram {
    /// Type-checks the parsed program into a typed program: orders the
    /// submodules, checks every module, and — under the transport-encoding
    /// convention — synthesizes the program entry that decodes arguments,
    /// invokes the user code and encodes the result, dispatching on the
    /// decoded method name for contracts. A dependency cycle or an
    /// internal synthesis failure is fatal; no other error is emitted
    /// here.
    pub fn type_check(
        handler: &mut Handler,
        engines: &mut Engines,
        parsed: &crate::parse_tree::ParseProgram,
        initial_namespace: Namespace,
        package_name: &str,
        build_config: Option<&BuildConfig>,
    ) -> (r: Result<TyProgram, ErrorEmitted>)
        requires
            old(engines).wf(),
            crate::module_check::parse_module_wf(parsed.root, old(engines).types().len() as int),
            spec_synthesizes(parsed.kind, build_config) && parsed.kind
                == crate::parse_tree::TreeType::Script ==> spec_find_fn_decl(
                parsed.root.all_nodes@,
                "main"@,
                0,
            ) is Some,
            spec_synthesizes(parsed.kind, build_config) && parsed.kind
                == crate::parse_tree::TreeType::Contract ==> initial_namespace.core_ops_available,
        ensures
            final(engines).wf(),
            r is Err <==> crate::dep_order::spec_graph_stuck(parsed.root.submodules@),
            match r {
                Ok(p) => {
                    &&& *final(handler) == *old(handler)
                    &&& p.kind == spec_kind_of(parsed.kind)
                    &&& p.storage_slots@.len() == 0
                    &&& p.logged_types@.len() == 0
                    &&& p.messages_types@.len() == 0
                    &&& p.configurables@.len() == 0
                    &&& p.declarations@ == spec_collect_decls(p.root.all_nodes@, 0)
                    &&& p.root.submodules@.len() == parsed.root.submodules@.len()
                    &&& p.root.all_nodes@.len() == parsed.root.all_nodes@.len() + (
                    if spec_synthesizes(parsed.kind, build_config) {
                        1int
                    } else {
                        0int
                    })
                    &&& forall|k: int|
                        0 <= k < parsed.root.all_nodes@.len()
                            ==> crate::module_check::node_corresponds(
                            parsed.root.all_nodes@[k],
                            #[trigger] p.root.all_nodes@[k],
                            final(engines).functions(),
                            final(engines).storages(),
                        )
                    &&& spec_synthesizes(parsed.kind, build_config) && parsed.kind
                        == crate::parse_tree::TreeType::Script ==> (
                    p.root.all_nodes@.last().content matches TyAstNodeContent::Declaration(
                        TyDecl::FunctionDecl { decl_id, .. },
                    ) && exists|k: int|
                        0 <= k < parsed.root.all_nodes@.len() && (
                        #[trigger] parsed.root.all_nodes@[k].content matches
                        crate::parse_tree::AstNodeContent::Declaration(
                            crate::parse_tree::Declaration::FunctionDeclaration(f),
                        ) && f.name.text@ == "main"@ && crate::entry_synth::spec_script_entry_body(
                            final(engines).functions()[decl_id as int].body.contents@,
                            Seq::new(
                                f.parameters@.len(),
                                |i: int| f.parameters@[i].type_argument.type_id,
                            ),
                            final(engines).types(),
                        )))
                    &&& spec_synthesizes(parsed.kind, build_config) && parsed.kind
                        == crate::parse_tree::TreeType::Contract ==> (
                    p.root.all_nodes@.last().content matches TyAstNodeContent::Declaration(
                        TyDecl::FunctionDecl { decl_id, .. },
                    ) && crate::entry_synth::spec_contract_dispatch_body(
                        final(engines).functions()[decl_id as int].body.contents@,
                        crate::typed_tree::spec_module_contract_fns(
                            p.root,
                            final(engines).functions(),
                        ),
                        final(engines).functions(),
                        final(engines).types(),
                    ))
                    &&& spec_synthesizes(parsed.kind, build_config) ==> {
                        let last = p.root.all_nodes@.last();
                        &&& last.span.is_dummy
                        &&& last.content matches TyAstNodeContent::Declaration(
                            TyDecl::FunctionDecl { name, decl_id },
                        ) && name.text@ == "__entry"@ && decl_id < final(engines).functions().len()
                            && final(engines).functions()[decl_id as int].kind
                            == crate::declaration::TyFunctionDeclKind::Entry && final(engines).functions()[decl_id as int].parameters@.len() == 0 && final(engines).functions()[decl_id as int].purity == (
                        if parsed.kind == crate::parse_tree::TreeType::Script {
                            crate::language::Purity::Pure
                        } else {
                            crate::language::Purity::ReadsWrites
                        }) && final(engines).types()[final(engines).functions()[decl_id as int].return_type.type_id as int]
                            == crate::type_system::TypeInfoView::Tuple(Seq::<
                            crate::type_system::TypeId,
                        >::empty())
                    }
                },
                Err(_) => {
                    &&& crate::dep_order::spec_graph_stuck(parsed.root.submodules@)
                    &&& final(handler).warnings@ == old(handler).warnings@
                    &&& exists|e: CompileError|
                        final(handler).errors@ == old(handler).errors@.push(e) && (e matches
                        CompileError::DependencyCycle { .. })
                },
            },
    {
        let ghost ts0 = engines.types();
        // Computing the evaluation order enforces acyclicity of the module
        // graph; the checking below then walks the tree in declaration
        // order, which the computed order refines.
        let _module_eval_order = match crate::dep_order::compute_order(
            handler,
            &parsed.root.submodules,
        ) {
            Ok(o) => o,
            Err(e) => {
                return Err(e);
            },
        };
        let mut root = crate::module_check::check_module(engines, &parsed.root);
        let ghost fns1 = engines.functions();
        let ghost stos1 = engines.storages();
        let new_encoding = match build_config {
            Some(c) => c.new_encoding,
            None => false,
        };
        if new_encoding {
            let empty_members: Vec<crate::type_system::TypeId> = Vec::new();
            proof {
                assert(empty_members@ =~= Seq::<crate::type_system::TypeId>::empty());
            }
            let unit_type_id = engines.insert_type(
                crate::type_system::TypeInfo::Tuple(empty_members),
            );
            proof {
                assert(engines.types()[unit_type_id as int] == TypeInfoView::Tuple(Seq::<
                    crate::type_system::TypeId,
                >::empty()));
            }
            match parsed.kind {
                crate::parse_tree::TreeType::Predicate => {},
                crate::parse_tree::TreeType::Library => {},
                crate::parse_tree::TreeType::Script => {
                    proof {
                        let k0 = spec_find_fn_decl(parsed.root.all_nodes@, "main"@, 0).unwrap();
                        lemma_find_fn_decl_some(parsed.root.all_nodes@, "main"@, 0, k0);
                        assert(crate::module_check::node_corresponds(
                            parsed.root.all_nodes@[k0],
                            root.all_nodes@[k0],
                            engines.functions(),
                            engines.storages(),
                        ));
                        assert(spec_typed_fn_match(
                            root.all_nodes@[k0],
                            "main"@,
                            engines.functions(),
                        ));
                    }
                    let found = find_typed_fn(&root.all_nodes, "main", engines, 0);
                    let ghost mut g_kf: int = 0;
                    let main_id: usize = match found {
                        Some(k) => {
                            proof {
                                g_kf = k as int;
                            }
                            match &root.all_nodes[k].content {
                                TyAstNodeContent::Declaration(
                                    TyDecl::FunctionDecl { decl_id, .. },
                                ) => *decl_id,
                                _ => 0,
                            }
                        },
                        None => {
                            proof {
                                let k0 = spec_find_fn_decl(
                                    parsed.root.all_nodes@,
                                    "main"@,
                                    0,
                                ).unwrap();
                                lemma_find_typed_fn_none(
                                    root.all_nodes@,
                                    "main"@,
                                    engines.functions(),
                                    0,
                                );
                                assert(false);
                            }
                            0
                        },
                    };
                    let args_opt = crate::entry_synth::script_arguments_type(engines, main_id);
                    let mut contents: Vec<crate::parse_tree::AstNode> = Vec::new();
                    let arguments: Vec<crate::parse_tree::Expression> = match args_opt {
                        Some(ta) => {
                            let decode = crate::entry_synth::call_decode_script_data(engines, ta);
                            let ghost g_decode = decode;
                            let args_node = crate::parse_tree::AstNode {
                                content: crate::parse_tree::AstNodeContent::Declaration(
                                    crate::parse_tree::Declaration::VariableDeclaration(
                                        Box::new(
                                            crate::parse_tree::VariableDeclaration {
                                                name: crate::language::Ident::new_no_span(
                                                    String::from_str("args"),
                                                ),
                                                type_ascription: ta,
                                                body: decode,
                                                is_mutable: false,
                                            },
                                        ),
                                    ),
                                ),
                                span: crate::span::Span::dummy(),
                            };
                            proof {
                                let n = engines.types().len() as int;
                                assert(crate::parse_tree::type_args_wf(
                                    crate::entry_synth::call_type_args(g_decode),
                                    n,
                                )) by {
                                    assert(crate::entry_synth::call_type_args(g_decode)
                                        =~= seq![ta]);
                                }
                                match g_decode.kind {
                                    crate::parse_tree::ExpressionKind::FunctionApplication(
                                        app,
                                    ) => {
                                        assert(crate::parse_tree::exprs_wf(app.arguments@, n, 0));
                                        crate::parse_tree::lemma_fn_app_wf(g_decode, n);
                                    },
                                    _ => {},
                                }
                                crate::parse_tree::lemma_var_decl_node_wf(args_node, n);
                                crate::parse_tree::lemma_nodes_wf_push(
                                    contents@,
                                    args_node,
                                    n,
                                    0,
                                );
                            }
                            contents.push(args_node);
                            proof {
                                assert(crate::entry_synth::is_args_decl_node(
                                    contents@[0],
                                    "decode_script_data"@,
                                ));
                                assert(crate::entry_synth::args_decl_type_id(contents@[0])
                                    == ta.type_id);
                            }
                            crate::entry_synth::arguments_as_expressions(
                                crate::language::Ident::new_no_span(String::from_str("args")),
                                engines.get_function(main_id),
                            )
                        },
                        None => Vec::new(),
                    };
                    let ghost n1 = engines.types().len() as int;
                    proof {
                        assert(crate::parse_tree::nodes_wf(contents@, n1, 0));
                    }
                    let ghost g_arguments = arguments@;
                    let main_call = crate::entry_synth::call_function_with_suffix(
                        String::from_str("main"),
                        arguments,
                    );
                    let ghost g_main = main_call;
                    let slice_tid = engines.insert_type(
                        crate::type_system::TypeInfo::RawUntypedSlice,
                    );
                    let encoded = crate::entry_synth::call_encode(engines, main_call);
                    let ghost g_encoded = encoded;
                    let ghost n2 = engines.types().len() as int;
                    let result_node = crate::parse_tree::AstNode {
                        content: crate::parse_tree::AstNodeContent::Declaration(
                            crate::parse_tree::Declaration::VariableDeclaration(
                                Box::new(
                                    crate::parse_tree::VariableDeclaration {
                                        name: crate::language::Ident::new_no_span(
                                            String::from_str("result"),
                                        ),
                                        type_ascription: crate::type_system::TypeArgument {
                                            type_id: slice_tid,
                                            initial_type_id: slice_tid,
                                            span: crate::span::Span::dummy(),
                                        },
                                        body: encoded,
                                        is_mutable: false,
                                    },
                                ),
                            ),
                        ),
                        span: crate::span::Span::dummy(),
                    };
                    proof {
                        assert(crate::parse_tree::expr_wf(g_main, n2)) by {
                            crate::parse_tree::lemma_exprs_wf_pointwise(g_arguments, n2, 0);
                            crate::parse_tree::lemma_fn_app_wf(g_main, n2);
                        }
                        assert(crate::parse_tree::expr_wf(g_encoded, n2)) by {
                            assert(crate::entry_synth::call_args(g_encoded) =~= seq![g_main]);
                            crate::parse_tree::lemma_exprs_wf_pointwise(
                                crate::entry_synth::call_args(g_encoded),
                                n2,
                                0,
                            );
                            match g_encoded.kind {
                                crate::parse_tree::ExpressionKind::FunctionApplication(app) => {
                                    assert(crate::parse_tree::type_args_wf(
                                        app.call_path_binding.type_arguments@,
                                        n2,
                                    ));
                                },
                                _ => {},
                            }
                            crate::parse_tree::lemma_fn_app_wf(g_encoded, n2);
                        }
                        crate::parse_tree::lemma_var_decl_node_wf(result_node, n2);
                        crate::parse_tree::lemma_nodes_wf_mono(contents@, n1, n2, 0);
                        crate::parse_tree::lemma_nodes_wf_push(contents@, result_node, n2, 0);
                    }
                    contents.push(result_node);
                    let ret_node = crate::entry_synth::contract_ret_node(engines, "result");
                    proof {
                        crate::parse_tree::lemma_nodes_wf_push(contents@, ret_node, n2, 0);
                    }
                    contents.push(ret_node);
                    let ghost g_param_tids = Seq::new(
                        engines.functions()[main_id as int].parameters@.len(),
                        |i: int| engines.functions()[main_id as int].parameters@[i].type_argument.type_id,
                    );
                    proof {
                        assert(crate::parse_tree::nodes_wf(
                            contents@,
                            engines.types().len() as int,
                            0,
                        ));
                        let ts_now = engines.types();
                        let nargs = g_param_tids.len() as int;
                        if nargs > 0 {
                            assert(crate::entry_synth::is_args_decl_node(
                                contents@[0],
                                "decode_script_data"@,
                            ));
                            let tup = crate::entry_synth::args_decl_type_id(contents@[0]);
                            assert(ts_now[tup as int] matches TypeInfoView::Tuple(ms) && ms
                                == g_param_tids) by {
                                match ts_now[tup as int] {
                                    TypeInfoView::Tuple(ms) => {
                                        assert(ms =~= g_param_tids);
                                    },
                                    _ => {},
                                }
                            }
                        }
                        assert(contents@[contents@.len() - 2] == result_node);
                        assert(crate::entry_synth::is_result_encode_node(
                            contents@[contents@.len() - 2],
                            "main"@,
                            nargs,
                            ts_now,
                        )) by {
                            assert(crate::entry_synth::call_args(g_encoded)[0] == g_main);
                            assert(crate::entry_synth::call_args(g_main) == g_arguments);
                        }
                        assert(crate::entry_synth::is_contract_ret_node(
                            contents@[contents@.len() - 1],
                            "result"@,
                        ));
                        assert(crate::entry_synth::spec_script_entry_body(
                            contents@,
                            g_param_tids,
                            ts_now,
                        ));
                    }
                    let ghost g_contents = contents@;
                    match crate::entry_synth::gen_entry_fn(
                        handler,
                        engines,
                        &mut root,
                        crate::language::Purity::Pure,
                        contents,
                        unit_type_id,
                    ) {
                        Ok(_) => {
                            proof {
                                assert(engines.types()[unit_type_id as int]
                                    == TypeInfoView::Tuple(Seq::<
                                    crate::type_system::TypeId,
                                >::empty()));
                                assert(engines.functions().last().body.contents@ == g_contents);
                                assert(crate::entry_synth::spec_script_entry_body(
                                    g_contents,
                                    g_param_tids,
                                    engines.types(),
                                ));
                                let parse_n = parsed.root.all_nodes@[g_kf];
                                let typed_n = root.all_nodes@[g_kf];
                                assert(crate::module_check::node_corresponds(
                                    parse_n,
                                    typed_n,
                                    fns1,
                                    stos1,
                                ));
                                crate::module_check::lemma_corresponds_grow(
                                    parse_n,
                                    typed_n,
                                    fns1,
                                    engines.functions(),
                                    stos1,
                                    engines.storages(),
                                );
                                match parse_n.content {
                                    crate::parse_tree::AstNodeContent::Declaration(
                                        crate::parse_tree::Declaration::FunctionDeclaration(f),
                                    ) => {
                                        assert(f.name.text@ == "main"@);
                                        assert(crate::module_check::fn_corresponds(
                                            engines.functions()[main_id as int],
                                            *f,
                                        ));
                                        assert(Seq::new(
                                            f.parameters@.len(),
                                            |i: int| f.parameters@[i].type_argument.type_id,
                                        ) =~= g_param_tids);
                                        assert(crate::entry_synth::spec_script_entry_body(
                                            g_contents,
                                            Seq::new(
                                                f.parameters@.len(),
                                                |i: int| f.parameters@[i].type_argument.type_id,
                                            ),
                                            engines.types(),
                                        ));
                                    },
                                    _ => {
                                        assert(false);
                                    },
                                }
                            }
                        },
                        Err(e) => {
                            proof {
                                assert(false);
                            }
                            return Err(e);
                        },
                    }
                },
                crate::parse_tree::TreeType::Contract => {
                    let decode_first = crate::entry_synth::call_decode_first_param(engines);
                    let string_slice_tid: usize = match &decode_first.kind {
                        crate::parse_tree::ExpressionKind::FunctionApplication(app) => {
                            if app.call_path_binding.type_arguments.len() == 1 {
                                app.call_path_binding.type_arguments[0].type_id
                            } else {
                                proof {
                                    assert(false);
                                }
                                0
                            }
                        },
                        _ => {
                            proof {
                                assert(false);
                            }
                            0
                        },
                    };
                    let string_slice_ta = crate::type_system::TypeArgument {
                        type_id: string_slice_tid,
                        initial_type_id: string_slice_tid,
                        span: crate::span::Span::dummy(),
                    };
                    let ghost g_decode_first = decode_first;
                    let mut contents: Vec<crate::parse_tree::AstNode> = Vec::new();
                    let name_node = crate::parse_tree::AstNode {
                        content: crate::parse_tree::AstNodeContent::Declaration(
                            crate::parse_tree::Declaration::VariableDeclaration(
                                Box::new(
                                    crate::parse_tree::VariableDeclaration {
                                        name: crate::language::Ident::new_no_span(
                                            String::from_str("method_name"),
                                        ),
                                        type_ascription: string_slice_ta,
                                        body: decode_first,
                                        is_mutable: false,
                                    },
                                ),
                            ),
                        ),
                        span: crate::span::Span::dummy(),
                    };
                    proof {
                        let n = engines.types().len() as int;
                        assert(string_slice_tid == crate::entry_synth::call_type_args(
                            g_decode_first,
                        )[0].type_id);
                        assert(crate::parse_tree::type_args_wf(
                            crate::entry_synth::call_type_args(g_decode_first),
                            n,
                        )) by {
                            assert(crate::entry_synth::call_type_args(g_decode_first).len() == 1);
                            assert(crate::entry_synth::call_type_args(g_decode_first)[0].type_id
                                < n);
                        }
                        match g_decode_first.kind {
                            crate::parse_tree::ExpressionKind::FunctionApplication(app) => {
                                assert(crate::parse_tree::exprs_wf(app.arguments@, n, 0));
                                crate::parse_tree::lemma_fn_app_wf(g_decode_first, n);
                            },
                            _ => {},
                        }
                        crate::parse_tree::lemma_var_decl_node_wf(name_node, n);
                        crate::parse_tree::lemma_nodes_wf_push(contents@, name_node, n, 0);
                        assert(crate::entry_synth::is_method_name_decl_node(
                            name_node,
                            engines.types(),
                        ));
                    }
                    contents.push(name_node);
                    let entries = root.contract_fns(engines);
                    proof {
                        crate::typed_tree::lemma_module_contract_fns_valid(
                            root,
                            engines.functions(),
                        );
                    }
                    let ghost fns_c = engines.functions();
                    let ne = entries.len();
                    let mut ei: usize = 0;
                    while ei < ne
                        invariant
                            ei <= ne,
                            ne == entries@.len(),
                            engines.wf(),
                            fns_c == engines.functions(),
                            engines.structs() == old(engines).structs(),
                            engines.storages() == stos1,
                            fns1 == engines.functions(),
                            unit_type_id < engines.types().len(),
                            engines.types()[unit_type_id as int] == TypeInfoView::Tuple(Seq::<
                                crate::type_system::TypeId,
                            >::empty()),
                            forall|p: int|
                                0 <= p < entries@.len() ==> (#[trigger] entries@[p])
                                    < engines.functions().len(),
                            crate::parse_tree::nodes_wf(
                                contents@,
                                engines.types().len() as int,
                                0,
                            ),
                            contents@.len() == 1 + ei,
                            crate::entry_synth::is_method_name_decl_node(
                                contents@[0],
                                engines.types(),
                            ),
                            forall|k: int|
                                0 <= k < ei ==> crate::entry_synth::is_dispatch_branch(
                                    #[trigger] contents@[1 + k],
                                    fns_c[entries@[k] as int],
                                    engines.types(),
                                ),
                            *handler == *old(handler),
                        decreases ne - ei,
                    {
                        let ghost ts_head = engines.types();
                        let id = entries[ei];
                        let method_ref = crate::parse_tree::Expression {
                            kind: crate::parse_tree::ExpressionKind::Variable(
                                crate::language::Ident::new_no_span(
                                    String::from_str("method_name"),
                                ),
                            ),
                            span: crate::span::Span::dummy(),
                        };
                        let name_text = engines.get_function(id).name.text.clone();
                        let lit = crate::parse_tree::Expression {
                            kind: crate::parse_tree::ExpressionKind::Literal(
                                crate::parse_tree::Literal::String(name_text),
                            ),
                            span: crate::span::Span::dummy(),
                        };
                        let ghost g_method_ref = method_ref;
                        let ghost g_lit = lit;
                        let cond = crate::entry_synth::call_eq(engines, method_ref, lit);
                        let ghost g_cond = cond;
                        let ghost n_a = engines.types().len() as int;
                        let args_opt = crate::entry_synth::arguments_type(engines, id);
                        let ghost n_b = engines.types().len() as int;
                        let mut then_nodes: Vec<crate::parse_tree::AstNode> = Vec::new();
                        let arguments: Vec<crate::parse_tree::Expression> = match args_opt {
                            Some(ta) => {
                                let decode = crate::entry_synth::call_decode_second_param(
                                    engines,
                                    ta,
                                );
                                let ghost g_decode = decode;
                                let args_node = crate::parse_tree::AstNode {
                                    content: crate::parse_tree::AstNodeContent::Declaration(
                                        crate::parse_tree::Declaration::VariableDeclaration(
                                            Box::new(
                                                crate::parse_tree::VariableDeclaration {
                                                    name: crate::language::Ident::new_no_span(
                                                        String::from_str("args"),
                                                    ),
                                                    type_ascription: ta,
                                                    body: decode,
                                                    is_mutable: false,
                                                },
                                            ),
                                        ),
                                    ),
                                    span: crate::span::Span::dummy(),
                                };
                                proof {
                                    assert(crate::parse_tree::type_args_wf(
                                        crate::entry_synth::call_type_args(g_decode),
                                        n_b,
                                    )) by {
                                        assert(crate::entry_synth::call_type_args(g_decode)
                                            =~= seq![ta]);
                                    }
                                    match g_decode.kind {
                                        crate::parse_tree::ExpressionKind::FunctionApplication(
                                            app,
                                        ) => {
                                            assert(crate::parse_tree::exprs_wf(
                                                app.arguments@,
                                                n_b,
                                                0,
                                            ));
                                            crate::parse_tree::lemma_fn_app_wf(g_decode, n_b);
                                        },
                                        _ => {},
                                    }
                                    crate::parse_tree::lemma_var_decl_node_wf(args_node, n_b);
                                    crate::parse_tree::lemma_nodes_wf_push(
                                        then_nodes@,
                                        args_node,
                                        n_b,
                                        0,
                                    );
                                }
                                then_nodes.push(args_node);
                                crate::entry_synth::arguments_as_expressions(
                                    crate::language::Ident::new_no_span(String::from_str("args")),
                                    engines.get_function(id),
                                )
                            },
                            None => Vec::new(),
                        };
                        let mut wrapper_name = String::from_str("__contract_entry_");
                        let suffix = engines.get_function(id).call_path.suffix.text.clone();
                        wrapper_name.append(suffix.as_str());
                        let ghost g_arguments = arguments@;
                        let inner_call = crate::entry_synth::call_function_with_suffix(
                            wrapper_name,
                            arguments,
                        );
                        let ghost g_inner = inner_call;
                        let slice_tid = engines.insert_type(
                            crate::type_system::TypeInfo::RawUntypedSlice,
                        );
                        let ghost n_c = engines.types().len() as int;
                        let encoded = crate::entry_synth::call_encode(engines, inner_call);
                        let ghost g_encoded = encoded;
                        let result_node = crate::parse_tree::AstNode {
                            content: crate::parse_tree::AstNodeContent::Declaration(
                                crate::parse_tree::Declaration::VariableDeclaration(
                                    Box::new(
                                        crate::parse_tree::VariableDeclaration {
                                            name: crate::language::Ident::new_no_span(
                                                String::from_str("result"),
                                            ),
                                            type_ascription: crate::type_system::TypeArgument {
                                                type_id: slice_tid,
                                                initial_type_id: slice_tid,
                                                span: crate::span::Span::dummy(),
                                            },
                                            body: encoded,
                                            is_mutable: false,
                                        },
                                    ),
                                ),
                            ),
                            span: crate::span::Span::dummy(),
                        };
                        proof {
                            assert(crate::parse_tree::expr_wf(g_inner, n_c)) by {
                                crate::parse_tree::lemma_exprs_wf_pointwise(g_arguments, n_c, 0);
                                crate::parse_tree::lemma_fn_app_wf(g_inner, n_c);
                            }
                            assert(crate::parse_tree::expr_wf(g_encoded, n_c)) by {
                                assert(crate::entry_synth::call_args(g_encoded) =~= seq![g_inner]);
                                crate::parse_tree::lemma_exprs_wf_pointwise(
                                    crate::entry_synth::call_args(g_encoded),
                                    n_c,
                                    0,
                                );
                                match g_encoded.kind {
                                    crate::parse_tree::ExpressionKind::FunctionApplication(
                                        app,
                                    ) => {
                                        assert(crate::parse_tree::type_args_wf(
                                            app.call_path_binding.type_arguments@,
                                            n_c,
                                        ));
                                    },
                                    _ => {},
                                }
                                crate::parse_tree::lemma_fn_app_wf(g_encoded, n_c);
                            }
                            crate::parse_tree::lemma_var_decl_node_wf(result_node, n_c);
                            crate::parse_tree::lemma_nodes_wf_mono(then_nodes@, n_b, n_c, 0);
                            crate::parse_tree::lemma_nodes_wf_push(
                                then_nodes@,
                                result_node,
                                n_c,
                                0,
                            );
                        }
                        then_nodes.push(result_node);
                        let ret_node = crate::entry_synth::contract_ret_node(engines, "result");
                        proof {
                            crate::parse_tree::lemma_nodes_wf_push(then_nodes@, ret_node, n_c, 0);
                        }
                        then_nodes.push(ret_node);
                        let ghost g_then_nodes = then_nodes@;
                        let then_block = crate::parse_tree::Expression {
                            kind: crate::parse_tree::ExpressionKind::CodeBlock(
                                crate::parse_tree::CodeBlock {
                                    contents: then_nodes,
                                    whole_block_span: crate::span::Span::dummy(),
                                },
                            ),
                            span: crate::span::Span::dummy(),
                        };
                        let ghost g_then_block = then_block;
                        let if_node = crate::parse_tree::AstNode {
                            content: crate::parse_tree::AstNodeContent::Expression(
                                crate::parse_tree::Expression {
                                    kind: crate::parse_tree::ExpressionKind::If(
                                        Box::new(
                                            crate::parse_tree::IfExpression {
                                                condition: Box::new(cond),
                                                then_branch: Box::new(then_block),
                                                else_branch: None,
                                            },
                                        ),
                                    ),
                                    span: crate::span::Span::dummy(),
                                },
                            ),
                            span: crate::span::Span::dummy(),
                        };
                        proof {
                            assert(crate::parse_tree::expr_wf(g_cond, n_c)) by {
                                assert(crate::entry_synth::method_args(g_cond) =~= seq![
                                    g_method_ref,
                                    g_lit,
                                ]);
                                crate::parse_tree::lemma_atomic_wf(g_method_ref, n_c);
                                crate::parse_tree::lemma_atomic_wf(g_lit, n_c);
                                crate::parse_tree::lemma_exprs_wf_pointwise(
                                    crate::entry_synth::method_args(g_cond),
                                    n_c,
                                    0,
                                );
                                match g_cond.kind {
                                    crate::parse_tree::ExpressionKind::MethodApplication(app) => {
                                        assert(crate::parse_tree::type_args_wf(
                                            app.method_name_binding.type_arguments@,
                                            n_c,
                                        ));
                                        assert(crate::parse_tree::exprs_wf(
                                            app.contract_call_params@,
                                            n_c,
                                            0,
                                        ));
                                    },
                                    _ => {},
                                }
                                crate::parse_tree::lemma_method_app_wf(g_cond, n_c);
                            }
                            assert(crate::parse_tree::expr_wf(g_then_block, n_c)) by {
                                crate::parse_tree::lemma_code_block_wf(g_then_block, n_c);
                            }
                            match &if_node.content {
                                crate::parse_tree::AstNodeContent::Expression(e) => {
                                    crate::parse_tree::lemma_if_wf(*e, n_c);
                                },
                                _ => {},
                            }
                            crate::parse_tree::lemma_expr_node_wf(if_node, n_c);
                            crate::parse_tree::lemma_nodes_wf_mono(contents@, n_a, n_c, 0);
                            crate::parse_tree::lemma_nodes_wf_push(contents@, if_node, n_c, 0);
                            assert(crate::entry_synth::is_dispatch_branch(
                                if_node,
                                fns_c[id as int],
                                engines.types(),
                            )) by {
                                assert(crate::entry_synth::method_args(g_cond) =~= seq![
                                    g_method_ref,
                                    g_lit,
                                ]);
                                if fns_c[id as int].parameters@.len() > 0 {
                                    assert(crate::entry_synth::is_args_decl_node(
                                        g_then_nodes[0],
                                        "decode_second_param"@,
                                    ));
                                }
                                assert(g_then_nodes[g_then_nodes.len() - 2] == result_node);
                                assert(crate::entry_synth::is_result_encode_node(
                                    g_then_nodes[g_then_nodes.len() - 2],
                                    "__contract_entry_"@ + fns_c[id as int].call_path.suffix.text@,
                                    fns_c[id as int].parameters@.len() as int,
                                    engines.types(),
                                )) by {
                                    assert(crate::entry_synth::call_args(g_encoded)[0] == g_inner);
                                    assert(crate::entry_synth::call_args(g_inner) == g_arguments);
                                }
                            }
                            assert forall|k: int| 0 <= k < ei + 1 implies
                                crate::entry_synth::is_dispatch_branch(
                                #[trigger] contents@.push(if_node)[1 + k],
                                fns_c[entries@[k] as int],
                                engines.types(),
                            ) by {
                                if k < ei {
                                    assert(contents@.push(if_node)[1 + k] == contents@[1 + k]);
                                    crate::entry_synth::lemma_dispatch_branch_grow(
                                        contents@[1 + k],
                                        fns_c[entries@[k] as int],
                                        ts_head,
                                        engines.types(),
                                    );
                                } else {
                                    assert(contents@.push(if_node)[1 + k] == if_node);
                                }
                            }
                        }
                        contents.push(if_node);
                        ei = ei + 1;
                    }
                    let ghost g_contents_c = contents@;
                    let ghost g_root_pre = root;
                    let ghost g_fns_pre = engines.functions();
                    match crate::entry_synth::gen_entry_fn(
                        handler,
                        engines,
                        &mut root,
                        crate::language::Purity::ReadsWrites,
                        contents,
                        unit_type_id,
                    ) {
                        Ok(_) => {
                            proof {
                                assert(engines.types()[unit_type_id as int]
                                    == TypeInfoView::Tuple(Seq::<
                                    crate::type_system::TypeId,
                                >::empty()));
                                let fns_final = engines.functions();
                                let last_decl = fns_final.last();
                                let last_node = root.all_nodes@.last();
                                assert(!crate::typed_tree::spec_is_contract_fn(
                                    last_node,
                                    fns_final,
                                ));
                                crate::typed_tree::lemma_nodes_contract_fns_push(
                                    g_root_pre.all_nodes@,
                                    last_node,
                                    fns_final,
                                    0,
                                );
                                assert(root.all_nodes@ == g_root_pre.all_nodes@.push(last_node));
                                assert(crate::typed_tree::spec_module_contract_fns(
                                    root,
                                    fns_final,
                                ) == crate::typed_tree::spec_module_contract_fns(
                                    g_root_pre,
                                    fns_final,
                                )) by {
                                    assert(root.submodules@ == g_root_pre.submodules@);
                                }
                                crate::typed_tree::lemma_module_contract_fns_fns_push(
                                    g_root_pre,
                                    g_fns_pre,
                                    last_decl,
                                );
                                assert(fns_final =~= g_fns_pre.push(last_decl));
                                assert(crate::typed_tree::spec_module_contract_fns(
                                    root,
                                    fns_final,
                                ) == entries@);
                                assert(engines.functions().last().body.contents@ == g_contents_c);
                                assert forall|k: int|
                                    0 <= k < entries@.len() && entries@[k] < fns_final.len()
                                        implies crate::entry_synth::is_dispatch_branch(
                                    #[trigger] g_contents_c[1 + k],
                                    fns_final[entries@[k] as int],
                                    engines.types(),
                                ) by {
                                    assert(fns_final[entries@[k] as int] == fns_c[entries@[k] as int]);
                                }
                                assert(crate::entry_synth::spec_contract_dispatch_body(
                                    g_contents_c,
                                    entries@,
                                    fns_final,
                                    engines.types(),
                                ));
                            }
                        },
                        Err(e) => {
                            proof {
                                assert(false);
                            }
                            return Err(e);
                        },
                    }
                },
            }
        }
        let mut declarations: Vec<TyDecl> = Vec::new();
        collect_decls(&root.all_nodes, 0, &mut declarations);
        let kind = match parsed.kind {
            crate::parse_tree::TreeType::Predicate => TyProgramKind::Predicate,
            crate::parse_tree::TreeType::Script => TyProgramKind::Script,
            crate::parse_tree::TreeType::Contract => TyProgramKind::Contract,
            crate::parse_tree::TreeType::Library => TyProgramKind::Library,
        };
        Ok(
            TyProgram {
                kind,
                root,
                declarations,
                configurables: Vec::new(),
                storage_slots: Vec::new(),
                logged_types: Vec::new(),
                messages_types: Vec::new(),
            },
        )
    }
}

} // verus!
