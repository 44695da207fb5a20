use vstd::prelude::*;
use crate::declaration::{TyFunctionDecl, TyStorageDecl, TyStructDecl};
use crate::type_system::{type_info_equal, DeclId, TypeId, TypeInfo, TypeInfoView};

verus! {

broadcast use vstd::std_specs::vec::group_vec_axioms;

/// The process-wide table from type handles to type descriptors. All
/// identity and equality decisions about types are mediated through it.
#[derive(Debug)]
pub struct TypeEngine {
    pub types: Vec<TypeInfo>,
}

/// The process-wide table from declaration handles to declaration
/// bodies. Handles are never revoked once inserted in a session.
#[derive(Debug)]
pub struct DeclEngine {
    pub structs: Vec<TyStructDecl>,
    pub functions: Vec<TyFunctionDecl>,
    pub storages: Vec<TyStorageDecl>,
}

/// The two shared tables, passed as explicit context into every
/// engine-scoped operation.
#[derive(Debug)]
pub struct Engines {
    pub te: TypeEngine,
    pub de: DeclEngine,
}

/// All member handles lie strictly below `idx`.
pub open spec fn members_below(ms: Seq<TypeId>, idx: int) -> bool {
    forall|j: int| 0 <= j < ms.len() ==> (#[trigger] ms[j]) < idx
}

/// A descriptor is well formed at table position `idx` when its member
/// handles were interned before it (so they lie strictly below `idx`)
/// and a struct descriptor points into the declaration table.
pub open spec fn info_wf(t: TypeInfoView, idx: int, nstructs: int) -> bool {
    match t {
        TypeInfoView::Tuple(ms) => members_below(ms, idx),
        TypeInfoView::Struct(d) => d < nstructs,
        _ => true,
    }
}

/// Every type handle a struct declaration carries was produced by the
/// interning engine.
pub open spec fn struct_decl_wf(d: TyStructDecl, ntypes: int) -> bool {
    &&& forall|j: int|
        0 <= j < d.fields@.len() ==> (#[trigger] d.fields@[j]).type_argument.type_id < ntypes
    &&& forall|j: int|
        0 <= j < d.type_parameters@.len() ==> (#[trigger] d.type_parameters@[j]).type_id < ntypes
}

pub open spec fn fn_ty_decl_wf(d: TyFunctionDecl, ntypes: int) -> bool {
    &&& d.return_type.type_id < ntypes
    &&& forall|j: int|
        0 <= j < d.parameters@.len() ==> (#[trigger] d.parameters@[j]).type_argument.type_id
            < ntypes
}

pub open spec fn storage_decl_wf(d: TyStorageDecl, ntypes: int) -> bool {
    forall|j: int|
        0 <= j < d.fields@.len() ==> (#[trigger] d.fields@[j]).type_argument.type_id < ntypes
}

/// First table entry structurally equal to `info`, scanning from `i`:
/// the interning engine never holds two structurally equal descriptors.
pub open spec fn spec_find_type_from(ts: Seq<TypeInfoView>, info: TypeInfoView, i: int) -> Option<
    int,
>
    decreases ts.len() - i,
{
    if i < 0 || i >= ts.len() {
        None
    } else if ts[i] == info {
        Some(i)
    } else {
        spec_find_type_from(ts, info, i + 1)
    }
}

pub proof fn lemma_find_type_none(ts: Seq<TypeInfoView>, info: TypeInfoView, i: int)
    requires
        0 <= i,
        spec_find_type_from(ts, info, i) is None,
    ensures
        forall|j: int| i <= j < ts.len() ==> ts[j] != info,
    decreases ts.len() - i,
{
    if i < ts.len() {
        lemma_find_type_none(ts, info, i + 1);
    }
}

pub proof fn lemma_find_type_some(ts: Seq<TypeInfoView>, info: TypeInfoView, i: int, j: int)
    requires
        0 <= i,
        spec_find_type_from(ts, info, i) == Some(j),
    ensures
        i <= j < ts.len(),
        ts[j] == info,
    decreases ts.len() - i,
{
    if i < ts.len() && ts[i] != info {
        lemma_find_type_some(ts, info, i + 1, j);
    }
}

proof fn lemma_info_wf_mono(t: TypeInfoView, idx: int, n1: int, n2: int)
    requires
        info_wf(t, idx, n1),
        n1 <= n2,
    ensures
        info_wf(t, idx, n2),
{
}

proof fn lemma_struct_decl_wf_mono(d: TyStructDecl, n1: int, n2: int)
    requires
        struct_decl_wf(d, n1),
        n1 <= n2,
    ensures
        struct_decl_wf(d, n2),
{
}

proof fn lemma_fn_ty_decl_wf_mono(d: TyFunctionDecl, n1: int, n2: int)
    requires
        fn_ty_decl_wf(d, n1),
        n1 <= n2,
    ensures
        fn_ty_decl_wf(d, n2),
{
}

proof fn lemma_storage_decl_wf_mono(d: TyStorageDecl, n1: int, n2: int)
    requires
        storage_decl_wf(d, n1),
        n1 <= n2,
    ensures
        storage_decl_wf(d, n2),
{
}

/// The invariant only looks at the four tables, so two engine values
/// with the same tables are equally well formed.
proof fn lemma_wf_frame(a: Engines, b: Engines)
    requires
        a.wf(),
        b.types() == a.types(),
        b.structs() == a.structs(),
        b.functions() == a.functions(),
        b.storages() == a.storages(),
    ensures
        b.wf(),
{
    assert forall|i: int| 0 <= i < b.types().len() implies info_wf(
        #[trigger] b.types()[i],
        i,
        b.structs().len() as int,
    ) by {
        assert(b.types()[i] == a.types()[i]);
        assert(info_wf(a.types()[i], i, a.structs().len() as int));
    }
    assert forall|i: int, j: int| 0 <= i < j < b.types().len() implies #[trigger] b.types()[i]
        != #[trigger] b.types()[j] by {
        assert(a.types()[i] != a.types()[j]);
        assert(b.types()[i] == a.types()[i]);
        assert(b.types()[j] == a.types()[j]);
    }
    assert forall|s: int| 0 <= s < b.structs().len() implies struct_decl_wf(
        #[trigger] b.structs()[s],
        b.types().len() as int,
    ) by {
        assert(b.structs()[s] == a.structs()[s]);
        assert(struct_decl_wf(a.structs()[s], a.types().len() as int));
    }
    assert forall|s: int| 0 <= s < b.functions().len() implies fn_ty_decl_wf(
        #[trigger] b.functions()[s],
        b.types().len() as int,
    ) by {
        assert(b.functions()[s] == a.functions()[s]);
        assert(fn_ty_decl_wf(a.functions()[s], a.types().len() as int));
    }
    assert forall|s: int| 0 <= s < b.storages().len() implies storage_decl_wf(
        #[trigger] b.storages()[s],
        b.types().len() as int,
    ) by {
        assert(b.storages()[s] == a.storages()[s]);
        assert(storage_decl_wf(a.storages()[s], a.types().len() as int));
    }
}

/// Appending a fresh, well-formed descriptor preserves the invariant.
proof fn lemma_wf_push_type(a: Engines, b: Engines, info: TypeInfoView)
    requires
        a.wf(),
        b.types() == a.types().push(info),
        b.structs() == a.structs(),
        b.functions() == a.functions(),
        b.storages() == a.storages(),
        info_wf(info, a.types().len() as int, a.structs().len() as int),
        forall|j: int| 0 <= j < a.types().len() ==> #[trigger] a.types()[j] != info,
    ensures
        b.wf(),
{
    let n = a.types().len() as int;
    assert forall|i: int| 0 <= i < b.types().len() implies info_wf(
        #[trigger] b.types()[i],
        i,
        b.structs().len() as int,
    ) by {
        if i < n {
            assert(b.types()[i] == a.types()[i]);
            assert(info_wf(a.types()[i], i, a.structs().len() as int));
        } else {
            assert(b.types()[i] == info);
        }
    }
    assert forall|i: int, j: int| 0 <= i < j < b.types().len() implies #[trigger] b.types()[i]
        != #[trigger] b.types()[j] by {
        if j < n {
            assert(a.types()[i] != a.types()[j]);
            assert(b.types()[i] == a.types()[i]);
            assert(b.types()[j] == a.types()[j]);
        } else {
            assert(b.types()[j] == info);
            assert(b.types()[i] == a.types()[i]);
            assert(a.types()[i] != info);
        }
    }
    assert forall|s: int| 0 <= s < b.structs().len() implies struct_decl_wf(
        #[trigger] b.structs()[s],
        b.types().len() as int,
    ) by {
        assert(b.structs()[s] == a.structs()[s]);
        assert(struct_decl_wf(a.structs()[s], n));
        lemma_struct_decl_wf_mono(b.structs()[s], n, b.types().len() as int);
    }
    assert forall|s: int| 0 <= s < b.functions().len() implies fn_ty_decl_wf(
        #[trigger] b.functions()[s],
        b.types().len() as int,
    ) by {
        assert(b.functions()[s] == a.functions()[s]);
        assert(fn_ty_decl_wf(a.functions()[s], n));
        lemma_fn_ty_decl_wf_mono(b.functions()[s], n, b.types().len() as int);
    }
    assert forall|s: int| 0 <= s < b.storages().len() implies storage_decl_wf(
        #[trigger] b.storages()[s],
        b.types().len() as int,
    ) by {
        assert(b.storages()[s] == a.storages()[s]);
        assert(storage_decl_wf(a.storages()[s], n));
        lemma_storage_decl_wf_mono(b.storages()[s], n, b.types().len() as int);
    }
}

/// Growing or rewriting the struct table with well-formed declarations
/// preserves the invariant.
proof fn lemma_wf_structs_grown(a: Engines, b: Engines)
    requires
        a.wf(),
        b.types() == a.types(),
        b.functions() == a.functions(),
        b.storages() == a.storages(),
        a.structs().len() <= b.structs().len(),
        forall|s: int|
            0 <= s < b.structs().len() ==> struct_decl_wf(
                #[trigger] b.structs()[s],
                a.types().len() as int,
            ),
    ensures
        b.wf(),
{
    assert forall|i: int| 0 <= i < b.types().len() implies info_wf(
        #[trigger] b.types()[i],
        i,
        b.structs().len() as int,
    ) by {
        assert(b.types()[i] == a.types()[i]);
        assert(info_wf(a.types()[i], i, a.structs().len() as int));
        lemma_info_wf_mono(b.types()[i], i, a.structs().len() as int, b.structs().len() as int);
    }
    assert forall|i: int, j: int| 0 <= i < j < b.types().len() implies #[trigger] b.types()[i]
        != #[trigger] b.types()[j] by {
        assert(a.types()[i] != a.types()[j]);
        assert(b.types()[i] == a.types()[i]);
        assert(b.types()[j] == a.types()[j]);
    }
    assert forall|s: int| 0 <= s < b.functions().len() implies fn_ty_decl_wf(
        #[trigger] b.functions()[s],
        b.types().len() as int,
    ) by {
        assert(b.functions()[s] == a.functions()[s]);
        assert(fn_ty_decl_wf(a.functions()[s], a.types().len() as int));
    }
    assert forall|s: int| 0 <= s < b.storages().len() implies storage_decl_wf(
        #[trigger] b.storages()[s],
        b.types().len() as int,
    ) by {
        assert(b.storages()[s] == a.storages()[s]);
        assert(storage_decl_wf(a.storages()[s], a.types().len() as int));
    }
}

/// Growing the function table with well-formed declarations preserves
/// the invariant.
proof fn lemma_wf_functions_grown(a: Engines, b: Engines)
    requires
        a.wf(),
        b.types() == a.types(),
        b.structs() == a.structs(),
        b.storages() == a.storages(),
        forall|s: int|
            0 <= s < b.functions().len() ==> fn_ty_decl_wf(
                #[trigger] b.functions()[s],
                a.types().len() as int,
            ),
    ensures
        b.wf(),
{
    assert forall|i: int| 0 <= i < b.types().len() implies info_wf(
        #[trigger] b.types()[i],
        i,
        b.structs().len() as int,
    ) by {
        assert(b.types()[i] == a.types()[i]);
        assert(info_wf(a.types()[i], i, a.structs().len() as int));
    }
    assert forall|i: int, j: int| 0 <= i < j < b.types().len() implies #[trigger] b.types()[i]
        != #[trigger] b.types()[j] by {
        assert(a.types()[i] != a.types()[j]);
        assert(b.types()[i] == a.types()[i]);
        assert(b.types()[j] == a.types()[j]);
    }
    assert forall|s: int| 0 <= s < b.structs().len() implies struct_decl_wf(
        #[trigger] b.structs()[s],
        b.types().len() as int,
    ) by {
        assert(b.structs()[s] == a.structs()[s]);
        assert(struct_decl_wf(a.structs()[s], a.types().len() as int));
    }
    assert forall|s: int| 0 <= s < b.storages().len() implies storage_decl_wf(
        #[trigger] b.storages()[s],
        b.types().len() as int,
    ) by {
        assert(b.storages()[s] == a.storages()[s]);
        assert(storage_decl_wf(a.storages()[s], a.types().len() as int));
    }
}

/// Growing the storage table with well-formed declarations preserves
/// the invariant.
proof fn lemma_wf_storages_grown(a: Engines, b: Engines)
    requires
        a.wf(),
        b.types() == a.types(),
        b.structs() == a.structs(),
        b.functions() == a.functions(),
        forall|s: int|
            0 <= s < b.storages().len() ==> storage_decl_wf(
                #[trigger] b.storages()[s],
                a.types().len() as int,
            ),
    ensures
        b.wf(),
{
    assert forall|i: int| 0 <= i < b.types().len() implies info_wf(
        #[trigger] b.types()[i],
        i,
        b.structs().len() as int,
    ) by {
        assert(b.types()[i] == a.types()[i]);
        assert(info_wf(a.types()[i], i, a.structs().len() as int));
    }
    assert forall|i: int, j: int| 0 <= i < j < b.types().len() implies #[trigger] b.types()[i]
        != #[trigger] b.types()[j] by {
        assert(a.types()[i] != a.types()[j]);
        assert(b.types()[i] == a.types()[i]);
        assert(b.types()[j] == a.types()[j]);
    }
    assert forall|s: int| 0 <= s < b.structs().len() implies struct_decl_wf(
        #[trigger] b.structs()[s],
        b.types().len() as int,
    ) by {
        assert(b.structs()[s] == a.structs()[s]);
        assert(struct_decl_wf(a.structs()[s], a.types().len() as int));
    }
    assert forall|s: int| 0 <= s < b.functions().len() implies fn_ty_decl_wf(
        #[trigger] b.functions()[s],
        b.types().len() as int,
    ) by {
        assert(b.functions()[s] == a.functions()[s]);
        assert(fn_ty_decl_wf(a.functions()[s], a.types().len() as int));
    }
}

impl Engines {
    /// The mathematical image of the interning table.
    pub open spec fn types(&self) -> Seq<TypeInfoView> {
        self.te.types.deep_view()
    }

    pub open spec fn structs(&self) -> Seq<TyStructDecl> {
        self.de.structs@
    }

    pub open spec fn functions(&self) -> Seq<TyFunctionDecl> {
        self.de.functions@
    }

    pub open spec fn storages(&self) -> Seq<TyStorageDecl> {
        self.de.storages@
    }

    /// The joint invariant of the two tables: members interned before
    /// their compounds, no duplicate descriptors, and every declaration's
    /// handles valid.
    pub open spec fn wf(&self) -> bool {
        &&& forall|i: int|
            0 <= i < self.types().len() ==> info_wf(
                #[trigger] self.types()[i],
                i,
                self.structs().len() as int,
            )
        &&& forall|i: int, j: int|
            0 <= i < j < self.types().len() ==> #[trigger] self.types()[i] != #[trigger] self.types()[j]
        &&& forall|s: int|
            0 <= s < self.structs().len() ==> struct_decl_wf(
                #[trigger] self.structs()[s],
                self.types().len() as int,
            )
        &&& forall|s: int|
            0 <= s < self.functions().len() ==> fn_ty_decl_wf(
                #[trigger] self.functions()[s],
                self.types().len() as int,
            )
        &&& forall|s: int|
            0 <= s < self.storages().len() ==> storage_decl_wf(
                #[trigger] self.storages()[s],
                self.types().len() as int,
            )
    }

    pub fn new() -> (r: Engines)
        ensures
            r.wf(),
            r.types() =~= Seq::<TypeInfoView>::empty(),
            r.structs() =~= Seq::<TyStructDecl>::empty(),
            r.functions() =~= Seq::<TyFunctionDecl>::empty(),
            r.storages() =~= Seq::<TyStorageDecl>::empty(),
    {
        Engines {
            te: TypeEngine { types: Vec::new() },
            de: DeclEngine { structs: Vec::new(), functions: Vec::new(), storages: Vec::new() },
        }
    }

    /// Interns a descriptor: returns the handle of the structurally
    /// equal entry if one exists, otherwise appends. No operation fails;
    /// handles are never revoked.
    pub fn insert_type(&mut self, info: TypeInfo) -> (r: TypeId)
        requires
            old(self).wf(),
            info_wf(info@, old(self).types().len() as int, old(self).structs().len() as int),
        ensures
            final(self).wf(),
            final(self).de == old(self).de,
            match spec_find_type_from(old(self).types(), info@, 0) {
                Some(j) => final(self).types() == old(self).types() && r as int == j,
                None => final(self).types() == old(self).types().push(info@) && r as int == old(
                    self,
                ).types().len(),
            },
            r < final(self).types().len(),
            final(self).types()[r as int] == info@,
            old(self).types().len() <= final(self).types().len(),
            forall|i: int|
                0 <= i < old(self).types().len() ==> #[trigger] final(self).types()[i] == old(
                    self,
                ).types()[i],
    {
        let ghost ts = self.types();
        let n = self.te.types.len();
        let mut i: usize = 0;
        while i < n
            invariant
                i <= n,
                n == ts.len(),
                ts == self.types(),
                *self == *old(self),
                old(self).wf(),
                spec_find_type_from(ts, info@, 0) == spec_find_type_from(ts, info@, i as int),
            decreases n - i,
        {
            if type_info_equal(&self.te.types[i], &info) {
                proof {
                    assert(self.types()[i as int] == self.te.types@[i as int]@);
                    assert(spec_find_type_from(ts, info@, i as int) == Some(i as int));
                    lemma_wf_frame(*old(self), *self);
                }
                return i;
            }
            assert(self.types()[i as int] == self.te.types@[i as int]@);
            i = i + 1;
        }
        proof {
            lemma_find_type_none(ts, info@, 0);
        }
        self.te.types.push(info);
        proof {
            assert(self.types() =~= ts.push(info@));
            lemma_wf_push_type(*old(self), *self, info@);
        }
        n
    }

    /// Resolves a handle to its descriptor; total over handles the
    /// engine has produced.
    pub fn get_type(&self, id: TypeId) -> (r: &TypeInfo)
        requires
            id < self.types().len(),
        ensures
            r@ == self.types()[id as int],
    {
        let r = &self.te.types[id];
        assert(r@ == self.types()[id as int]);
        r
    }

    pub fn struct_count(&self) -> (r: usize)
        ensures
            r == self.structs().len(),
    {
        self.de.structs.len()
    }

    pub fn type_count(&self) -> (r: usize)
        ensures
            r == self.types().len(),
    {
        self.te.types.len()
    }

    /// Appends a struct declaration and hands back its fresh handle.
    pub fn insert_struct(&mut self, decl: TyStructDecl) -> (r: DeclId)
        requires
            old(self).wf(),
            struct_decl_wf(decl, old(self).types().len() as int),
        ensures
            final(self).wf(),
            final(self).structs() == old(self).structs().push(decl),
            final(self).types() == old(self).types(),
            final(self).functions() == old(self).functions(),
            final(self).storages() == old(self).storages(),
            r as int == old(self).structs().len(),
    {
        let r = self.de.structs.len();
        self.de.structs.push(decl);
        proof {
            assert forall|s: int| 0 <= s < self.structs().len() implies struct_decl_wf(
                #[trigger] self.structs()[s],
                old(self).types().len() as int,
            ) by {
                if s < old(self).structs().len() {
                    assert(self.structs()[s] == old(self).structs()[s]);
                    assert(struct_decl_wf(old(self).structs()[s], old(self).types().len() as int));
                } else {
                    assert(self.structs()[s] == decl);
                }
            }
            lemma_wf_structs_grown(*old(self), *self);
        }
        r
    }

    pub fn get_struct(&self, id: DeclId) -> (r: &TyStructDecl)
        requires
            id < self.structs().len(),
        ensures
            *r == self.structs()[id as int],
    {
        &self.de.structs[id]
    }

    /// Replaces the body behind an existing struct handle; used by the
    /// substitution protocol, which rewrites a declaration in place.
    pub fn replace_struct(&mut self, id: DeclId, decl: TyStructDecl)
        requires
            old(self).wf(),
            id < old(self).structs().len(),
            struct_decl_wf(decl, old(self).types().len() as int),
        ensures
            final(self).wf(),
            final(self).structs() == old(self).structs().update(id as int, decl),
            final(self).types() == old(self).types(),
            final(self).functions() == old(self).functions(),
            final(self).storages() == old(self).storages(),
    {
        self.de.structs.set(id, decl);
        proof {
            assert forall|s: int| 0 <= s < self.structs().len() implies struct_decl_wf(
                #[trigger] self.structs()[s],
                old(self).types().len() as int,
            ) by {
                if s != id {
                    assert(self.structs()[s] == old(self).structs()[s]);
                    assert(struct_decl_wf(old(self).structs()[s], old(self).types().len() as int));
                } else {
                    assert(self.structs()[s] == decl);
                }
            }
            lemma_wf_structs_grown(*old(self), *self);
        }
    }

    pub fn insert_function(&mut self, decl: TyFunctionDecl) -> (r: DeclId)
        requires
            old(self).wf(),
            fn_ty_decl_wf(decl, old(self).types().len() as int),
        ensures
            final(self).wf(),
            final(self).functions() == old(self).functions().push(decl),
            final(self).types() == old(self).types(),
            final(self).structs() == old(self).structs(),
            final(self).storages() == old(self).storages(),
            r as int == old(self).functions().len(),
    {
        let r = self.de.functions.len();
        self.de.functions.push(decl);
        proof {
            assert forall|s: int| 0 <= s < self.functions().len() implies fn_ty_decl_wf(
                #[trigger] self.functions()[s],
                old(self).types().len() as int,
            ) by {
                if s < old(self).functions().len() {
                    assert(self.functions()[s] == old(self).functions()[s]);
                    assert(fn_ty_decl_wf(old(self).functions()[s], old(self).types().len() as int));
                } else {
                    assert(self.functions()[s] == decl);
                }
            }
            lemma_wf_functions_grown(*old(self), *self);
        }
        r
    }

    pub fn get_function(&self, id: DeclId) -> (r: &TyFunctionDecl)
        requires
            id < self.functions().len(),
        ensures
            *r == self.functions()[id as int],
    {
        &self.de.functions[id]
    }

    pub fn insert_storage(&mut self, decl: TyStorageDecl) -> (r: DeclId)
        requires
            old(self).wf(),
            storage_decl_wf(decl, old(self).types().len() as int),
        ensures
            final(self).wf(),
            final(self).storages() == old(self).storages().push(decl),
            final(self).types() == old(self).types(),
            final(self).structs() == old(self).structs(),
            final(self).functions() == old(self).functions(),
            r as int == old(self).storages().len(),
    {
        let r = self.de.storages.len();
        self.de.storages.push(decl);
        proof {
            assert forall|s: int| 0 <= s < self.storages().len() implies storage_decl_wf(
                #[trigger] self.storages()[s],
                old(self).types().len() as int,
            ) by {
                if s < old(self).storages().len() {
                    assert(self.storages()[s] == old(self).storages()[s]);
                    assert(storage_decl_wf(old(self).storages()[s], old(self).types().len() as int));
                } else {
                    assert(self.storages()[s] == decl);
                }
            }
            lemma_wf_storages_grown(*old(self), *self);
        }
        r
    }

    pub fn get_storage(&self, id: DeclId) -> (r: &TyStorageDecl)
        requires
            id < self.storages().len(),
        ensures
            *r == self.storages()[id as int],
    {
        &self.de.storages[id]
    }
}

} // verus!
