use vstd::prelude::*;
use crate::declaration::{TyStructDecl, TyStructField};
use crate::engines::{info_wf, members_below, spec_find_type_from, Engines};
use crate::type_system::{
    spec_lookup, TypeArgument, TypeId, TypeInfo, TypeInfoView, TypeParameter, TypeSubstMap,
};

verus! {

broadcast use vstd::std_specs::vec::group_vec_axioms;

/// Every handle the map substitutes in is a handle the engine produced.
pub open spec fn map_targets_ok(entries: Seq<(TypeId, TypeId)>, ntypes: int) -> bool {
    forall|j: int| 0 <= j < entries.len() ==> (#[trigger] entries[j]).1 < ntypes
}

/// Interning at the specification level: the handle of the first
/// structurally equal entry, or the table extended by one.
pub open spec fn spec_insert_view(ts: Seq<TypeInfoView>, info: TypeInfoView) -> (
    Seq<TypeInfoView>,
    TypeId,
) {
    match spec_find_type_from(ts, info, 0) {
        Some(j) => (ts, j as usize),
        None => (ts.push(info), ts.len() as usize),
    }
}

/// What substitution does to one handle: a mapped handle is replaced
/// outright; a tuple is rebuilt from its substituted members and
/// re-interned; every other descriptor is left alone. The result pairs
/// the grown table with the new handle.
pub open spec fn spec_subst(
    ts: Seq<TypeInfoView>,
    map: Seq<(TypeId, TypeId)>,
    tid: TypeId,
) -> (Seq<TypeInfoView>, TypeId)
    decreases tid, 1int, 0int,
{
    match spec_lookup(map, tid) {
        Some(t) => (ts, t),
        None => {
            if tid >= ts.len() {
                (ts, tid)
            } else {
                match ts[tid as int] {
                    TypeInfoView::Tuple(ms) => {
                        let (ts1, ms1) = spec_subst_members(ts, map, ms, tid, 0, Seq::empty());
                        spec_insert_view(ts1, TypeInfoView::Tuple(ms1))
                    },
                    _ => (ts, tid),
                }
            }
        },
    }
}

/// Substitutes the members of a tuple left to right, threading the
/// growing table; `acc` carries the members already done.
pub open spec fn spec_subst_members(
    ts: Seq<TypeInfoView>,
    map: Seq<(TypeId, TypeId)>,
    ms: Seq<TypeId>,
    tid: TypeId,
    i: int,
    acc: Seq<TypeId>,
) -> (Seq<TypeInfoView>, Seq<TypeId>)
    decreases tid, 0int, ms.len() - i,
{
    if i < 0 || i >= ms.len() {
        (ts, acc)
    } else if ms[i] < tid {
        let (ts1, m1) = spec_subst(ts, map, ms[i]);
        spec_subst_members(ts1, map, ms, tid, i + 1, acc.push(m1))
    } else {
        spec_subst_members(ts, map, ms, tid, i + 1, acc.push(ms[i]))
    }
}

proof fn lemma_lookup_from_target_ok(entries: Seq<(TypeId, TypeId)>, tid: TypeId, i: int, n: int)
    requires
        map_targets_ok(entries, n),
        0 <= i,
    ensures
        crate::type_system::spec_lookup_from(entries, tid, i) matches Some(t) ==> t < n,
    decreases entries.len() - i,
{
    if i < entries.len() && entries[i].0 != tid {
        lemma_lookup_from_target_ok(entries, tid, i + 1, n);
    }
}

fn copy_ids(v: &Vec<TypeId>) -> (r: Vec<TypeId>)
    ensures
        r@ == v@,
{
    let n = v.len();
    let mut out: Vec<TypeId> = Vec::new();
    let mut i: usize = 0;
    while i < n
        invariant
            i <= n,
            n == v@.len(),
            out@ =~= v@.take(i as int),
        decreases n - i,
    {
        out.push(v[i]);
        proof {
            assert(out@ =~= v@.take(i as int + 1));
        }
        i = i + 1;
    }
    proof {
        assert(out@ =~= v@);
    }
    out
}

impl Engines {
    /// In-place substitution at the type level: replaces the handle as
    /// [`spec_subst`] says, interning any rebuilt tuple. The table only
    /// grows; existing handles keep their descriptors.
    pub fn subst_type(&mut self, map: &TypeSubstMap, tid: TypeId) -> (r: TypeId)
        requires
            old(self).wf(),
            tid < old(self).types().len(),
            map_targets_ok(map.mapping@, old(self).types().len() as int),
        ensures
            final(self).wf(),
            final(self).de == old(self).de,
            old(self).types().len() <= final(self).types().len(),
            forall|i: int|
                0 <= i < old(self).types().len() ==> #[trigger] final(self).types()[i] == old(
                    self,
                ).types()[i],
            r < final(self).types().len(),
            final(self).types() == spec_subst(old(self).types(), map.mapping@, tid).0,
            r == spec_subst(old(self).types(), map.mapping@, tid).1,
        decreases tid, 1int, 0int,
    {
        let ghost ts0 = self.types();
        match map.lookup(tid) {
            Some(t) => {
                proof {
                    lemma_lookup_from_target_ok(map.mapping@, tid, 0, ts0.len() as int);
                }
                t
            },
            None => {
                let ghost nstructs = self.structs().len() as int;
                let is_tuple: bool;
                let mut ms_copy: Vec<TypeId> = Vec::new();
                {
                    let t = self.get_type(tid);
                    match t {
                        TypeInfo::Tuple(ms) => {
                            is_tuple = true;
                            ms_copy = copy_ids(ms);
                        },
                        _ => {
                            is_tuple = false;
                        },
                    }
                }
                if !is_tuple {
                    return tid;
                }
                proof {
                    assert(info_wf(ts0[tid as int], tid as int, nstructs));
                    assert(info_wf(TypeInfoView::Tuple(ms_copy@), tid as int, nstructs));
                    assert(members_below(ms_copy@, tid as int));
                }
                let n = ms_copy.len();
                let mut out: Vec<TypeId> = Vec::new();
                let mut i: usize = 0;
                while i < n
                    invariant
                        i <= n,
                        n == ms_copy@.len(),
                        out@.len() == i,
                        self.wf(),
                        self.de == old(self).de,
                        members_below(ms_copy@, tid as int),
                        tid < ts0.len(),
                        ts0.len() <= self.types().len(),
                        forall|j: int|
                            0 <= j < ts0.len() ==> #[trigger] self.types()[j] == ts0[j],
                        map_targets_ok(map.mapping@, ts0.len() as int),
                        forall|j: int| 0 <= j < out@.len() ==> #[trigger] out@[j] < self.types().len(),
                        spec_subst_members(ts0, map.mapping@, ms_copy@, tid, 0, Seq::empty())
                            == spec_subst_members(
                            self.types(),
                            map.mapping@,
                            ms_copy@,
                            tid,
                            i as int,
                            out@,
                        ),
                    decreases n - i,
                {
                    let m = ms_copy[i];
                    proof {
                        assert(m < tid);
                        assert(map_targets_ok(map.mapping@, self.types().len() as int)) by {
                            assert forall|j: int| 0 <= j < map.mapping@.len() implies (
                            #[trigger] map.mapping@[j]).1 < self.types().len() by {
                                assert(map.mapping@[j].1 < ts0.len());
                            }
                        }
                    }
                    let m2 = self.subst_type(map, m);
                    out.push(m2);
                    i = i + 1;
                }
                proof {
                    assert(members_below(out@, self.types().len() as int));
                    assert(info_wf(TypeInfoView::Tuple(out@), self.types().len() as int, self.structs().len() as int));
                }
                let rid = self.insert_type(TypeInfo::Tuple(out));
                rid
            },
        }
    }
}

/// No handle reachable from `tid` (itself, or a member of a tuple,
/// recursively) has an entry in the map.
pub open spec fn map_free(ts: Seq<TypeInfoView>, map: Seq<(TypeId, TypeId)>, tid: TypeId) -> bool
    decreases tid, 1int, 0int,
{
    &&& spec_lookup(map, tid) is None
    &&& (tid < ts.len() ==> match ts[tid as int] {
        TypeInfoView::Tuple(ms) => members_free(ts, map, ms, tid, 0),
        _ => true,
    })
}

pub open spec fn members_free(
    ts: Seq<TypeInfoView>,
    map: Seq<(TypeId, TypeId)>,
    ms: Seq<TypeId>,
    tid: TypeId,
    i: int,
) -> bool
    decreases tid, 0int, ms.len() - i,
{
    if i < 0 || i >= ms.len() {
        true
    } else {
        &&& (ms[i] < tid ==> map_free(ts, map, ms[i]))
        &&& members_free(ts, map, ms, tid, i + 1)
    }
}

/// Tuples only hold members interned before them.
pub open spec fn types_members_wf(ts: Seq<TypeInfoView>) -> bool {
    forall|i: int|
        0 <= i < ts.len() ==> match #[trigger] ts[i] {
            TypeInfoView::Tuple(ms) => members_below(ms, i),
            _ => true,
        }
}

pub open spec fn types_unique(ts: Seq<TypeInfoView>) -> bool {
    forall|i: int, j: int| 0 <= i < j < ts.len() ==> #[trigger] ts[i] != #[trigger] ts[j]
}

proof fn lemma_find_self_from(ts: Seq<TypeInfoView>, tid: int, s: int)
    requires
        types_unique(ts),
        0 <= s <= tid < ts.len(),
    ensures
        spec_find_type_from(ts, ts[tid], s) == Some(tid),
    decreases tid - s,
{
    if s < tid {
        assert(ts[s] != ts[tid]);
        lemma_find_self_from(ts, tid, s + 1);
    }
}

proof fn lemma_subst_members_identity(
    ts: Seq<TypeInfoView>,
    map: Seq<(TypeId, TypeId)>,
    ms: Seq<TypeId>,
    tid: TypeId,
    i: int,
    acc: Seq<TypeId>,
)
    requires
        types_members_wf(ts),
        types_unique(ts),
        tid < ts.len(),
        members_below(ms, tid as int),
        members_free(ts, map, ms, tid, i),
        0 <= i <= ms.len(),
    ensures
        spec_subst_members(ts, map, ms, tid, i, acc) == (ts, acc + ms.subrange(i, ms.len() as int)),
    decreases tid, 0int, ms.len() - i,
{
    if i >= ms.len() {
        assert(acc + ms.subrange(i, ms.len() as int) =~= acc);
    } else {
        assert(ms[i] < tid);
        lemma_subst_identity(ts, map, ms[i]);
        lemma_subst_members_identity(ts, map, ms, tid, i + 1, acc.push(ms[i]));
        assert(acc.push(ms[i]) + ms.subrange(i + 1, ms.len() as int) =~= acc + ms.subrange(
            i,
            ms.len() as int,
        ));
    }
}

/// Substitution idempotence: a map with no entry for any handle
/// reachable from `tid` sends `tid` to itself and leaves the table
/// untouched.
pub proof fn lemma_subst_identity(ts: Seq<TypeInfoView>, map: Seq<(TypeId, TypeId)>, tid: TypeId)
    requires
        types_members_wf(ts),
        types_unique(ts),
        tid < ts.len(),
        map_free(ts, map, tid),
    ensures
        spec_subst(ts, map, tid) == (ts, tid),
    decreases tid, 1int, 0int,
{
    match ts[tid as int] {
        TypeInfoView::Tuple(ms) => {
            assert(members_below(ms, tid as int));
            lemma_subst_members_identity(ts, map, ms, tid, 0, Seq::empty());
            assert(Seq::empty() + ms.subrange(0, ms.len() as int) =~= ms);
            lemma_find_self_from(ts, tid as int, 0);
            assert(spec_find_type_from(ts, TypeInfoView::Tuple(ms), 0) == Some(tid as int));
        },
        _ => {
        },
    }
}

/// What substitution does to a field sequence, threading the table.
/// Only the live type handle moves; name, spans and attributes stay.
pub open spec fn spec_subst_fields(
    ts: Seq<TypeInfoView>,
    map: Seq<(TypeId, TypeId)>,
    fs: Seq<TyStructField>,
    i: int,
    acc: Seq<TyStructField>,
) -> (Seq<TypeInfoView>, Seq<TyStructField>)
    decreases fs.len() - i,
{
    if i < 0 || i >= fs.len() {
        (ts, acc)
    } else {
        let f = fs[i];
        let (ts1, m1) = spec_subst(ts, map, f.type_argument.type_id);
        let f2 = TyStructField {
            name: f.name,
            span: f.span,
            type_argument: TypeArgument {
                type_id: m1,
                initial_type_id: f.type_argument.initial_type_id,
                span: f.type_argument.span,
            },
            attributes: f.attributes,
        };
        spec_subst_fields(ts1, map, fs, i + 1, acc.push(f2))
    }
}

pub open spec fn spec_subst_params(
    ts: Seq<TypeInfoView>,
    map: Seq<(TypeId, TypeId)>,
    ps: Seq<TypeParameter>,
    i: int,
    acc: Seq<TypeParameter>,
) -> (Seq<TypeInfoView>, Seq<TypeParameter>)
    decreases ps.len() - i,
{
    if i < 0 || i >= ps.len() {
        (ts, acc)
    } else {
        let p = ps[i];
        let (ts1, m1) = spec_subst(ts, map, p.type_id);
        let p2 = TypeParameter {
            name: p.name,
            type_id: m1,
            initial_type_id: p.initial_type_id,
        };
        spec_subst_params(ts1, map, ps, i + 1, acc.push(p2))
    }
}

impl TyStructField {
    /// Applies the substitution map to this field's live type handle.
    /// Name, spans and attributes are untouched.
    pub fn subst_inner(&mut self, type_mapping: &TypeSubstMap, engines: &mut Engines)
        requires
            old(engines).wf(),
            old(self).type_argument.type_id < old(engines).types().len(),
            map_targets_ok(type_mapping.mapping@, old(engines).types().len() as int),
        ensures
            final(engines).wf(),
            final(engines).de == old(engines).de,
            old(engines).types().len() <= final(engines).types().len(),
            forall|i: int|
                0 <= i < old(engines).types().len() ==> #[trigger] final(engines).types()[i] == old(
                    engines,
                ).types()[i],
            final(engines).types() == spec_subst(
                old(engines).types(),
                type_mapping.mapping@,
                old(self).type_argument.type_id,
            ).0,
            final(self).type_argument.type_id == spec_subst(
                old(engines).types(),
                type_mapping.mapping@,
                old(self).type_argument.type_id,
            ).1,
            final(self).type_argument.type_id < final(engines).types().len(),
            final(self).name == old(self).name,
            final(self).span == old(self).span,
            final(self).attributes == old(self).attributes,
            final(self).type_argument.initial_type_id == old(self).type_argument.initial_type_id,
            final(self).type_argument.span == old(self).type_argument.span,
    {
        let nt = engines.subst_type(type_mapping, self.type_argument.type_id);
        self.type_argument.type_id = nt;
    }
}

impl TyStructDecl {
    /// In-place substitution over the declaration: every field's type
    /// handle and every type parameter's handle is replaced through the
    /// map, recursively into nested type arguments. A declaration none
    /// of whose reachable handles is mapped comes out unchanged.
    pub fn subst_inner(&mut self, type_mapping: &TypeSubstMap, engines: &mut Engines)
        requires
            old(engines).wf(),
            crate::engines::struct_decl_wf(*old(self), old(engines).types().len() as int),
            map_targets_ok(type_mapping.mapping@, old(engines).types().len() as int),
        ensures
            final(engines).wf(),
            final(engines).de == old(engines).de,
            old(engines).types().len() <= final(engines).types().len(),
            forall|i: int|
                0 <= i < old(engines).types().len() ==> #[trigger] final(engines).types()[i] == old(
                    engines,
                ).types()[i],
            final(self).fields@ == spec_subst_fields(
                old(engines).types(),
                type_mapping.mapping@,
                old(self).fields@,
                0,
                Seq::empty(),
            ).1,
            final(self).type_parameters@ == spec_subst_params(
                spec_subst_fields(
                    old(engines).types(),
                    type_mapping.mapping@,
                    old(self).fields@,
                    0,
                    Seq::empty(),
                ).0,
                type_mapping.mapping@,
                old(self).type_parameters@,
                0,
                Seq::empty(),
            ).1,
            final(engines).types() == spec_subst_params(
                spec_subst_fields(
                    old(engines).types(),
                    type_mapping.mapping@,
                    old(self).fields@,
                    0,
                    Seq::empty(),
                ).0,
                type_mapping.mapping@,
                old(self).type_parameters@,
                0,
                Seq::empty(),
            ).0,
            final(self).call_path == old(self).call_path,
            final(self).visibility == old(self).visibility,
            final(self).span == old(self).span,
            final(self).attributes == old(self).attributes,
    {
        let ghost ts0 = engines.types();
        let ghost mapv = type_mapping.mapping@;
        let mut fields_tmp: Vec<TyStructField> = Vec::new();
        core::mem::swap(&mut self.fields, &mut fields_tmp);
        let ghost fs0 = fields_tmp@;
        let mut new_fields: Vec<TyStructField> = Vec::new();
        while fields_tmp.len() > 0
            invariant
                engines.wf(),
                engines.de == old(engines).de,
                ts0.len() <= engines.types().len(),
                forall|j: int| 0 <= j < ts0.len() ==> #[trigger] engines.types()[j] == ts0[j],
                map_targets_ok(mapv, ts0.len() as int),
                mapv == type_mapping.mapping@,
                new_fields@.len() + fields_tmp@.len() == fs0.len(),
                fields_tmp@ == fs0.subrange(new_fields@.len() as int, fs0.len() as int),
                forall|j: int|
                    0 <= j < fs0.len() ==> (#[trigger] fs0[j]).type_argument.type_id < ts0.len(),
                spec_subst_fields(ts0, mapv, fs0, 0, Seq::empty()) == spec_subst_fields(
                    engines.types(),
                    mapv,
                    fs0,
                    new_fields@.len() as int,
                    new_fields@,
                ),
            decreases fields_tmp@.len(),
        {
            let ghost k = new_fields@.len() as int;
            let mut f = fields_tmp.remove(0);
            proof {
                assert(f == fs0[k]);
                assert(fields_tmp@ =~= fs0.subrange(k + 1, fs0.len() as int));
                assert(f.type_argument.type_id < ts0.len());
                assert forall|j: int| 0 <= j < mapv.len() implies (#[trigger] mapv[j]).1
                    < engines.types().len() by {
                    assert(mapv[j].1 < ts0.len());
                }
            }
            let nt = engines.subst_type(type_mapping, f.type_argument.type_id);
            f.type_argument.type_id = nt;
            new_fields.push(f);
        }
        self.fields = new_fields;
        let mut params_tmp: Vec<TypeParameter> = Vec::new();
        core::mem::swap(&mut self.type_parameters, &mut params_tmp);
        let ghost ts1 = engines.types();
        let ghost ps0 = params_tmp@;
        let mut new_params: Vec<TypeParameter> = Vec::new();
        while params_tmp.len() > 0
            invariant
                engines.wf(),
                engines.de == old(engines).de,
                ts0.len() <= ts1.len(),
                ts1.len() <= engines.types().len(),
                forall|j: int| 0 <= j < ts1.len() ==> #[trigger] engines.types()[j] == ts1[j],
                forall|j: int| 0 <= j < ts0.len() ==> #[trigger] ts1[j] == ts0[j],
                map_targets_ok(mapv, ts0.len() as int),
                mapv == type_mapping.mapping@,
                new_params@.len() + params_tmp@.len() == ps0.len(),
                params_tmp@ == ps0.subrange(new_params@.len() as int, ps0.len() as int),
                forall|j: int| 0 <= j < ps0.len() ==> (#[trigger] ps0[j]).type_id < ts0.len(),
                spec_subst_params(ts1, mapv, ps0, 0, Seq::empty()) == spec_subst_params(
                    engines.types(),
                    mapv,
                    ps0,
                    new_params@.len() as int,
                    new_params@,
                ),
            decreases params_tmp@.len(),
        {
            let ghost k = new_params@.len() as int;
            let mut p = params_tmp.remove(0);
            proof {
                assert(p == ps0[k]);
                assert(params_tmp@ =~= ps0.subrange(k + 1, ps0.len() as int));
                assert(p.type_id < ts0.len());
                assert(p.type_id < engines.types().len());
                assert forall|j: int| 0 <= j < mapv.len() implies (#[trigger] mapv[j]).1
                    < engines.types().len() by {
                    assert(mapv[j].1 < ts0.len());
                }
            }
            let nt = engines.subst_type(type_mapping, p.type_id);
            p.type_id = nt;
            new_params.push(p);
        }
        self.type_parameters = new_params;
    }
}

proof fn lemma_subst_fields_identity(
    ts: Seq<TypeInfoView>,
    map: Seq<(TypeId, TypeId)>,
    fs: Seq<TyStructField>,
    i: int,
    acc: Seq<TyStructField>,
)
    requires
        types_members_wf(ts),
        types_unique(ts),
        0 <= i <= fs.len(),
        forall|j: int|
            0 <= j < fs.len() ==> (#[trigger] fs[j]).type_argument.type_id < ts.len() && map_free(
                ts,
                map,
                fs[j].type_argument.type_id,
            ),
    ensures
        spec_subst_fields(ts, map, fs, i, acc) == (ts, acc + fs.subrange(i, fs.len() as int)),
    decreases fs.len() - i,
{
    if i >= fs.len() {
        assert(acc + fs.subrange(i, fs.len() as int) =~= acc);
    } else {
        lemma_subst_identity(ts, map, fs[i].type_argument.type_id);
        lemma_subst_fields_identity(ts, map, fs, i + 1, acc.push(fs[i]));
        assert(acc.push(fs[i]) + fs.subrange(i + 1, fs.len() as int) =~= acc + fs.subrange(
            i,
            fs.len() as int,
        ));
    }
}

proof fn lemma_subst_params_identity(
    ts: Seq<TypeInfoView>,
    map: Seq<(TypeId, TypeId)>,
    ps: Seq<TypeParameter>,
    i: int,
    acc: Seq<TypeParameter>,
)
    requires
        types_members_wf(ts),
        types_unique(ts),
        0 <= i <= ps.len(),
        forall|j: int|
            0 <= j < ps.len() ==> (#[trigger] ps[j]).type_id < ts.len() && map_free(
                ts,
                map,
                ps[j].type_id,
            ),
    ensures
        spec_subst_params(ts, map, ps, i, acc) == (ts, acc + ps.subrange(i, ps.len() as int)),
    decreases ps.len() - i,
{
    if i >= ps.len() {
        assert(acc + ps.subrange(i, ps.len() as int) =~= acc);
    } else {
        lemma_subst_identity(ts, map, ps[i].type_id);
        lemma_subst_params_identity(ts, map, ps, i + 1, acc.push(ps[i]));
        assert(acc.push(ps[i]) + ps.subrange(i + 1, ps.len() as int) =~= acc + ps.subrange(
            i,
            ps.len() as int,
        ));
    }
}

/// Substitution idempotence at the declaration level: a map with no
/// entry for any handle reachable from the declaration's fields or type
/// parameters sends both sequences to themselves and leaves the
/// interning table untouched, so the declaration stays engine-equal to
/// its pre-substitution form.
pub proof fn lemma_decl_substitution_idempotent(
    e: Engines,
    map: Seq<(TypeId, TypeId)>,
    d: TyStructDecl,
)
    requires
        e.wf(),
        crate::engines::struct_decl_wf(d, e.types().len() as int),
        forall|j: int|
            0 <= j < d.fields@.len() ==> map_free(
                e.types(),
                map,
                (#[trigger] d.fields@[j]).type_argument.type_id,
            ),
        forall|j: int|
            0 <= j < d.type_parameters@.len() ==> map_free(
                e.types(),
                map,
                (#[trigger] d.type_parameters@[j]).type_id,
            ),
    ensures
        spec_subst_fields(e.types(), map, d.fields@, 0, Seq::empty()) == (e.types(), d.fields@),
        spec_subst_params(e.types(), map, d.type_parameters@, 0, Seq::empty()) == (
            e.types(),
            d.type_parameters@,
        ),
        crate::decl_ops::spec_decl_eq(e.types(), d, d),
{
    let ts = e.types();
    assert(types_members_wf(ts)) by {
        assert forall|i: int| 0 <= i < ts.len() implies match #[trigger] ts[i] {
            TypeInfoView::Tuple(ms) => members_below(ms, i),
            _ => true,
        } by {
            assert(info_wf(ts[i], i, e.structs().len() as int));
        }
    }
    lemma_subst_fields_identity(ts, map, d.fields@, 0, Seq::empty());
    assert(Seq::<TyStructField>::empty() + d.fields@.subrange(0, d.fields@.len() as int)
        =~= d.fields@);
    lemma_subst_params_identity(ts, map, d.type_parameters@, 0, Seq::empty());
    assert(Seq::<TypeParameter>::empty() + d.type_parameters@.subrange(
        0,
        d.type_parameters@.len() as int,
    ) =~= d.type_parameters@);
    crate::decl_ops::lemma_decl_eq_excludes_provenance(ts, d, d);
}

} // verus!
