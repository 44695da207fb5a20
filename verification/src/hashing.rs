use vstd::prelude::*;
use crate::declaration::{TyStructDecl, TyStructField};
use crate::engines::{info_wf, members_below, Engines};
use crate::language::Visibility;
use crate::type_system::{DeclId, TypeId, TypeInfo, TypeInfoView, TypeParameter};

verus! {

broadcast use vstd::std_specs::vec::group_vec_axioms;

/// One mixing step of the hash: rotate and fold in the next word.
/// Shifts and xor never overflow, so the spec is the code.
pub open spec fn mix(h: u64, v: u64) -> u64 {
    ((h << 1) | (h >> 63)) ^ v
}

fn mix_ex(h: u64, v: u64) -> (r: u64)
    ensures
        r == mix(h, v),
{
    ((h << 1) | (h >> 63)) ^ v
}

/// Folds the characters of `s` from position `i` into the hash.
pub open spec fn spec_hash_chars(s: Seq<char>, i: int, h: u64) -> u64
    decreases s.len() - i,
{
    if i < 0 || i >= s.len() {
        h
    } else {
        spec_hash_chars(s, i + 1, mix(h, s[i] as u64))
    }
}

fn hash_chars_ex(s: &str, i: usize, len: usize, h: u64) -> (r: u64)
    requires
        len == s@.len(),
    ensures
        r == spec_hash_chars(s@, i as int, h),
    decreases s@.len() - i,
{
    if i >= len {
        h
    } else {
        let c = s.get_char(i);
        hash_chars_ex(s, i + 1, len, mix_ex(h, c as u64))
    }
}

/// How many declarations the cycle guard has not visited yet, counting
/// from position `i`: the measure that makes recursive hashing finite.
pub open spec fn count_false(s: Seq<bool>, i: int) -> nat
    decreases s.len() - i,
{
    if i < 0 || i >= s.len() {
        0
    } else {
        (if !s[i] {
            1nat
        } else {
            0nat
        }) + count_false(s, i + 1)
    }
}

/// Marking one unvisited declaration as visited shrinks the measure by
/// exactly one ahead of the mark, and not at all behind it.
proof fn lemma_count_false_update(s: Seq<bool>, d: int, i: int)
    requires
        0 <= i,
        0 <= d < s.len(),
        !s[d],
    ensures
        count_false(s.update(d, true), i) == if i <= d {
            count_false(s, i) - 1
        } else {
            count_false(s, i) as int
        },
    decreases s.len() - i,
{
    if i < s.len() {
        lemma_count_false_update(s, d, i + 1);
    }
}

/// The code a visibility contributes to the hash.
pub open spec fn vis_code(v: Visibility) -> u64 {
    match v {
        Visibility::Private => 40,
        Visibility::Public => 41,
    }
}

/// Engine-scoped hash of the type behind `tid`. Member handles are
/// folded in recursively; a struct reference descends into the
/// declaration engine under the cycle guard `seen`.
pub open spec fn spec_hash_type(
    ts: Seq<TypeInfoView>,
    ds: Seq<TyStructDecl>,
    tid: TypeId,
    seen: Seq<bool>,
    h: u64,
) -> u64
    decreases count_false(seen, 0), 1int, tid + 1, 0int,
{
    if tid >= ts.len() {
        mix(h, 0)
    } else {
        match ts[tid as int] {
            TypeInfoView::Unknown => mix(h, 1),
            TypeInfoView::Numeric => mix(h, 2),
            TypeInfoView::Boolean => mix(h, 3),
            TypeInfoView::UnsignedInteger(bits) => mix(mix(h, 4), bits),
            TypeInfoView::B256 => mix(h, 5),
            TypeInfoView::StringSlice => mix(h, 6),
            TypeInfoView::RawUntypedSlice => mix(h, 7),
            TypeInfoView::UnknownGeneric { name } => spec_hash_chars(name, 0, mix(h, 8)),
            TypeInfoView::Tuple(ms) => spec_hash_members(ts, ds, ms, tid, 0, seen, mix(h, 9)),
            TypeInfoView::Struct(d) => spec_hash_decl_id(ts, ds, d, seen, mix(h, 10)),
        }
    }
}

pub open spec fn spec_hash_members(
    ts: Seq<TypeInfoView>,
    ds: Seq<TyStructDecl>,
    ms: Seq<TypeId>,
    tid: TypeId,
    i: int,
    seen: Seq<bool>,
    h: u64,
) -> u64
    decreases count_false(seen, 0), 1int, tid, ms.len() - i,
{
    if i < 0 || i >= ms.len() {
        h
    } else if ms[i] < tid {
        spec_hash_members(ts, ds, ms, tid, i + 1, seen, spec_hash_type(ts, ds, ms[i], seen, h))
    } else {
        spec_hash_members(ts, ds, ms, tid, i + 1, seen, mix(h, ms[i] as u64))
    }
}

/// Hash of a struct reference: an already-visited declaration
/// contributes a fixed code instead of recursing, which is what makes
/// hashing terminate on self-referential generic instantiations.
pub open spec fn spec_hash_decl_id(
    ts: Seq<TypeInfoView>,
    ds: Seq<TyStructDecl>,
    d: DeclId,
    seen: Seq<bool>,
    h: u64,
) -> u64
    decreases count_false(seen, 0), 0int, 0int, 0int,
{
    if d >= ds.len() || d >= seen.len() {
        mix(h, 11)
    } else if seen[d as int] {
        mix(h, 12)
    } else if count_false(seen.update(d as int, true), 0) < count_false(seen, 0) {
        spec_hash_decl_value(ts, ds, ds[d as int], seen.update(d as int, true), mix(h, 13))
    } else {
        mix(h, 14)
    }
}

pub open spec fn spec_hash_fields(
    ts: Seq<TypeInfoView>,
    ds: Seq<TyStructDecl>,
    fs: Seq<TyStructField>,
    i: int,
    seen: Seq<bool>,
    h: u64,
) -> u64
    decreases count_false(seen, 0), 2int, 0int, fs.len() - i,
{
    if i < 0 || i >= fs.len() {
        h
    } else {
        let h1 = spec_hash_chars(fs[i].name.text@, 0, mix(h, 30));
        let h2 = spec_hash_type(ts, ds, fs[i].type_argument.type_id, seen, mix(h1, 31));
        spec_hash_fields(ts, ds, fs, i + 1, seen, h2)
    }
}

pub open spec fn spec_hash_params(
    ts: Seq<TypeInfoView>,
    ds: Seq<TyStructDecl>,
    ps: Seq<TypeParameter>,
    i: int,
    seen: Seq<bool>,
    h: u64,
) -> u64
    decreases count_false(seen, 0), 2int, 0int, ps.len() - i,
{
    if i < 0 || i >= ps.len() {
        h
    } else {
        let h1 = spec_hash_chars(ps[i].name@, 0, mix(h, 32));
        let h2 = spec_hash_type(ts, ds, ps[i].type_id, seen, mix(h1, 33));
        spec_hash_params(ts, ds, ps, i + 1, seen, h2)
    }
}

/// Engine-scoped hash of a struct declaration's non-provenance parts:
/// name, fields (name and type, in declaration order), type parameters,
/// visibility. Spans and attributes never enter.
pub open spec fn spec_hash_decl_value(
    ts: Seq<TypeInfoView>,
    ds: Seq<TyStructDecl>,
    d: TyStructDecl,
    seen: Seq<bool>,
    h: u64,
) -> u64
    decreases count_false(seen, 0), 3int, 0int, 0int,
{
    let h1 = spec_hash_chars(d.call_path.suffix.text@, 0, mix(h, 20));
    let h2 = spec_hash_fields(ts, ds, d.fields@, 0, seen, mix(h1, 21));
    let h3 = spec_hash_params(ts, ds, d.type_parameters@, 0, seen, mix(h2, 22));
    mix(h3, vis_code(d.visibility))
}

/// An unvisited guard for every declaration in the engine.
pub open spec fn all_false(n: int) -> Seq<bool> {
    Seq::new(n as nat, |i: int| false)
}

/// The whole-declaration hash the public operation computes.
pub open spec fn spec_hash_struct_decl(
    ts: Seq<TypeInfoView>,
    ds: Seq<TyStructDecl>,
    d: TyStructDecl,
) -> u64 {
    spec_hash_decl_value(ts, ds, d, all_false(ds.len() as int), 0)
}

/// The whole-field hash: the field's name, then its type.
pub open spec fn spec_hash_struct_field(
    ts: Seq<TypeInfoView>,
    ds: Seq<TyStructDecl>,
    f: TyStructField,
) -> u64 {
    spec_hash_type(
        ts,
        ds,
        f.type_argument.type_id,
        all_false(ds.len() as int),
        spec_hash_chars(f.name.text@, 0, 0),
    )
}

/// A copy of the guard with declaration `d` marked visited.
fn mark_seen(seen: &Vec<bool>, d: usize) -> (r: Vec<bool>)
    requires
        d < seen@.len(),
    ensures
        r@ == seen@.update(d as int, true),
{
    let n = seen.len();
    let mut out: Vec<bool> = Vec::new();
    let mut i: usize = 0;
    while i < n
        invariant
            i <= n,
            n == seen@.len(),
            out@ =~= seen@.take(i as int),
        decreases n - i,
    {
        out.push(seen[i]);
        proof {
            assert(out@ =~= seen@.take(i as int + 1));
        }
        i = i + 1;
    }
    proof {
        assert(out@ =~= seen@);
    }
    out.set(d, true);
    out
}

fn hash_type_ex(engines: &Engines, tid: TypeId, seen: &Vec<bool>, h: u64) -> (r: u64)
    requires
        engines.wf(),
        seen@.len() == engines.structs().len(),
    ensures
        r == spec_hash_type(engines.types(), engines.structs(), tid, seen@, h),
    decreases count_false(seen@, 0), 1int, tid + 1, 0int,
{
    if tid >= engines.type_count() {
        return mix_ex(h, 0);
    }
    let t = engines.get_type(tid);
    match t {
        TypeInfo::Unknown => mix_ex(h, 1),
        TypeInfo::Numeric => mix_ex(h, 2),
        TypeInfo::Boolean => mix_ex(h, 3),
        TypeInfo::UnsignedInteger(bits) => mix_ex(mix_ex(h, 4), *bits),
        TypeInfo::B256 => mix_ex(h, 5),
        TypeInfo::StringSlice => mix_ex(h, 6),
        TypeInfo::RawUntypedSlice => mix_ex(h, 7),
        TypeInfo::UnknownGeneric { name } => {
            let len = name.as_str().unicode_len();
            hash_chars_ex(name.as_str(), 0, len, mix_ex(h, 8))
        },
        TypeInfo::Tuple(ms) => {
            proof {
                assert(info_wf(
                    engines.types()[tid as int],
                    tid as int,
                    engines.structs().len() as int,
                ));
                assert(info_wf(
                    TypeInfoView::Tuple(ms@),
                    tid as int,
                    engines.structs().len() as int,
                ));
                assert(members_below(ms@, tid as int));
            }
            hash_members_ex(engines, ms, tid, 0, seen, mix_ex(h, 9))
        },
        TypeInfo::Struct(d) => hash_decl_id_ex(engines, *d, seen, mix_ex(h, 10)),
    }
}

fn hash_members_ex(
    engines: &Engines,
    ms: &Vec<TypeId>,
    tid: TypeId,
    i: usize,
    seen: &Vec<bool>,
    h: u64,
) -> (r: u64)
    requires
        engines.wf(),
        seen@.len() == engines.structs().len(),
        i <= ms@.len(),
    ensures
        r == spec_hash_members(engines.types(), engines.structs(), ms@, tid, i as int, seen@, h),
    decreases count_false(seen@, 0), 1int, tid, ms@.len() - i,
{
    if i >= ms.len() {
        h
    } else {
        let m = ms[i];
        let hm = if m < tid {
            hash_type_ex(engines, m, seen, h)
        } else {
            mix_ex(h, m as u64)
        };
        hash_members_ex(engines, ms, tid, i + 1, seen, hm)
    }
}

fn hash_decl_id_ex(engines: &Engines, d: DeclId, seen: &Vec<bool>, h: u64) -> (r: u64)
    requires
        engines.wf(),
        seen@.len() == engines.structs().len(),
    ensures
        r == spec_hash_decl_id(engines.types(), engines.structs(), d, seen@, h),
    decreases count_false(seen@, 0), 0int, 0int, 0int,
{
    if d >= engines.struct_count() {
        return mix_ex(h, 11);
    }
    if seen[d] {
        return mix_ex(h, 12);
    }
    let seen2 = mark_seen(seen, d);
    proof {
        lemma_count_false_update(seen@, d as int, 0);
    }
    let decl = engines.get_struct(d);
    hash_decl_value_ex(engines, decl, &seen2, mix_ex(h, 13))
}

fn hash_decl_value_ex(engines: &Engines, decl: &TyStructDecl, seen: &Vec<bool>, h: u64) -> (r: u64)
    requires
        engines.wf(),
        seen@.len() == engines.structs().len(),
    ensures
        r == spec_hash_decl_value(engines.types(), engines.structs(), *decl, seen@, h),
    decreases count_false(seen@, 0), 3int, 0int, 0int,
{
    let name = decl.call_path.suffix.text.as_str();
    let name_len = name.unicode_len();
    let h1 = hash_chars_ex(name, 0, name_len, mix_ex(h, 20));
    let h2 = hash_fields_ex(engines, &decl.fields, 0, seen, mix_ex(h1, 21));
    let h3 = hash_params_ex(engines, &decl.type_parameters, 0, seen, mix_ex(h2, 22));
    let vis: u64 = match decl.visibility {
        Visibility::Private => 40,
        Visibility::Public => 41,
    };
    mix_ex(h3, vis)
}

fn hash_fields_ex(
    engines: &Engines,
    fs: &Vec<TyStructField>,
    i: usize,
    seen: &Vec<bool>,
    h: u64,
) -> (r: u64)
    requires
        engines.wf(),
        seen@.len() == engines.structs().len(),
        i <= fs@.len(),
    ensures
        r == spec_hash_fields(engines.types(), engines.structs(), fs@, i as int, seen@, h),
    decreases count_false(seen@, 0), 2int, 0int, fs@.len() - i,
{
    if i >= fs.len() {
        h
    } else {
        let name = fs[i].name.text.as_str();
        let name_len = name.unicode_len();
        let h1 = hash_chars_ex(name, 0, name_len, mix_ex(h, 30));
        let h2 = hash_type_ex(engines, fs[i].type_argument.type_id, seen, mix_ex(h1, 31));
        hash_fields_ex(engines, fs, i + 1, seen, h2)
    }
}

fn hash_params_ex(
    engines: &Engines,
    ps: &Vec<TypeParameter>,
    i: usize,
    seen: &Vec<bool>,
    h: u64,
) -> (r: u64)
    requires
        engines.wf(),
        seen@.len() == engines.structs().len(),
        i <= ps@.len(),
    ensures
        r == spec_hash_params(engines.types(), engines.structs(), ps@, i as int, seen@, h),
    decreases count_false(seen@, 0), 2int, 0int, ps@.len() - i,
{
    if i >= ps.len() {
        h
    } else {
        let name = ps[i].name.as_str();
        let name_len = name.unicode_len();
        let h1 = hash_chars_ex(name, 0, name_len, mix_ex(h, 32));
        let h2 = hash_type_ex(engines, ps[i].type_id, seen, mix_ex(h1, 33));
        hash_params_ex(engines, ps, i + 1, seen, h2)
    }
}

/// An all-unvisited guard, one flag per declaration in the engine.
fn fresh_guard(n: usize) -> (r: Vec<bool>)
    ensures
        r@ == all_false(n as int),
{
    let mut out: Vec<bool> = Vec::new();
    let mut i: usize = 0;
    while i < n
        invariant
            i <= n,
            out@ =~= all_false(i as int),
        decreases n - i,
    {
        out.push(false);
        proof {
            assert(out@ =~= all_false(i as int + 1));
        }
        i = i + 1;
    }
    out
}

/// The hash of a bare string, as the character fold from an empty
/// state; storage layout uses it to derive slot keys from field names.
pub fn hash_str(s: &str) -> (r: u64)
    ensures
        r == spec_hash_chars(s@, 0, 0),
{
    let len = s.unicode_len();
    hash_chars_ex(s, 0, len, 0)
}

impl TyStructDecl {
    /// The engine-scoped, provenance-excluding hash of this declaration.
    /// The visited-set guard bounds the recursion, so the hash is total
    /// even on a struct whose fields reach its own generic instantiation.
    pub fn hash_with_engines(&self, engines: &Engines) -> (r: u64)
        requires
            engines.wf(),
        ensures
            r == spec_hash_struct_decl(engines.types(), engines.structs(), *self),
    {
        let guard = fresh_guard(engines.struct_count());
        hash_decl_value_ex(engines, self, &guard, 0)
    }
}

impl TyStructField {
    /// The engine-scoped, provenance-excluding hash of one field: its
    /// name, then its type.
    pub fn hash_with_engines(&self, engines: &Engines) -> (r: u64)
        requires
            engines.wf(),
        ensures
            r == spec_hash_struct_field(engines.types(), engines.structs(), *self),
    {
        let name = self.name.text.as_str();
        let name_len = name.unicode_len();
        let h = hash_chars_ex(name, 0, name_len, 0);
        let guard = fresh_guard(engines.struct_count());
        hash_type_ex(engines, self.type_argument.type_id, &guard, h)
    }
}

} // verus!
