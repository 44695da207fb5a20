use vstd::prelude::*;
use crate::declaration::{TyStructDecl, TyStructField};
use crate::engines::Engines;
use crate::hashing::{
    spec_hash_chars, spec_hash_decl_value, spec_hash_fields, spec_hash_params,
    spec_hash_struct_decl, spec_hash_type,
};
use crate::language::{spec_str_cmp, str_cmp, TyOrdering};
use crate::type_ops::{lemma_type_eq_reflexive, spec_type_cmp, spec_type_eq};
use crate::type_system::{TypeInfoView, TypeParameter};

verus! {

broadcast use vstd::std_specs::vec::group_vec_axioms;

/// Engine-scoped field equality: the name and the engine-resolved type;
/// span and attributes are provenance and take no part.
pub open spec fn spec_field_eq(ts: Seq<TypeInfoView>, a: TyStructField, b: TyStructField) -> bool {
    &&& a.name.text@ == b.name.text@
    &&& spec_type_eq(ts, a.type_argument.type_id, b.type_argument.type_id)
}

pub open spec fn spec_fields_eq(
    ts: Seq<TypeInfoView>,
    fs1: Seq<TyStructField>,
    fs2: Seq<TyStructField>,
) -> bool {
    &&& fs1.len() == fs2.len()
    &&& forall|i: int| 0 <= i < fs1.len() ==> spec_field_eq(ts, #[trigger] fs1[i], fs2[i])
}

pub open spec fn spec_param_eq(ts: Seq<TypeInfoView>, a: TypeParameter, b: TypeParameter) -> bool {
    &&& a.name@ == b.name@
    &&& spec_type_eq(ts, a.type_id, b.type_id)
}

pub open spec fn spec_params_eq(
    ts: Seq<TypeInfoView>,
    ps1: Seq<TypeParameter>,
    ps2: Seq<TypeParameter>,
) -> bool {
    &&& ps1.len() == ps2.len()
    &&& forall|i: int| 0 <= i < ps1.len() ==> spec_param_eq(ts, #[trigger] ps1[i], ps2[i])
}

/// Engine-scoped declaration equality: call-path suffix, field sequence
/// (order-sensitive), type-parameter sequence and visibility. Two
/// physically distinct declarations that agree on these are the same
/// declaration; that is what generic-instantiation caching relies on.
pub open spec fn spec_decl_eq(ts: Seq<TypeInfoView>, a: TyStructDecl, b: TyStructDecl) -> bool {
    &&& a.call_path.suffix.text@ == b.call_path.suffix.text@
    &&& spec_fields_eq(ts, a.fields@, b.fields@)
    &&& spec_params_eq(ts, a.type_parameters@, b.type_parameters@)
    &&& a.visibility == b.visibility
}

impl TyStructField {
    /// Engine-scoped equality of two fields.
    pub fn eq_with_engines(&self, other: &TyStructField, engines: &Engines) -> (r: bool)
        requires
            engines.wf(),
            self.type_argument.type_id < engines.types().len(),
            other.type_argument.type_id < engines.types().len(),
        ensures
            r == spec_field_eq(engines.types(), *self, *other),
    {
        if !(self.name.text == other.name.text) {
            return false;
        }
        engines.type_eq(self.type_argument.type_id, other.type_argument.type_id)
    }

    /// The deterministic field order: lexicographic by name, then by the
    /// engine comparison of the types. Span and attributes take no part.
    pub fn cmp_with_engines(&self, other: &TyStructField, engines: &Engines) -> (r: TyOrdering)
        requires
            engines.wf(),
            self.type_argument.type_id < engines.types().len(),
            other.type_argument.type_id < engines.types().len(),
        ensures
            r == spec_field_cmp(engines.types(), *self, *other),
    {
        let by_name = str_cmp(self.name.text.as_str(), other.name.text.as_str());
        if matches!(by_name, TyOrdering::Equal) {
            engines.type_cmp(self.type_argument.type_id, other.type_argument.type_id)
        } else {
            by_name
        }
    }
}

pub open spec fn spec_field_cmp(
    ts: Seq<TypeInfoView>,
    a: TyStructField,
    b: TyStructField,
) -> TyOrdering {
    if spec_str_cmp(a.name.text@, b.name.text@) == TyOrdering::Equal {
        spec_type_cmp(ts, a.type_argument.type_id, b.type_argument.type_id)
    } else {
        spec_str_cmp(a.name.text@, b.name.text@)
    }
}

impl TyStructDecl {
    /// Engine-scoped declaration equality, as defined by
    /// [`spec_decl_eq`]: provenance-excluding and order-sensitive in the
    /// fields.
    pub fn eq_with_engines(&self, other: &TyStructDecl, engines: &Engines) -> (r: bool)
        requires
            engines.wf(),
            crate::engines::struct_decl_wf(*self, engines.types().len() as int),
            crate::engines::struct_decl_wf(*other, engines.types().len() as int),
        ensures
            r == spec_decl_eq(engines.types(), *self, *other),
    {
        let ghost ts = engines.types();
        if !(self.call_path.suffix.text == other.call_path.suffix.text) {
            return false;
        }
        if self.visibility != other.visibility {
            return false;
        }
        if self.fields.len() != other.fields.len() {
            return false;
        }
        if self.type_parameters.len() != other.type_parameters.len() {
            return false;
        }
        let n = self.fields.len();
        let mut i: usize = 0;
        while i < n
            invariant
                i <= n,
                engines.wf(),
                ts == engines.types(),
                n == self.fields@.len(),
                n == other.fields@.len(),
                crate::engines::struct_decl_wf(*self, engines.types().len() as int),
                crate::engines::struct_decl_wf(*other, engines.types().len() as int),
                forall|j: int| 0 <= j < i ==> spec_field_eq(ts, #[trigger] self.fields@[j], other.fields@[j]),
            decreases n - i,
        {
            let fe = self.fields[i].eq_with_engines(&other.fields[i], engines);
            if !fe {
                return false;
            }
            i = i + 1;
        }
        let m = self.type_parameters.len();
        let mut k: usize = 0;
        while k < m
            invariant
                k <= m,
                engines.wf(),
                ts == engines.types(),
                m == self.type_parameters@.len(),
                m == other.type_parameters@.len(),
                crate::engines::struct_decl_wf(*self, engines.types().len() as int),
                crate::engines::struct_decl_wf(*other, engines.types().len() as int),
                spec_fields_eq(ts, self.fields@, other.fields@),
                forall|j: int|
                    0 <= j < k ==> spec_param_eq(
                        ts,
                        #[trigger] self.type_parameters@[j],
                        other.type_parameters@[j],
                    ),
            decreases m - k,
        {
            if !(self.type_parameters[k].name == other.type_parameters[k].name) {
                return false;
            }
            let pe = engines.type_eq(
                self.type_parameters[k].type_id,
                other.type_parameters[k].type_id,
            );
            if !pe {
                return false;
            }
            k = k + 1;
        }
        true
    }
}

/// Provenance exclusion for equality: declarations that agree on name,
/// field names and type handles, type parameters and visibility — so in
/// everything but spans and attributes — are engine-equal.
pub proof fn lemma_decl_eq_excludes_provenance(
    ts: Seq<TypeInfoView>,
    a: TyStructDecl,
    b: TyStructDecl,
)
    requires
        a.call_path.suffix.text@ == b.call_path.suffix.text@,
        a.visibility == b.visibility,
        a.fields@.len() == b.fields@.len(),
        forall|i: int|
            0 <= i < a.fields@.len() ==> (#[trigger] a.fields@[i]).name.text@
                == b.fields@[i].name.text@ && a.fields@[i].type_argument.type_id
                == b.fields@[i].type_argument.type_id,
        a.type_parameters@.len() == b.type_parameters@.len(),
        forall|i: int|
            0 <= i < a.type_parameters@.len() ==> (#[trigger] a.type_parameters@[i]).name@
                == b.type_parameters@[i].name@ && a.type_parameters@[i].type_id
                == b.type_parameters@[i].type_id,
    ensures
        spec_decl_eq(ts, a, b),
{
    assert forall|i: int| 0 <= i < a.fields@.len() implies spec_field_eq(
        ts,
        #[trigger] a.fields@[i],
        b.fields@[i],
    ) by {
        lemma_type_eq_reflexive(ts, a.fields@[i].type_argument.type_id);
    }
    assert forall|i: int| 0 <= i < a.type_parameters@.len() implies spec_param_eq(
        ts,
        #[trigger] a.type_parameters@[i],
        b.type_parameters@[i],
    ) by {
        lemma_type_eq_reflexive(ts, a.type_parameters@[i].type_id);
    }
}

proof fn lemma_hash_fields_congruent(
    ts: Seq<TypeInfoView>,
    ds: Seq<TyStructDecl>,
    fs1: Seq<TyStructField>,
    fs2: Seq<TyStructField>,
    i: int,
    seen: Seq<bool>,
    h: u64,
)
    requires
        fs1.len() == fs2.len(),
        forall|j: int|
            0 <= j < fs1.len() ==> (#[trigger] fs1[j]).name.text@ == fs2[j].name.text@
                && fs1[j].type_argument.type_id == fs2[j].type_argument.type_id,
    ensures
        spec_hash_fields(ts, ds, fs1, i, seen, h) == spec_hash_fields(ts, ds, fs2, i, seen, h),
    decreases fs1.len() - i,
{
    if 0 <= i < fs1.len() {
        let h1 = crate::hashing::mix(h, 30);
        assert(spec_hash_chars(fs1[i].name.text@, 0, h1) == spec_hash_chars(
            fs2[i].name.text@,
            0,
            h1,
        ));
        lemma_hash_fields_congruent(
            ts,
            ds,
            fs1,
            fs2,
            i + 1,
            seen,
            spec_hash_type(
                ts,
                ds,
                fs1[i].type_argument.type_id,
                seen,
                crate::hashing::mix(spec_hash_chars(fs1[i].name.text@, 0, h1), 31),
            ),
        );
    }
}

proof fn lemma_hash_params_congruent(
    ts: Seq<TypeInfoView>,
    ds: Seq<TyStructDecl>,
    ps1: Seq<TypeParameter>,
    ps2: Seq<TypeParameter>,
    i: int,
    seen: Seq<bool>,
    h: u64,
)
    requires
        ps1.len() == ps2.len(),
        forall|j: int|
            0 <= j < ps1.len() ==> (#[trigger] ps1[j]).name@ == ps2[j].name@ && ps1[j].type_id
                == ps2[j].type_id,
    ensures
        spec_hash_params(ts, ds, ps1, i, seen, h) == spec_hash_params(ts, ds, ps2, i, seen, h),
    decreases ps1.len() - i,
{
    if 0 <= i < ps1.len() {
        let h1 = crate::hashing::mix(h, 32);
        lemma_hash_params_congruent(
            ts,
            ds,
            ps1,
            ps2,
            i + 1,
            seen,
            spec_hash_type(
                ts,
                ds,
                ps1[i].type_id,
                seen,
                crate::hashing::mix(spec_hash_chars(ps1[i].name@, 0, h1), 33),
            ),
        );
    }
}

/// Provenance exclusion for hashing: declarations that differ only in
/// spans and attributes hash to the same value.
pub proof fn lemma_hash_excludes_provenance(
    ts: Seq<TypeInfoView>,
    ds: Seq<TyStructDecl>,
    a: TyStructDecl,
    b: TyStructDecl,
)
    requires
        a.call_path.suffix.text@ == b.call_path.suffix.text@,
        a.visibility == b.visibility,
        a.fields@.len() == b.fields@.len(),
        forall|i: int|
            0 <= i < a.fields@.len() ==> (#[trigger] a.fields@[i]).name.text@
                == b.fields@[i].name.text@ && a.fields@[i].type_argument.type_id
                == b.fields@[i].type_argument.type_id,
        a.type_parameters@.len() == b.type_parameters@.len(),
        forall|i: int|
            0 <= i < a.type_parameters@.len() ==> (#[trigger] a.type_parameters@[i]).name@
                == b.type_parameters@[i].name@ && a.type_parameters@[i].type_id
                == b.type_parameters@[i].type_id,
    ensures
        spec_hash_struct_decl(ts, ds, a) == spec_hash_struct_decl(ts, ds, b),
{
    let seen = crate::hashing::all_false(ds.len() as int);
    let h1a = spec_hash_chars(a.call_path.suffix.text@, 0, crate::hashing::mix(0, 20));
    let h1b = spec_hash_chars(b.call_path.suffix.text@, 0, crate::hashing::mix(0, 20));
    assert(h1a == h1b);
    lemma_hash_fields_congruent(
        ts,
        ds,
        a.fields@,
        b.fields@,
        0,
        seen,
        crate::hashing::mix(h1a, 21),
    );
    let h2 = spec_hash_fields(ts, ds, a.fields@, 0, seen, crate::hashing::mix(h1a, 21));
    lemma_hash_params_congruent(
        ts,
        ds,
        a.type_parameters@,
        b.type_parameters@,
        0,
        seen,
        crate::hashing::mix(h2, 22),
    );
}

} // verus!
