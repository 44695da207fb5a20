use vstd::prelude::*;
use crate::span::Span;

verus! {

/// A handle into the type-interning engine. Two handles may denote the
/// same descriptor without being the same value: identity questions are
/// decided by resolving through the engine, with handle equality only as
/// a fast path.
pub type TypeId = usize;

/// A handle into the declaration engine's struct table.
pub type DeclId = usize;

/// A type descriptor. Compound descriptors hold handles, never nested
/// descriptors: the interning engine owns the type graph, and a struct
/// descriptor points at its declaration in the declaration engine.
#[derive(Clone, Debug)]
pub enum TypeInfo {
    Unknown,
    Numeric,
    Boolean,
    UnsignedInteger(u64),
    B256,
    StringSlice,
    RawUntypedSlice,
    UnknownGeneric { name: String },
    Tuple(Vec<TypeId>),
    Struct(DeclId),
}

/// The mathematical image of a descriptor: vectors and strings become
/// sequences, everything else is carried as is.
#[verifier::ext_equal]
pub enum TypeInfoView {
    Unknown,
    Numeric,
    Boolean,
    UnsignedInteger(u64),
    B256,
    StringSlice,
    RawUntypedSlice,
    UnknownGeneric { name: Seq<char> },
    Tuple(Seq<TypeId>),
    Struct(DeclId),
}

impl View for TypeInfo {
    type V = TypeInfoView;

    open spec fn view(&self) -> TypeInfoView {
        match self {
            TypeInfo::Unknown => TypeInfoView::Unknown,
            TypeInfo::Numeric => TypeInfoView::Numeric,
            TypeInfo::Boolean => TypeInfoView::Boolean,
            TypeInfo::UnsignedInteger(bits) => TypeInfoView::UnsignedInteger(*bits),
            TypeInfo::B256 => TypeInfoView::B256,
            TypeInfo::StringSlice => TypeInfoView::StringSlice,
            TypeInfo::RawUntypedSlice => TypeInfoView::RawUntypedSlice,
            TypeInfo::UnknownGeneric { name } => TypeInfoView::UnknownGeneric { name: name@ },
            TypeInfo::Tuple(members) => TypeInfoView::Tuple(members@),
            TypeInfo::Struct(decl_id) => TypeInfoView::Struct(*decl_id),
        }
    }
}

impl DeepView for TypeInfo {
    type V = TypeInfoView;

    open spec fn deep_view(&self) -> TypeInfoView {
        self.view()
    }
}

/// Decides structural equality of two descriptor records (handles are
/// compared as values here; engine-mediated equality is a separate,
/// deeper notion). The interning engine uses this to deduplicate.
pub fn type_info_equal(a: &TypeInfo, b: &TypeInfo) -> (r: bool)
    ensures
        r == (a@ == b@),
{
    match (a, b) {
        (TypeInfo::Unknown, TypeInfo::Unknown) => true,
        (TypeInfo::Numeric, TypeInfo::Numeric) => true,
        (TypeInfo::Boolean, TypeInfo::Boolean) => true,
        (TypeInfo::UnsignedInteger(x), TypeInfo::UnsignedInteger(y)) => x == y,
        (TypeInfo::B256, TypeInfo::B256) => true,
        (TypeInfo::StringSlice, TypeInfo::StringSlice) => true,
        (TypeInfo::RawUntypedSlice, TypeInfo::RawUntypedSlice) => true,
        (TypeInfo::UnknownGeneric { name: n1 }, TypeInfo::UnknownGeneric { name: n2 }) => *n1
            == *n2,
        (TypeInfo::Tuple(m1), TypeInfo::Tuple(m2)) => {
            if m1.len() != m2.len() {
                false
            } else {
                let n = m1.len();
                let mut i: usize = 0;
                let mut all_eq = true;
                while i < n
                    invariant
                        i <= n,
                        n == m1@.len(),
                        n == m2@.len(),
                        all_eq == (forall|j: int| 0 <= j < i ==> m1@[j] == m2@[j]),
                    decreases n - i,
                {
                    if m1[i] != m2[i] {
                        all_eq = false;
                    }
                    i = i + 1;
                }
                proof {
                    if all_eq {
                        assert(m1@ =~= m2@);
                    }
                }
                all_eq
            }
        },
        (TypeInfo::Struct(d1), TypeInfo::Struct(d2)) => d1 == d2,
        _ => false,
    }
}

/// Produces a descriptor record with the same mathematical image, for
/// re-interning a resolved descriptor under a fresh handle.
pub fn clone_type_info(t: &TypeInfo) -> (r: TypeInfo)
    ensures
        r@ == t@,
{
    match t {
        TypeInfo::Unknown => TypeInfo::Unknown,
        TypeInfo::Numeric => TypeInfo::Numeric,
        TypeInfo::Boolean => TypeInfo::Boolean,
        TypeInfo::UnsignedInteger(bits) => TypeInfo::UnsignedInteger(*bits),
        TypeInfo::B256 => TypeInfo::B256,
        TypeInfo::StringSlice => TypeInfo::StringSlice,
        TypeInfo::RawUntypedSlice => TypeInfo::RawUntypedSlice,
        TypeInfo::UnknownGeneric { name } => TypeInfo::UnknownGeneric { name: name.clone() },
        TypeInfo::Tuple(ms) => {
            let n = ms.len();
            let mut out: Vec<TypeId> = Vec::new();
            let mut i: usize = 0;
            while i < n
                invariant
                    i <= n,
                    n == ms@.len(),
                    out@ =~= ms@.take(i as int),
                decreases n - i,
            {
                out.push(ms[i]);
                proof {
                    assert(out@ =~= ms@.take(i as int + 1));
                }
                i = i + 1;
            }
            proof {
                assert(out@ =~= ms@);
            }
            TypeInfo::Tuple(out)
        },
        TypeInfo::Struct(decl_id) => TypeInfo::Struct(*decl_id),
    }
}

/// A type handle annotated with where it came from. The span is
/// provenance only; comparisons look at the handles.
#[derive(Clone, Copy, Debug, PartialEq, Eq, Structural)]
pub struct TypeArgument {
    pub type_id: TypeId,
    pub initial_type_id: TypeId,
    pub span: Span,
}

/// A generic parameter of a declaration, bound to the handle of its
/// `UnknownGeneric` descriptor.
#[derive(Clone, Debug)]
pub struct TypeParameter {
    pub name: String,
    pub type_id: TypeId,
    pub initial_type_id: TypeId,
}

/// First match in the substitution entries, scanning from `i`.
pub open spec fn spec_lookup_from(entries: Seq<(TypeId, TypeId)>, tid: TypeId, i: int) -> Option<
    TypeId,
>
    decreases entries.len() - i,
{
    if i < 0 || i >= entries.len() {
        None
    } else if entries[i].0 == tid {
        Some(entries[i].1)
    } else {
        spec_lookup_from(entries, tid, i + 1)
    }
}

pub open spec fn spec_lookup(entries: Seq<(TypeId, TypeId)>, tid: TypeId) -> Option<TypeId> {
    spec_lookup_from(entries, tid, 0)
}

/// A mapping from generic-parameter handles to concrete type handles,
/// applied to every type-bearing part of a declaration during
/// monomorphization.
#[derive(Clone, Debug)]
pub struct TypeSubstMap {
    pub mapping: Vec<(TypeId, TypeId)>,
}

impl TypeSubstMap {
    pub fn new() -> (r: TypeSubstMap)
        ensures
            r.mapping@ =~= Seq::<(TypeId, TypeId)>::empty(),
    {
        TypeSubstMap { mapping: Vec::new() }
    }

    pub fn insert(&mut self, from: TypeId, to: TypeId)
        ensures
            final(self).mapping@ == old(self).mapping@.push((from, to)),
    {
        self.mapping.push((from, to));
    }

    fn lookup_from(&self, tid: TypeId, i: usize) -> (r: Option<TypeId>)
        requires
            i <= self.mapping@.len(),
        ensures
            r == spec_lookup_from(self.mapping@, tid, i as int),
        decreases self.mapping@.len() - i,
    {
        if i >= self.mapping.len() {
            None
        } else if self.mapping[i].0 == tid {
            Some(self.mapping[i].1)
        } else {
            self.lookup_from(tid, i + 1)
        }
    }

    /// The concrete handle this map sends `tid` to, if any.
    pub fn lookup(&self, tid: TypeId) -> (r: Option<TypeId>)
        ensures
            r == spec_lookup(self.mapping@, tid),
    {
        self.lookup_from(tid, 0)
    }
}

} // verus!
