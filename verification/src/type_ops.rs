use vstd::prelude::*;
use crate::engines::{info_wf, members_below, Engines};
use crate::language::{spec_str_cmp, str_cmp, TyOrdering};
use crate::type_system::{TypeId, TypeInfo, TypeInfoView};

verus! {

broadcast use vstd::std_specs::vec::group_vec_axioms;

/// Engine-mediated equality of two type handles: both sides are
/// resolved and compared structurally, member handles recursively.
/// Nested struct references compare by declaration handle, which the
/// declaration engine never reuses.
pub open spec fn spec_type_eq(ts: Seq<TypeInfoView>, a: TypeId, b: TypeId) -> bool
    decreases a + b, 1int, 0int,
{
    if a == b {
        true
    } else if a >= ts.len() || b >= ts.len() {
        false
    } else {
        match (ts[a as int], ts[b as int]) {
            (TypeInfoView::Unknown, TypeInfoView::Unknown) => true,
            (TypeInfoView::Numeric, TypeInfoView::Numeric) => true,
            (TypeInfoView::Boolean, TypeInfoView::Boolean) => true,
            (TypeInfoView::UnsignedInteger(x), TypeInfoView::UnsignedInteger(y)) => x == y,
            (TypeInfoView::B256, TypeInfoView::B256) => true,
            (TypeInfoView::StringSlice, TypeInfoView::StringSlice) => true,
            (TypeInfoView::RawUntypedSlice, TypeInfoView::RawUntypedSlice) => true,
            (
                TypeInfoView::UnknownGeneric { name: n1 },
                TypeInfoView::UnknownGeneric { name: n2 },
            ) => n1 == n2,
            (TypeInfoView::Tuple(m1), TypeInfoView::Tuple(m2)) => m1.len() == m2.len()
                && spec_tuple_eq(ts, m1, m2, a, b, 0),
            (TypeInfoView::Struct(d1), TypeInfoView::Struct(d2)) => d1 == d2,
            _ => false,
        }
    }
}

/// Pairwise engine equality of tuple members from position `i` on. In a
/// well-formed engine a member handle always lies below its compound's
/// handle; the fallback compares handles directly.
pub open spec fn spec_tuple_eq(
    ts: Seq<TypeInfoView>,
    m1: Seq<TypeId>,
    m2: Seq<TypeId>,
    a: TypeId,
    b: TypeId,
    i: int,
) -> bool
    decreases a + b, 0int, m1.len() - i,
{
    if i < 0 || i >= m1.len() || i >= m2.len() {
        true
    } else if m1[i] < a && m2[i] < b {
        spec_type_eq(ts, m1[i], m2[i]) && spec_tuple_eq(ts, m1, m2, a, b, i + 1)
    } else {
        m1[i] == m2[i] && spec_tuple_eq(ts, m1, m2, a, b, i + 1)
    }
}

/// Engine equality is reflexive on every handle.
pub proof fn lemma_type_eq_reflexive(ts: Seq<TypeInfoView>, a: TypeId)
    ensures
        spec_type_eq(ts, a, a),
{
}

pub open spec fn spec_usize_cmp(x: usize, y: usize) -> TyOrdering {
    if x < y {
        TyOrdering::Less
    } else if x > y {
        TyOrdering::Greater
    } else {
        TyOrdering::Equal
    }
}

pub open spec fn spec_u64_cmp(x: u64, y: u64) -> TyOrdering {
    if x < y {
        TyOrdering::Less
    } else if x > y {
        TyOrdering::Greater
    } else {
        TyOrdering::Equal
    }
}

/// The rank a descriptor's variant takes in the deterministic ordering.
pub open spec fn info_rank(t: TypeInfoView) -> int {
    match t {
        TypeInfoView::Unknown => 0,
        TypeInfoView::Numeric => 1,
        TypeInfoView::Boolean => 2,
        TypeInfoView::UnsignedInteger(_) => 3,
        TypeInfoView::B256 => 4,
        TypeInfoView::StringSlice => 5,
        TypeInfoView::RawUntypedSlice => 6,
        TypeInfoView::UnknownGeneric { .. } => 7,
        TypeInfoView::Tuple(_) => 8,
        TypeInfoView::Struct(_) => 9,
    }
}

/// A deterministic, engine-mediated total order on type handles: first
/// by variant rank, then by payload, tuples lexicographically and then
/// by length.
pub open spec fn spec_type_cmp(ts: Seq<TypeInfoView>, a: TypeId, b: TypeId) -> TyOrdering
    decreases a + b, 1int, 0int,
{
    if a == b {
        TyOrdering::Equal
    } else if a >= ts.len() || b >= ts.len() {
        TyOrdering::Equal
    } else if info_rank(ts[a as int]) < info_rank(ts[b as int]) {
        TyOrdering::Less
    } else if info_rank(ts[a as int]) > info_rank(ts[b as int]) {
        TyOrdering::Greater
    } else {
        match (ts[a as int], ts[b as int]) {
            (TypeInfoView::UnsignedInteger(x), TypeInfoView::UnsignedInteger(y)) => spec_u64_cmp(
                x,
                y,
            ),
            (
                TypeInfoView::UnknownGeneric { name: n1 },
                TypeInfoView::UnknownGeneric { name: n2 },
            ) => spec_str_cmp(n1, n2),
            (TypeInfoView::Tuple(m1), TypeInfoView::Tuple(m2)) => spec_tuple_cmp(
                ts,
                m1,
                m2,
                a,
                b,
                0,
            ),
            (TypeInfoView::Struct(d1), TypeInfoView::Struct(d2)) => spec_usize_cmp(d1, d2),
            _ => TyOrdering::Equal,
        }
    }
}

pub open spec fn spec_tuple_cmp(
    ts: Seq<TypeInfoView>,
    m1: Seq<TypeId>,
    m2: Seq<TypeId>,
    a: TypeId,
    b: TypeId,
    i: int,
) -> TyOrdering
    decreases a + b, 0int, m1.len() - i,
{
    if i < 0 || (i >= m1.len() && i >= m2.len()) {
        TyOrdering::Equal
    } else if i >= m1.len() {
        TyOrdering::Less
    } else if i >= m2.len() {
        TyOrdering::Greater
    } else {
        let head = if m1[i] < a && m2[i] < b {
            spec_type_cmp(ts, m1[i], m2[i])
        } else {
            spec_usize_cmp(m1[i], m2[i])
        };
        if head == TyOrdering::Equal {
            spec_tuple_cmp(ts, m1, m2, a, b, i + 1)
        } else {
            head
        }
    }
}

impl Engines {
    /// Engine-mediated structural equality, with handle equality as the
    /// fast path.
    pub fn type_eq(&self, a: TypeId, b: TypeId) -> (r: bool)
        requires
            self.wf(),
            a < self.types().len(),
            b < self.types().len(),
        ensures
            r == spec_type_eq(self.types(), a, b),
        decreases a + b, 1int, 0int,
    {
        if a == b {
            return true;
        }
        let ghost ts = self.types();
        let ta = self.get_type(a);
        let tb = self.get_type(b);
        match (ta, tb) {
            (TypeInfo::Unknown, TypeInfo::Unknown) => true,
            (TypeInfo::Numeric, TypeInfo::Numeric) => true,
            (TypeInfo::Boolean, TypeInfo::Boolean) => true,
            (TypeInfo::UnsignedInteger(x), TypeInfo::UnsignedInteger(y)) => x == y,
            (TypeInfo::B256, TypeInfo::B256) => true,
            (TypeInfo::StringSlice, TypeInfo::StringSlice) => true,
            (TypeInfo::RawUntypedSlice, TypeInfo::RawUntypedSlice) => true,
            (TypeInfo::UnknownGeneric { name: n1 }, TypeInfo::UnknownGeneric { name: n2 }) => *n1
                == *n2,
            (TypeInfo::Tuple(m1), TypeInfo::Tuple(m2)) => {
                if m1.len() != m2.len() {
                    return false;
                }
                proof {
                    assert(info_wf(ts[a as int], a as int, self.structs().len() as int));
                    assert(info_wf(ts[b as int], b as int, self.structs().len() as int));
                }
                let n = m1.len();
                let mut i: usize = 0;
                while i < n
                    invariant
                        i <= n,
                        self.wf(),
                        a < ts.len(),
                        b < ts.len(),
                        ts == self.types(),
                        n == m1@.len(),
                        n == m2@.len(),
                        ts[a as int] == TypeInfoView::Tuple(m1@),
                        ts[b as int] == TypeInfoView::Tuple(m2@),
                        a != b,
                        spec_tuple_eq(ts, m1@, m2@, a, b, 0) == spec_tuple_eq(
                            ts,
                            m1@,
                            m2@,
                            a,
                            b,
                            i as int,
                        ),
                    decreases n - i,
                {
                    proof {
                        assert(info_wf(
                            TypeInfoView::Tuple(m1@),
                            a as int,
                            self.structs().len() as int,
                        ));
                        assert(info_wf(
                            TypeInfoView::Tuple(m2@),
                            b as int,
                            self.structs().len() as int,
                        ));
                        assert(members_below(m1@, a as int));
                        assert(members_below(m2@, b as int));
                        assert(m1@[i as int] < a);
                        assert(m2@[i as int] < b);
                    }
                    let e = self.type_eq(m1[i], m2[i]);
                    if !e {
                        return false;
                    }
                    i = i + 1;
                }
                true
            },
            (TypeInfo::Struct(d1), TypeInfo::Struct(d2)) => d1 == d2,
            _ => false,
        }
    }

    /// The deterministic, engine-mediated order on type handles.
    pub fn type_cmp(&self, a: TypeId, b: TypeId) -> (r: TyOrdering)
        requires
            self.wf(),
            a < self.types().len(),
            b < self.types().len(),
        ensures
            r == spec_type_cmp(self.types(), a, b),
        decreases a + b, 1int, 0int,
    {
        if a == b {
            return TyOrdering::Equal;
        }
        let ghost ts = self.types();
        let ta = self.get_type(a);
        let tb = self.get_type(b);
        let ra = info_rank_ex(ta);
        let rb = info_rank_ex(tb);
        if ra < rb {
            return TyOrdering::Less;
        }
        if ra > rb {
            return TyOrdering::Greater;
        }
        match (ta, tb) {
            (TypeInfo::UnsignedInteger(x), TypeInfo::UnsignedInteger(y)) => {
                if *x < *y {
                    TyOrdering::Less
                } else if *x > *y {
                    TyOrdering::Greater
                } else {
                    TyOrdering::Equal
                }
            },
            (TypeInfo::UnknownGeneric { name: n1 }, TypeInfo::UnknownGeneric { name: n2 }) => {
                str_cmp(n1.as_str(), n2.as_str())
            },
            (TypeInfo::Tuple(m1), TypeInfo::Tuple(m2)) => {
                proof {
                    assert(info_wf(ts[a as int], a as int, self.structs().len() as int));
                    assert(info_wf(ts[b as int], b as int, self.structs().len() as int));
                }
                let n1 = m1.len();
                let n2 = m2.len();
                let mut i: usize = 0;
                loop
                    invariant
                        i <= n1 || i <= n2,
                        self.wf(),
                        a < ts.len(),
                        b < ts.len(),
                        ts == self.types(),
                        n1 == m1@.len(),
                        n2 == m2@.len(),
                        ts[a as int] == TypeInfoView::Tuple(m1@),
                        ts[b as int] == TypeInfoView::Tuple(m2@),
                        a != b,
                        spec_tuple_cmp(ts, m1@, m2@, a, b, 0) == spec_tuple_cmp(
                            ts,
                            m1@,
                            m2@,
                            a,
                            b,
                            i as int,
                        ),
                    decreases n1 + n2 - i,
                {
                    if i >= n1 && i >= n2 {
                        return TyOrdering::Equal;
                    }
                    if i >= n1 {
                        return TyOrdering::Less;
                    }
                    if i >= n2 {
                        return TyOrdering::Greater;
                    }
                    proof {
                        assert(info_wf(
                            TypeInfoView::Tuple(m1@),
                            a as int,
                            self.structs().len() as int,
                        ));
                        assert(info_wf(
                            TypeInfoView::Tuple(m2@),
                            b as int,
                            self.structs().len() as int,
                        ));
                        assert(members_below(m1@, a as int));
                        assert(members_below(m2@, b as int));
                        assert(m1@[i as int] < a);
                        assert(m2@[i as int] < b);
                    }
                    let head = self.type_cmp(m1[i], m2[i]);
                    if !matches!(head, TyOrdering::Equal) {
                        return head;
                    }
                    i = i + 1;
                }
            },
            (TypeInfo::Struct(d1), TypeInfo::Struct(d2)) => {
                if *d1 < *d2 {
                    TyOrdering::Less
                } else if *d1 > *d2 {
                    TyOrdering::Greater
                } else {
                    TyOrdering::Equal
                }
            },
            _ => TyOrdering::Equal,
        }
    }
}

/// The variant rank, computed on the live descriptor.
fn info_rank_ex(t: &TypeInfo) -> (r: usize)
    ensures
        r as int == info_rank(t@),
{
    match t {
        TypeInfo::Unknown => 0,
        TypeInfo::Numeric => 1,
        TypeInfo::Boolean => 2,
        TypeInfo::UnsignedInteger(_) => 3,
        TypeInfo::B256 => 4,
        TypeInfo::StringSlice => 5,
        TypeInfo::RawUntypedSlice => 6,
        TypeInfo::UnknownGeneric { .. } => 7,
        TypeInfo::Tuple(_) => 8,
        TypeInfo::Struct(_) => 9,
    }
}

} // verus!
