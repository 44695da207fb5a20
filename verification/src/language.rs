use vstd::prelude::*;
use crate::span::Span;

verus! {

/// An identifier with its provenance. The span never takes part in
/// equality, hashing or ordering: identifiers compare by text.
#[derive(Clone, Debug)]
pub struct Ident {
    pub text: String,
    pub span: Span,
}

impl Ident {
    /// An identifier for synthesized code, carrying the sentinel span.
    pub fn new_no_span(text: String) -> (r: Ident)
        ensures
            r.text@ == text@,
            r.span.is_dummy,
    {
        Ident { text, span: Span::dummy() }
    }

    pub fn new(text: String, span: Span) -> (r: Ident)
        ensures
            r.text@ == text@,
            r.span == span,
    {
        Ident { text, span }
    }

    /// Text equality, ignoring provenance.
    pub fn text_eq(&self, other: &Ident) -> (r: bool)
        ensures
            r == (self.text@ == other.text@),
    {
        self.text == other.text
    }
}

/// The path a declaration is known under; only the suffix takes part in
/// declaration equality.
#[derive(Clone, Debug)]
pub struct CallPath {
    pub prefixes: Vec<Ident>,
    pub suffix: Ident,
    pub is_absolute: bool,
}

#[derive(Clone, Copy, Debug, PartialEq, Eq, Structural)]
pub enum Visibility {
    Private,
    Public,
}

#[derive(Clone, Copy, Debug, PartialEq, Eq, Structural)]
pub enum Purity {
    Pure,
    Reads,
    Writes,
    ReadsWrites,
}

/// The outcome of an engine-scoped comparison.
#[derive(Clone, Copy, Debug, PartialEq, Eq, Structural)]
pub enum TyOrdering {
    Less,
    Equal,
    Greater,
}

/// Lexicographic order on character sequences, by code point, starting
/// at position `i`.
pub open spec fn spec_str_cmp_from(a: Seq<char>, b: Seq<char>, i: int) -> TyOrdering
    decreases a.len() - i,
{
    if i < 0 {
        TyOrdering::Equal
    } else if i >= a.len() && i >= b.len() {
        TyOrdering::Equal
    } else if i >= a.len() {
        TyOrdering::Less
    } else if i >= b.len() {
        TyOrdering::Greater
    } else if (a[i] as u32) < (b[i] as u32) {
        TyOrdering::Less
    } else if (a[i] as u32) > (b[i] as u32) {
        TyOrdering::Greater
    } else {
        spec_str_cmp_from(a, b, i + 1)
    }
}

pub open spec fn spec_str_cmp(a: Seq<char>, b: Seq<char>) -> TyOrdering {
    spec_str_cmp_from(a, b, 0)
}

fn str_cmp_from(a: &str, b: &str, i: usize, a_len: usize, b_len: usize) -> (r: TyOrdering)
    requires
        a_len == a@.len(),
        b_len == b@.len(),
    ensures
        r == spec_str_cmp_from(a@, b@, i as int),
    decreases a@.len() - i,
{
    if i >= a_len && i >= b_len {
        TyOrdering::Equal
    } else if i >= a_len {
        TyOrdering::Less
    } else if i >= b_len {
        TyOrdering::Greater
    } else {
        let ca = a.get_char(i);
        let cb = b.get_char(i);
        if (ca as u32) < (cb as u32) {
            TyOrdering::Less
        } else if (ca as u32) > (cb as u32) {
            TyOrdering::Greater
        } else {
            str_cmp_from(a, b, i + 1, a_len, b_len)
        }
    }
}

/// Lexicographic comparison of two strings by code point; used for the
/// deterministic ordering of fields and generic names.
pub fn str_cmp(a: &str, b: &str) -> (r: TyOrdering)
    ensures
        r == spec_str_cmp(a@, b@),
{
    let a_len = a.unicode_len();
    let b_len = b.unicode_len();
    str_cmp_from(a, b, 0, a_len, b_len)
}

proof fn lemma_str_cmp_eq_from(a: Seq<char>, b: Seq<char>, i: int)
    requires
        0 <= i <= a.len(),
        0 <= i <= b.len(),
        a.subrange(0, i) =~= b.subrange(0, i),
    ensures
        (spec_str_cmp_from(a, b, i) == TyOrdering::Equal) <==> (a == b),
    decreases a.len() - i,
{
    if i >= a.len() && i >= b.len() {
        assert(a =~= a.subrange(0, i));
        assert(b =~= b.subrange(0, i));
    } else if i >= a.len() || i >= b.len() {
        assert(a.len() != b.len());
    } else if (a[i] as u32) == (b[i] as u32) {
        assert(a[i] == b[i]) by {
            crate::language::lemma_char_code_injective(a[i], b[i]);
        }
        assert(a.subrange(0, i + 1) =~= b.subrange(0, i + 1));
        lemma_str_cmp_eq_from(a, b, i + 1);
    } else {
        assert(a != b) by {
            if a == b {
                assert(a[i] == b[i]);
            }
        }
    }
}

/// Two characters with the same code point are the same character.
proof fn lemma_char_code_injective(x: char, y: char)
    requires
        x as u32 == y as u32,
    ensures
        x == y,
{
    assert(x as int == x as u32 as int);
    assert(y as int == y as u32 as int);
}

/// String equality decided through the verified comparison.
pub fn str_eq(a: &str, b: &str) -> (r: bool)
    ensures
        r == (a@ == b@),
{
    let c = str_cmp(a, b);
    proof {
        assert(Seq::<char>::empty() =~= a@.subrange(0, 0));
        assert(a@.subrange(0, 0) =~= b@.subrange(0, 0));
        lemma_str_cmp_eq_from(a@, b@, 0);
    }
    matches!(c, TyOrdering::Equal)
}

} // verus!
