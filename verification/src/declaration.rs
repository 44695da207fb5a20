use vstd::prelude::*;
use crate::span::Span;
use crate::handler::{CompileError, ErrorEmitted, Handler};
use crate::language::{CallPath, Ident, Purity, Visibility};
use crate::parse_tree::CodeBlock;
use crate::type_system::{TypeArgument, TypeId, TypeParameter};

verus! {

/// A typed struct field. `span` and `attributes` are provenance only:
/// they take no part in equality, hashing or ordering.
#[derive(Clone, Debug)]
pub struct TyStructField {
    pub name: Ident,
    pub span: Span,
    pub type_argument: TypeArgument,
    pub attributes: Vec<String>,
}

/// A typed struct declaration. The field order is the memory-layout
/// order: reordering fields changes the program's interface. `span` and
/// `attributes` are provenance only.
#[derive(Clone, Debug)]
pub struct TyStructDecl {
    pub call_path: CallPath,
    pub fields: Vec<TyStructField>,
    pub type_parameters: Vec<TypeParameter>,
    pub visibility: Visibility,
    pub span: Span,
    pub attributes: Vec<String>,
}

/// First field with the given name, scanning from `i` in declaration
/// order.
pub open spec fn spec_find_field_from(fields: Seq<TyStructField>, name: Seq<char>, i: int) -> Option<
    int,
>
    decreases fields.len() - i,
{
    if i < 0 || i >= fields.len() {
        None
    } else if fields[i].name.text@ == name {
        Some(i)
    } else {
        spec_find_field_from(fields, name, i + 1)
    }
}

pub open spec fn spec_find_field(fields: Seq<TyStructField>, name: Seq<char>) -> Option<int> {
    spec_find_field_from(fields, name, 0)
}

/// The names of the first `i` fields, in declaration order, joined by a
/// newline; used verbatim in the missing-field diagnostic.
pub open spec fn spec_joined_names(fields: Seq<TyStructField>, i: int) -> Seq<char>
    decreases i,
{
    if i <= 0 || i > fields.len() {
        Seq::empty()
    } else if i == 1 {
        fields[0].name.text@
    } else {
        spec_joined_names(fields, i - 1) + seq!['\n'] + fields[i - 1].name.text@
    }
}

pub open spec fn spec_available_fields(fields: Seq<TyStructField>) -> Seq<char> {
    spec_joined_names(fields, fields.len() as int)
}

/// No two fields share a name.
pub open spec fn spec_field_names_distinct(fields: Seq<TyStructField>) -> bool {
    forall|p: int, q: int|
        0 <= p < q < fields.len() ==> (#[trigger] fields[p]).name.text@ != (
        #[trigger] fields[q]).name.text@
}

impl TyStructDecl {
    /// A declaration is named by the suffix of its call path.
    pub fn name(&self) -> (r: &Ident)
        ensures
            *r == self.call_path.suffix,
    {
        &self.call_path.suffix
    }

    pub fn type_parameters(&self) -> (r: &Vec<TypeParameter>)
        ensures
            r@ == self.type_parameters@,
    {
        &self.type_parameters
    }

    pub fn has_self_type_param(&self) -> (r: bool)
        ensures
            !r,
    {
        false
    }

    pub fn span(&self) -> (r: Span)
        ensures
            r == self.span,
    {
        self.span
    }

    fn find_field_from(&self, name: &Ident, i: usize) -> (r: Option<usize>)
        requires
            i <= self.fields@.len(),
        ensures
            match r {
                Some(j) => spec_find_field_from(self.fields@, name.text@, i as int) == Some(
                    j as int,
                ) && j < self.fields@.len(),
                None => spec_find_field_from(self.fields@, name.text@, i as int) is None,
            },
        decreases self.fields@.len() - i,
    {
        if i >= self.fields.len() {
            None
        } else if self.fields[i].name.text == name.text {
            Some(i)
        } else {
            self.find_field_from(name, i + 1)
        }
    }

    /// The field called `field_to_access`, or a `FieldNotFound` report
    /// carrying the struct's name and its full field list in declaration
    /// order.
    pub fn expect_field<'a>(
        &'a self,
        handler: &mut Handler,
        field_to_access: &Ident,
    ) -> (r: Result<&'a TyStructField, ErrorEmitted>)
        ensures
            match r {
                Ok(f) => {
                    &&& *final(handler) == *old(handler)
                    &&& spec_find_field(self.fields@, field_to_access.text@) matches Some(i) && *f
                        == self.fields@[i]
                },
                Err(_) => {
                    &&& spec_find_field(self.fields@, field_to_access.text@) is None
                    &&& final(handler).warnings@ == old(handler).warnings@
                    &&& exists|e: CompileError|
                        final(handler).errors@ == old(handler).errors@.push(e) && (e matches
                        CompileError::FieldNotFound {
                            available_fields,
                            field_name,
                            struct_name,
                            span,
                        } && available_fields@ == spec_available_fields(self.fields@)
                            && field_name@ == field_to_access.text@ && struct_name@
                            == self.call_path.suffix.text@ && span == field_to_access.span)
                },
            },
    {
        match self.find_field_from(field_to_access, 0) {
            Some(i) => Ok(&self.fields[i]),
            None => {
                let mut available: String = String::new();
                let n = self.fields.len();
                let mut i: usize = 0;
                while i < n
                    invariant
                        i <= n,
                        n == self.fields@.len(),
                        available@ == spec_joined_names(self.fields@, i as int),
                    decreases n - i,
                {
                    if i > 0 {
                        available.append("\n");
                        proof {
                            reveal_strlit("\n");
                            assert("\n"@ =~= seq!['\n']);
                        }
                    }
                    available.append(self.fields[i].name.text.as_str());
                    i = i + 1;
                }
                let err = CompileError::FieldNotFound {
                    available_fields: available,
                    field_name: field_to_access.text.clone(),
                    struct_name: self.call_path.suffix.text.clone(),
                    span: field_to_access.span,
                };
                Err(handler.emit_err(err))
            },
        }
    }

    /// For the given field name, the zero-based index and the type of the
    /// field within the struct's memory layout, or `None` if no field of
    /// that name exists. The index reflects declaration order; that order
    /// is authoritative and is never permuted.
    pub fn get_field_index_and_type(&self, field_name: &Ident) -> (r: Option<(u64, TypeId)>)
        ensures
            match r {
                Some((idx, tid)) => {
                    &&& spec_find_field(self.fields@, field_name.text@) == Some(idx as int)
                    &&& idx < self.fields@.len()
                    &&& tid == self.fields@[idx as int].type_argument.type_id
                },
                None => spec_find_field(self.fields@, field_name.text@) is None,
            },
    {
        match self.find_field_from(field_name, 0) {
            Some(i) => Some((i as u64, self.fields[i].type_argument.type_id)),
            None => None,
        }
    }
}

proof fn lemma_find_skips_mismatches(fields: Seq<TyStructField>, i: int, s: int)
    requires
        0 <= s <= i < fields.len(),
        forall|k: int| s <= k < i ==> (#[trigger] fields[k]).name.text@ != fields[i].name.text@,
    ensures
        spec_find_field_from(fields, fields[i].name.text@, s) == Some(i),
    decreases i - s,
{
    if s < i {
        lemma_find_skips_mismatches(fields, i, s + 1);
    }
}

/// Field lookup respects declaration order: when field names are
/// distinct, the field at position `i` is found at index `i`, so the
/// indices reported for fields in declaration order are strictly
/// increasing.
pub proof fn lemma_field_index_reflects_declaration_order(fields: Seq<TyStructField>, i: int)
    requires
        spec_field_names_distinct(fields),
        0 <= i < fields.len(),
    ensures
        spec_find_field(fields, fields[i].name.text@) == Some(i),
{
    lemma_find_skips_mismatches(fields, i, 0);
}

/// The kinds a typed function declaration can have: ordinary user code,
/// a synthesized program entry, or a contract method exposed through the
/// dispatch convention.
#[derive(Clone, Copy, Debug, PartialEq, Eq, Structural)]
pub enum TyFunctionDeclKind {
    Default,
    Entry,
    ContractMethod,
}

#[derive(Debug)]
pub struct TyFunctionParameter {
    pub name: Ident,
    pub type_argument: TypeArgument,
}

/// A typed function declaration.
#[derive(Debug)]
pub struct TyFunctionDecl {
    pub name: Ident,
    pub call_path: CallPath,
    pub body: CodeBlock,
    pub parameters: Vec<TyFunctionParameter>,
    pub return_type: TypeArgument,
    pub type_parameters: Vec<TypeParameter>,
    pub visibility: Visibility,
    pub purity: Purity,
    pub span: Span,
    pub kind: TyFunctionDeclKind,
}

#[derive(Clone, Debug)]
pub struct TyStorageField {
    pub name: Ident,
    pub type_argument: TypeArgument,
    pub value: u64,
    pub span: Span,
}

/// A typed storage declaration: the contract's persistent fields with
/// their initializers.
#[derive(Clone, Debug)]
pub struct TyStorageDecl {
    pub fields: Vec<TyStorageField>,
    pub span: Span,
}

/// A fixed-size addressable unit of persistent contract state, laid out
/// deterministically from a storage declaration.
#[derive(Clone, Copy, Debug, PartialEq, Eq, Structural)]
pub struct StorageSlot {
    pub key: u64,
    pub value: u64,
}

} // verus!
