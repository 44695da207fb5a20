use sway_semantics::declaration::{TyStructDecl, TyStructField};
use sway_semantics::engines::Engines;
use sway_semantics::handler::{CompileError, Handler};
use sway_semantics::language::{str_cmp, CallPath, Ident, TyOrdering, Visibility};
use sway_semantics::span::Span;
use sway_semantics::type_system::{TypeArgument, TypeInfo, TypeSubstMap};

fn ident(text: &str) -> Ident {
    Ident::new(String::from(text), Span::new(1, 2))
}

fn path(suffix: &str) -> CallPath {
    CallPath { prefixes: Vec::new(), suffix: ident(suffix), is_absolute: false }
}

fn field(name: &str, type_id: usize, span: Span, attributes: Vec<String>) -> TyStructField {
    TyStructField {
        name: Ident::new(String::from(name), span),
        span,
        type_argument: TypeArgument { type_id, initial_type_id: type_id, span },
        attributes,
    }
}

fn basic_engines() -> (Engines, usize, usize) {
    let mut engines = Engines::new();
    let u64_tid = engines.insert_type(TypeInfo::UnsignedInteger(64));
    let bool_tid = engines.insert_type(TypeInfo::Boolean);
    (engines, u64_tid, bool_tid)
}

#[test]
fn provenance_excluded_from_equality_and_hash() {
    let (engines, u64_tid, bool_tid) = basic_engines();
    let a = TyStructDecl {
        call_path: path("Point"),
        fields: vec![
            field("x", u64_tid, Span::new(10, 11), vec![String::from("doc")]),
            field("y", bool_tid, Span::new(12, 13), Vec::new()),
        ],
        type_parameters: Vec::new(),
        visibility: Visibility::Public,
        span: Span::new(5, 20),
        attributes: vec![String::from("allow")],
    };
    let b = TyStructDecl {
        call_path: CallPath {
            prefixes: Vec::new(),
            suffix: Ident::new_no_span(String::from("Point")),
            is_absolute: false,
        },
        fields: vec![
            field("x", u64_tid, Span::dummy(), Vec::new()),
            field("y", bool_tid, Span::dummy(), vec![String::from("other")]),
        ],
        type_parameters: Vec::new(),
        visibility: Visibility::Public,
        span: Span::dummy(),
        attributes: Vec::new(),
    };
    assert!(a.eq_with_engines(&b, &engines));
    assert_eq!(a.hash_with_engines(&engines), b.hash_with_engines(&engines));
}

#[test]
fn different_fields_are_not_equal() {
    let (engines, u64_tid, bool_tid) = basic_engines();
    let a = TyStructDecl {
        call_path: path("Point"),
        fields: vec![field("x", u64_tid, Span::dummy(), Vec::new())],
        type_parameters: Vec::new(),
        visibility: Visibility::Public,
        span: Span::dummy(),
        attributes: Vec::new(),
    };
    let b = TyStructDecl {
        call_path: path("Point"),
        fields: vec![field("x", bool_tid, Span::dummy(), Vec::new())],
        type_parameters: Vec::new(),
        visibility: Visibility::Public,
        span: Span::dummy(),
        attributes: Vec::new(),
    };
    assert!(!a.eq_with_engines(&b, &engines));
}

#[test]
fn field_indices_follow_declaration_order() {
    let (engines, u64_tid, bool_tid) = basic_engines();
    let _ = &engines;
    let decl = TyStructDecl {
        call_path: path("Layout"),
        fields: vec![
            field("a", u64_tid, Span::dummy(), Vec::new()),
            field("b", bool_tid, Span::dummy(), Vec::new()),
            field("c", u64_tid, Span::dummy(), Vec::new()),
        ],
        type_parameters: Vec::new(),
        visibility: Visibility::Private,
        span: Span::dummy(),
        attributes: Vec::new(),
    };
    assert_eq!(decl.get_field_index_and_type(&ident("a")), Some((0, u64_tid)));
    assert_eq!(decl.get_field_index_and_type(&ident("b")), Some((1, bool_tid)));
    assert_eq!(decl.get_field_index_and_type(&ident("c")), Some((2, u64_tid)));
    assert_eq!(decl.get_field_index_and_type(&ident("d")), None);
}

#[test]
fn substitution_with_empty_map_is_identity() {
    let (mut engines, u64_tid, _bool_tid) = basic_engines();
    let generic_tid = engines.insert_type(TypeInfo::UnknownGeneric { name: String::from("T") });
    let tuple_tid = engines.insert_type(TypeInfo::Tuple(vec![u64_tid, generic_tid]));
    let mut decl = TyStructDecl {
        call_path: path("Pair"),
        fields: vec![field("items", tuple_tid, Span::dummy(), Vec::new())],
        type_parameters: vec![sway_semantics::type_system::TypeParameter {
            name: String::from("T"),
            type_id: generic_tid,
            initial_type_id: generic_tid,
        }],
        visibility: Visibility::Public,
        span: Span::dummy(),
        attributes: Vec::new(),
    };
    let type_count_before = engines.type_count();
    let empty = TypeSubstMap::new();
    decl.subst_inner(&empty, &mut engines);
    assert_eq!(decl.fields[0].type_argument.type_id, tuple_tid);
    assert_eq!(decl.type_parameters[0].type_id, generic_tid);
    assert_eq!(engines.type_count(), type_count_before);
    let again = TyStructDecl {
        call_path: path("Pair"),
        fields: vec![field("items", tuple_tid, Span::dummy(), Vec::new())],
        type_parameters: vec![sway_semantics::type_system::TypeParameter {
            name: String::from("T"),
            type_id: generic_tid,
            initial_type_id: generic_tid,
        }],
        visibility: Visibility::Public,
        span: Span::dummy(),
        attributes: Vec::new(),
    };
    assert!(decl.eq_with_engines(&again, &engines));
}

#[test]
fn substitution_rewrites_nested_tuples() {
    let (mut engines, u64_tid, bool_tid) = basic_engines();
    let generic_tid = engines.insert_type(TypeInfo::UnknownGeneric { name: String::from("T") });
    let inner_tid = engines.insert_type(TypeInfo::Tuple(vec![generic_tid]));
    let outer_tid = engines.insert_type(TypeInfo::Tuple(vec![bool_tid, inner_tid]));
    let mut map = TypeSubstMap::new();
    map.insert(generic_tid, u64_tid);
    let new_tid = engines.subst_type(&map, outer_tid);
    match engines.get_type(new_tid) {
        TypeInfo::Tuple(ms) => {
            assert_eq!(ms.len(), 2);
            assert_eq!(ms[0], bool_tid);
            match engines.get_type(ms[1]) {
                TypeInfo::Tuple(inner) => {
                    assert_eq!(inner.len(), 1);
                    assert_eq!(inner[0], u64_tid);
                },
                other => panic!("expected a tuple, got {:?}", other),
            }
        },
        other => panic!("expected a tuple, got {:?}", other),
    }
}

#[test]
fn hashing_survives_recursive_generic_instantiation() {
    let (mut engines, u64_tid, _bool_tid) = basic_engines();
    // A node type whose field, after instantiation, points back at its
    // own declaration through the interning engine.
    let placeholder = engines.insert_type(TypeInfo::Unknown);
    let decl_id = engines.insert_struct(TyStructDecl {
        call_path: path("Node"),
        fields: vec![field("next", placeholder, Span::dummy(), Vec::new())],
        type_parameters: Vec::new(),
        visibility: Visibility::Public,
        span: Span::dummy(),
        attributes: Vec::new(),
    });
    let self_tid = engines.insert_type(TypeInfo::Struct(decl_id));
    engines.replace_struct(decl_id, TyStructDecl {
        call_path: path("Node"),
        fields: vec![
            field("value", u64_tid, Span::dummy(), Vec::new()),
            field("next", self_tid, Span::dummy(), Vec::new()),
        ],
        type_parameters: Vec::new(),
        visibility: Visibility::Public,
        span: Span::dummy(),
        attributes: Vec::new(),
    });
    let decl = TyStructDecl {
        call_path: path("Node"),
        fields: vec![
            field("value", u64_tid, Span::new(1, 4), Vec::new()),
            field("next", self_tid, Span::new(5, 9), Vec::new()),
        ],
        type_parameters: Vec::new(),
        visibility: Visibility::Public,
        span: Span::new(0, 10),
        attributes: Vec::new(),
    };
    let h1 = decl.hash_with_engines(&engines);
    let mut provenance_variant = decl.clone();
    provenance_variant.span = Span::dummy();
    provenance_variant.attributes = vec![String::from("note")];
    let h2 = provenance_variant.hash_with_engines(&engines);
    assert_eq!(h1, h2);
}

#[test]
fn missing_field_reports_available_fields_in_order() {
    let (_engines, u64_tid, bool_tid) = basic_engines();
    let decl = TyStructDecl {
        call_path: path("Coords"),
        fields: vec![
            field("x", u64_tid, Span::dummy(), Vec::new()),
            field("y", bool_tid, Span::dummy(), Vec::new()),
        ],
        type_parameters: Vec::new(),
        visibility: Visibility::Public,
        span: Span::dummy(),
        attributes: Vec::new(),
    };
    let mut handler = Handler::new();
    let probe = Ident::new(String::from("z"), Span::new(40, 41));
    let res = decl.expect_field(&mut handler, &probe);
    assert!(res.is_err());
    assert_eq!(handler.errors.len(), 1);
    match &handler.errors[0] {
        CompileError::FieldNotFound { available_fields, field_name, struct_name, span } => {
            assert_eq!(available_fields, "x\ny");
            assert_eq!(field_name, "z");
            assert_eq!(struct_name, "Coords");
            assert_eq!(*span, Span::new(40, 41));
        },
        other => panic!("unexpected error: {:?}", other),
    }
    let found = decl.expect_field(&mut handler, &ident("y"));
    assert!(found.is_ok());
    assert_eq!(handler.errors.len(), 1);
}

#[test]
fn interning_deduplicates_descriptors() {
    let (mut engines, u64_tid, _bool_tid) = basic_engines();
    let again = engines.insert_type(TypeInfo::UnsignedInteger(64));
    assert_eq!(again, u64_tid);
    let other = engines.insert_type(TypeInfo::UnsignedInteger(32));
    assert_ne!(other, u64_tid);
}

#[test]
fn engine_equality_resolves_through_handles() {
    let (mut engines, u64_tid, bool_tid) = basic_engines();
    let t1 = engines.insert_type(TypeInfo::Tuple(vec![u64_tid, bool_tid]));
    let t2 = engines.insert_type(TypeInfo::Tuple(vec![u64_tid, bool_tid]));
    assert_eq!(t1, t2);
    assert!(engines.type_eq(t1, t2));
    assert!(!engines.type_eq(t1, u64_tid));
}

#[test]
fn field_ordering_is_by_name_then_type() {
    let (engines, u64_tid, bool_tid) = basic_engines();
    let fa = field("alpha", u64_tid, Span::dummy(), Vec::new());
    let fb = field("beta", u64_tid, Span::dummy(), Vec::new());
    assert_eq!(fa.cmp_with_engines(&fb, &engines), TyOrdering::Less);
    assert_eq!(fb.cmp_with_engines(&fa, &engines), TyOrdering::Greater);
    let fa_bool = field("alpha", bool_tid, Span::dummy(), Vec::new());
    // Same name: the engine comparison of the types decides.
    assert_eq!(fa.cmp_with_engines(&fa_bool, &engines), engines_field_type_order());
    assert_eq!(str_cmp("abc", "abd"), TyOrdering::Less);
    assert_eq!(str_cmp("abc", "abc"), TyOrdering::Equal);
    assert_eq!(str_cmp("b", "ab"), TyOrdering::Greater);
}

fn engines_field_type_order() -> TyOrdering {
    // UnsignedInteger ranks above Boolean in the deterministic order.
    TyOrdering::Greater
}

#[test]
fn struct_field_hash_ignores_provenance() {
    let (engines, u64_tid, _bool_tid) = basic_engines();
    let f1 = field("x", u64_tid, Span::new(3, 9), vec![String::from("doc")]);
    let f2 = field("x", u64_tid, Span::dummy(), Vec::new());
    assert_eq!(f1.hash_with_engines(&engines), f2.hash_with_engines(&engines));
}
