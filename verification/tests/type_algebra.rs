use grammar_ir::intern::Interner;
use grammar_ir::parse_tree::{Path, TypeParameter};
use grammar_ir::type_repr::{NominalTypeRepr, TypeRepr};

fn nominal(interner: &mut Interner, name: &str, types: Vec<TypeRepr>) -> TypeRepr {
    let id = interner.intern(name);
    TypeRepr::Nominal(NominalTypeRepr { path: Path { absolute: false, ids: vec![id] }, types })
}

#[test]
fn interner_hands_out_stable_identities() {
    let mut interner = Interner::new();
    let a = interner.intern("Expr");
    let b = interner.intern("Term");
    let a2 = interner.intern("Expr");
    assert_eq!(a, a2);
    assert_ne!(a, b);
    assert_eq!(interner.data(a), "Expr");
    assert_eq!(interner.data(b), "Term");
}

#[test]
fn referenced_of_ref_with_lifetime_and_bare_nominal() {
    // A reference `&'a mut Foo` mentions exactly the lifetime `'a` and
    // the candidate identifier `Foo`.
    let mut interner = Interner::new();
    let lt = interner.intern("'a");
    let inner = nominal(&mut interner, "Foo", vec![]);
    let t = TypeRepr::Ref { lifetime: Some(lt), mutable: true, referent: Box::new(inner) };
    let foo = interner.intern("Foo");
    let refs = t.referenced();
    assert_eq!(refs, vec![TypeParameter::Lifetime(lt), TypeParameter::Id(foo)]);
}

#[test]
fn referenced_collects_every_reachable_entry_in_order() {
    let mut interner = Interner::new();
    let la = interner.intern("'a");
    let lb = interner.intern("'b");
    let x = nominal(&mut interner, "X", vec![]);
    let x_id = interner.intern("X");
    let inner = nominal(&mut interner, "Y", vec![]);
    let y_id = interner.intern("Y");
    let t = TypeRepr::Tuple(vec![
        TypeRepr::Lifetime(la),
        TypeRepr::Ref { lifetime: Some(lb), mutable: false, referent: Box::new(inner) },
        x,
    ]);
    let refs = t.referenced();
    assert_eq!(
        refs,
        vec![
            TypeParameter::Lifetime(la),
            TypeParameter::Lifetime(lb),
            TypeParameter::Id(y_id),
            TypeParameter::Id(x_id),
        ]
    );
}

#[test]
fn referenced_does_not_deduplicate() {
    let mut interner = Interner::new();
    let la = interner.intern("'a");
    let t = TypeRepr::Tuple(vec![TypeRepr::Lifetime(la), TypeRepr::Lifetime(la)]);
    assert_eq!(
        t.referenced(),
        vec![TypeParameter::Lifetime(la), TypeParameter::Lifetime(la)]
    );
}

#[test]
fn referenced_skips_qualified_paths() {
    // A multi-segment path is never a candidate type parameter.
    let mut interner = Interner::new();
    let std_id = interner.intern("std");
    let vec_id = interner.intern("Vec");
    let t = TypeRepr::Nominal(NominalTypeRepr {
        path: Path { absolute: false, ids: vec![std_id, vec_id] },
        types: vec![],
    });
    assert_eq!(t.referenced(), vec![]);
}

#[test]
fn rendering_tuples_references_and_generics() {
    let mut interner = Interner::new();
    let lt = interner.intern("'input");
    let t_param = nominal(&mut interner, "T", vec![]);
    let vec_id = interner.intern("Vec");
    let generic = TypeRepr::Nominal(NominalTypeRepr {
        path: Path { absolute: false, ids: vec![vec_id] },
        types: vec![t_param],
    });
    let t = TypeRepr::Tuple(vec![
        TypeRepr::Ref {
            lifetime: Some(lt),
            mutable: false,
            referent: Box::new(TypeRepr::str_type(&mut interner)),
        },
        generic,
    ]);
    assert_eq!(t.type_string(&interner), "(&'input str, Vec<T>)");
}

#[test]
fn rendering_reference_qualifiers() {
    let mut interner = Interner::new();
    let lt = interner.intern("'a");
    let base = TypeRepr::usize_type(&mut interner);
    let plain = TypeRepr::Ref {
        lifetime: None,
        mutable: false,
        referent: Box::new(base.duplicate()),
    };
    assert_eq!(plain.type_string(&interner), "&usize");
    let mutable = TypeRepr::Ref {
        lifetime: None,
        mutable: true,
        referent: Box::new(base.duplicate()),
    };
    assert_eq!(mutable.type_string(&interner), "&mut usize");
    let named = TypeRepr::Ref {
        lifetime: Some(lt),
        mutable: true,
        referent: Box::new(base),
    };
    assert_eq!(named.type_string(&interner), "&'a mut usize");
}

#[test]
fn rendering_absolute_paths() {
    let mut interner = Interner::new();
    let std_id = interner.intern("std");
    let vec_id = interner.intern("Vec");
    let p = Path { absolute: true, ids: vec![std_id, vec_id] };
    assert_eq!(p.path_string(&interner), "::std::Vec");
    assert_eq!(p.as_id(), None);
}

#[test]
fn empty_tuple_renders_as_unit() {
    let interner = Interner::new();
    assert_eq!(TypeRepr::unit().type_string(&interner), "()");
}

#[test]
fn duplicate_preserves_structure_and_rendering() {
    let mut interner = Interner::new();
    let lt = interner.intern("'a");
    let t = TypeRepr::Tuple(vec![
        TypeRepr::Ref {
            lifetime: Some(lt),
            mutable: false,
            referent: Box::new(TypeRepr::usize_type(&mut interner)),
        },
        TypeRepr::Lifetime(lt),
    ]);
    let copy = t.duplicate();
    assert_eq!(copy.type_string(&interner), t.type_string(&interner));
    assert_eq!(copy.referenced(), t.referenced());
}

#[test]
fn usize_and_str_constructors() {
    let mut interner = Interner::new();
    let u = TypeRepr::usize_type(&mut interner);
    let s = TypeRepr::str_type(&mut interner);
    assert_eq!(u.type_string(&interner), "usize");
    assert_eq!(s.type_string(&interner), "str");
    // The bare identifier is reported as a candidate type parameter.
    let usize_id = interner.intern("usize");
    assert_eq!(u.referenced(), vec![TypeParameter::Id(usize_id)]);
}
