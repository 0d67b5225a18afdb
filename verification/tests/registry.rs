use grammar_ir::intern::Interner;
use grammar_ir::parse_tree::Path;
use grammar_ir::type_repr::{NominalTypeRepr, TypeRepr};
use grammar_ir::types::Types;

fn nominal(interner: &mut Interner, name: &str) -> TypeRepr {
    let id = interner.intern(name);
    TypeRepr::Nominal(NominalTypeRepr {
        path: Path { absolute: false, ids: vec![id] },
        types: vec![],
    })
}

#[test]
fn defaults_are_the_zero_element_tuple() {
    let mut interner = Interner::new();
    let tok = nominal(&mut interner, "TOK");
    let types = Types::new(None, None, tok);
    assert!(matches!(types.terminal_loc_type(), TypeRepr::Tuple(v) if v.is_empty()));
    assert!(matches!(types.error_type(), TypeRepr::Tuple(v) if v.is_empty()));
    assert!(types.opt_terminal_loc_type().is_none());
    // The canonical token triple is `(location, token, location)`.
    assert_eq!(types.triple_type().type_string(&interner), "((), TOK, ())");
}

#[test]
fn registered_loc_and_error_types_are_returned() {
    let mut interner = Interner::new();
    let tok = nominal(&mut interner, "TOK");
    let loc = TypeRepr::usize_type(&mut interner);
    let err = nominal(&mut interner, "MyError");
    let types = Types::new(Some(loc), Some(err), tok);
    assert_eq!(types.terminal_loc_type().type_string(&interner), "usize");
    assert_eq!(types.error_type().type_string(&interner), "MyError");
    assert!(types.opt_terminal_loc_type().is_some());
    assert_eq!(types.triple_type().type_string(&interner), "(usize, TOK, usize)");
}

#[test]
fn terminal_type_falls_back_to_the_token_type() {
    let mut interner = Interner::new();
    let tok = nominal(&mut interner, "TOK");
    let mut types = Types::new(None, None, tok);
    let plus = interner.intern("PLUS");
    let minus = interner.intern("MINUS");
    let explicit = TypeRepr::usize_type(&mut interner);
    types.add_term_type(plus, explicit);
    // Registered: the explicit type; never registered: the token type.
    assert_eq!(types.terminal_type(plus).type_string(&interner), "usize");
    assert_eq!(types.terminal_type(minus).type_string(&interner), "TOK");
    assert_eq!(types.terminal_token_type().type_string(&interner), "TOK");
}

#[test]
fn nonterminal_types_are_looked_up_and_listed_in_order() {
    let mut interner = Interner::new();
    let tok = nominal(&mut interner, "TOK");
    let mut types = Types::new(None, None, tok);
    let expr = interner.intern("Expr");
    let term = interner.intern("Term");
    let stmt = interner.intern("Stmt");
    let expr_ty = nominal(&mut interner, "i64");
    let term_ty = TypeRepr::usize_type(&mut interner);
    types.add_type(expr, expr_ty);
    types.add_type(term, term_ty);
    assert_eq!(types.nonterminal_type(expr).type_string(&interner), "i64");
    assert_eq!(types.nonterminal_type(term).type_string(&interner), "usize");
    assert!(types.lookup_nonterminal_type(stmt).is_none());
    assert!(types.lookup_nonterminal_type(expr).is_some());
    let all = types.nonterminal_types();
    assert_eq!(all.len(), 2);
    assert_eq!(all[0].type_string(&interner), "i64");
    assert_eq!(all[1].type_string(&interner), "usize");
}
