use grammar_ir::grammar::{
    ActionFn, ActionFnDefn, ActionKind, Algorithm, Grammar, InternToken, NonterminalData,
    Parameter, Pattern, Production, Symbol,
};
use grammar_ir::intern::Interner;
use grammar_ir::intern_map::InternMap;
use grammar_ir::parse_tree::{Path, Span};
use grammar_ir::type_repr::{NominalTypeRepr, TypeRepr};
use grammar_ir::types::Types;

fn nominal(interner: &mut Interner, name: &str) -> TypeRepr {
    let id = interner.intern(name);
    TypeRepr::Nominal(NominalTypeRepr {
        path: Path { absolute: false, ids: vec![id] },
        types: vec![],
    })
}

#[test]
fn algorithm_names_parse_case_sensitively() {
    assert_eq!(Algorithm::from_str("LR"), Some(Algorithm::LR1));
    assert_eq!(Algorithm::from_str("LR(1)"), Some(Algorithm::LR1));
    assert_eq!(Algorithm::from_str("LALR"), Some(Algorithm::LALR1));
    assert_eq!(Algorithm::from_str("LALR(1)"), Some(Algorithm::LALR1));
    assert_eq!(Algorithm::from_str("lr"), None);
    assert_eq!(Algorithm::from_str("LALR(2)"), None);
    assert_eq!(Algorithm::from_str(""), None);
}

#[test]
fn action_fn_handles_round_trip() {
    assert_eq!(ActionFn::new(0).index(), 0);
    assert_eq!(ActionFn::new(1).index(), 1);
    assert_eq!(ActionFn::new(4096).index(), 4096);
    assert_eq!(ActionFn::new(u32::MAX as usize).index(), u32::MAX as usize);
}

#[test]
fn symbols_know_their_kind() {
    let mut interner = Interner::new();
    let plus = interner.intern("PLUS");
    let expr = interner.intern("Expr");
    assert!(Symbol::Terminal(plus).is_terminal());
    assert!(!Symbol::Nonterminal(expr).is_terminal());
    assert_eq!(Symbol::Terminal(plus).symbol_string(&interner), "PLUS");
    assert_eq!(Symbol::Nonterminal(expr).symbol_string(&interner), "Expr");
}

#[test]
fn symbol_types_resolve_through_the_registry() {
    let mut interner = Interner::new();
    let tok = nominal(&mut interner, "TOK");
    let mut types = Types::new(None, None, tok);
    let expr = interner.intern("Expr");
    let plus = interner.intern("PLUS");
    let expr_ty = TypeRepr::usize_type(&mut interner);
    types.add_type(expr, expr_ty);
    assert_eq!(
        Symbol::Nonterminal(expr).ty(&types).type_string(&interner),
        "usize"
    );
    assert_eq!(Symbol::Terminal(plus).ty(&types).type_string(&interner), "TOK");
}

#[test]
fn actions_render_with_their_handle() {
    assert_eq!(ActionKind::Call(ActionFn::new(3)).action_string(), "Call(ActionFn(3))");
    assert_eq!(
        ActionKind::TryCall(ActionFn::new(12045)).action_string(),
        "TryCall(ActionFn(12045))"
    );
    assert_eq!(ActionKind::Call(ActionFn::new(0)).action_string(), "Call(ActionFn(0))");
}

#[test]
fn productions_render_like_rules() {
    let mut interner = Interner::new();
    let expr = interner.intern("Expr");
    let plus = interner.intern("PLUS");
    let term = interner.intern("Term");
    let p = Production {
        nonterminal: expr,
        symbols: vec![
            Symbol::Nonterminal(expr),
            Symbol::Terminal(plus),
            Symbol::Nonterminal(term),
        ],
        action: ActionKind::Call(ActionFn::new(3)),
        span: Span(0, 0),
    };
    assert_eq!(
        p.production_string(&interner),
        "Expr = Expr, PLUS, Term => Call(ActionFn(3));"
    );
}

#[test]
fn action_fn_defns_render_as_functions() {
    let mut interner = Interner::new();
    let x = interner.intern("x");
    let y = interner.intern("y");
    let usize_ty = TypeRepr::usize_type(&mut interner);
    let defn = ActionFnDefn {
        arg_patterns: vec![x, y],
        arg_types: vec![usize_ty.duplicate(), usize_ty.duplicate()],
        ret_type: usize_ty,
        fallible: false,
        code: String::from("x + y"),
    };
    assert_eq!(
        defn.to_fn_string("call0", &interner),
        "fn call0(x: usize, y: usize) -> usize { x + y }"
    );
    assert_eq!(defn.defn_string(&interner), "fn _(x: usize, y: usize) -> usize { x + y }");
}

#[test]
fn parameters_render_as_declarations() {
    let mut interner = Interner::new();
    let x = interner.intern("x");
    let p = Parameter { name: x, ty: TypeRepr::usize_type(&mut interner) };
    assert_eq!(p.param_string(&interner), "x: usize");
}

fn empty_grammar(interner: &mut Interner) -> Grammar {
    let tok = nominal(interner, "TOK");
    Grammar {
        prefix: String::from("__"),
        algorithm: Algorithm::LR1,
        start_nonterminals: InternMap::new(),
        uses: vec![],
        type_parameters: vec![],
        parameters: vec![],
        where_clauses: vec![],
        intern_token: None,
        action_fn_defns: vec![],
        nonterminals: InternMap::new(),
        token_span: Span(0, 0),
        conversions: InternMap::new(),
        types: Types::new(None, None, tok),
    }
}

#[test]
fn start_nonterminals_augment_the_grammar() {
    // One declared public nonterminal S: the start table maps S to the
    // synthetic S', and S' has exactly the production S' = S.
    let mut interner = Interner::new();
    let mut g = empty_grammar(&mut interner);
    let s = interner.intern("S");
    let s_prime = interner.intern("S'");
    let plus = interner.intern("PLUS");
    g.start_nonterminals.insert(s, s_prime);
    g.nonterminals.insert(
        s,
        NonterminalData {
            name: s,
            span: Span(0, 0),
            annotations: vec![],
            productions: vec![Production {
                nonterminal: s,
                symbols: vec![Symbol::Terminal(plus)],
                action: ActionKind::Call(ActionFn::new(0)),
                span: Span(0, 0),
            }],
        },
    );
    g.nonterminals.insert(
        s_prime,
        NonterminalData {
            name: s_prime,
            span: Span(0, 0),
            annotations: vec![],
            productions: vec![Production {
                nonterminal: s_prime,
                symbols: vec![Symbol::Nonterminal(s)],
                action: ActionKind::Call(ActionFn::new(1)),
                span: Span(0, 0),
            }],
        },
    );
    assert_eq!(g.start_nonterminals.get(s), Some(&s_prime));
    let prods = g.productions_for(s_prime);
    assert_eq!(prods.len(), 1);
    assert_eq!(prods[0].symbols, vec![Symbol::Nonterminal(s)]);
    assert_eq!(prods[0].nonterminal, s_prime);
}

#[test]
fn productions_for_an_absent_nonterminal_are_empty() {
    let mut interner = Interner::new();
    let g = empty_grammar(&mut interner);
    let ghost_nt = interner.intern("Missing");
    assert!(g.productions_for(ghost_nt).is_empty());
}

#[test]
fn conversion_patterns_are_looked_up() {
    let mut interner = Interner::new();
    let mut g = empty_grammar(&mut interner);
    let num = interner.intern("NUM");
    let pat_text = interner.intern("[0-9]+");
    g.conversions.insert(num, Pattern { span: Span(3, 9), text: pat_text });
    assert_eq!(g.pattern(num).text, pat_text);
    assert_eq!(g.pattern(num).span, Span(3, 9));
}

#[test]
fn user_parameter_refs_lists_names_in_order() {
    let mut interner = Interner::new();
    let mut g = empty_grammar(&mut interner);
    assert_eq!(g.user_parameter_refs(&interner), "");
    let x = interner.intern("scale");
    let y = interner.intern("input");
    let ty1 = TypeRepr::usize_type(&mut interner);
    let ty2 = TypeRepr::str_type(&mut interner);
    g.parameters.push(Parameter { name: x, ty: ty1 });
    g.parameters.push(Parameter { name: y, ty: ty2 });
    assert_eq!(g.user_parameter_refs(&interner), "scale, input, ");
}

#[test]
fn intern_token_records_its_literals() {
    let mut interner = Interner::new();
    let quote = interner.intern("\"let\"");
    let it = InternToken { literals: vec![quote] };
    assert_eq!(it.literals.len(), 1);
    assert_eq!(interner.data(it.literals[0]), "\"let\"");
}

#[test]
fn intern_map_basics() {
    let mut interner = Interner::new();
    let a = interner.intern("a");
    let b = interner.intern("b");
    let mut m: InternMap<usize> = InternMap::new();
    assert_eq!(m.len(), 0);
    assert!(!m.contains_key(a));
    m.insert(a, 10);
    m.insert(b, 20);
    assert_eq!(m.len(), 2);
    assert!(m.contains_key(a));
    assert_eq!(m.get(a), Some(&10));
    assert_eq!(m.get(b), Some(&20));
    assert_eq!(m.key_at(0), a);
    assert_eq!(*m.val_at(1), 20);
    assert_eq!(*m.index(b), 20);
}
