//! The grammar aggregate and the production, symbol and action-function
//! model: the rules themselves keyed by nonterminal, the deduplicated
//! table of user action code referenced by lightweight handles, the
//! grammar-level metadata, and the selector for the table-construction
//! algorithm.

use vstd::prelude::*;
use vstd::string::StringExecFns;
use crate::intern::{InternedString, Interner};
use crate::intern_map::InternMap;
use crate::parse_tree::{
    Annotation, NonterminalString, Span, TerminalString, TypeParameter,
};
use crate::text::{dec_text, sep_join, lemma_sep_join_push, u32_string};
use crate::type_repr::{
    term_wf, terms_wf, type_text, type_texts, views_of, lemma_type_texts, lemma_terms_wf,
    lemma_views_of, TypeRepr, TypeView,
};
use crate::types::Types;

verus! {

/// The table-construction strategy chosen for a grammar.
#[derive(Copy, Clone, PartialEq, Eq, Structural, Debug)]
pub enum Algorithm {
    LR1,
    LALR1,
}

impl Algorithm {
    /// Parses the user-facing algorithm name: `LR` and `LR(1)` select
    /// LR(1) construction, `LALR` and `LALR(1)` select LALR(1); any
    /// other name is no match, left for the caller to report.
    pub fn from_str(s: &str) -> (r: Option<Algorithm>)
        ensures
            (r == Some(Algorithm::LR1)) <==> (s@ == "LR"@ || s@ == "LR(1)"@),
            (r == Some(Algorithm::LALR1)) <==> (s@ == "LALR"@ || s@ == "LALR(1)"@),
            (r is None) <==> !(s@ == "LR"@ || s@ == "LR(1)"@ || s@ == "LALR"@ || s@
                == "LALR(1)"@),
    {
        proof {
            reveal_strlit("LR");
            reveal_strlit("LR(1)");
            reveal_strlit("LALR");
            reveal_strlit("LALR(1)");
            assert("LR"@.len() == 2);
            assert("LR(1)"@.len() == 5);
            assert("LALR"@.len() == 4);
            assert("LALR(1)"@.len() == 7);
        }
        let owned: String = s.to_owned();
        if owned == "LR".to_owned() || owned == "LR(1)".to_owned() {
            Some(Algorithm::LR1)
        } else if owned == "LALR".to_owned() || owned == "LALR(1)".to_owned() {
            Some(Algorithm::LALR1)
        } else {
            None
        }
    }
}

/// An extra parameter declared on the grammar, such as `x: u32`.
pub struct Parameter {
    pub name: InternedString,
    pub ty: TypeRepr,
}

/// The rendering of a parameter declaration: `name: type`.
pub open spec fn param_text(p: Parameter, names: Seq<Seq<char>>) -> Seq<char> {
    names[p.name.0 as int] + ": "@ + type_text(p.ty@, names)
}

impl Parameter {
    /// Renders the parameter declaration.
    pub fn param_string(&self, interner: &Interner) -> (r: String)
        requires
            (self.name.0 as int) < interner.texts().len(),
            term_wf(self.ty@, interner.texts()),
        ensures
            r@ == param_text(*self, interner.texts()),
    {
        let mut s = interner.data(self.name).to_owned();
        s.append(": ");
        let piece = self.ty.type_string(interner);
        s.append(piece.as_str());
        proof {
            assert(s@ =~= param_text(*self, interner.texts()));
        }
        s
    }
}

/// A handle into the grammar's action-function table: a non-owning
/// index, so that many productions can share one code fragment without
/// ownership cycles.
#[derive(Copy, Clone, Debug, Hash, PartialOrd, Ord, PartialEq, Eq, Structural)]
pub struct ActionFn(u32);

impl View for ActionFn {
    type V = int;

    closed spec fn view(&self) -> int {
        self.0 as int
    }
}

impl ActionFn {
    /// A handle is a small non-negative index.
    pub proof fn lemma_bounds(&self)
        ensures
            0 <= self@ <= u32::MAX as int,
    {
    }

    pub fn new(x: usize) -> (r: ActionFn)
        requires
            x <= u32::MAX as usize,
        ensures
            r@ == x as int,
    {
        ActionFn(x as u32)
    }

    /// The index this handle stands for; `new` and `index` are mutually
    /// inverse on the handle's range.
    pub fn index(&self) -> (r: usize)
        ensures
            r as int == self@,
    {
        self.0 as usize
    }
}

/// How a production's action is invoked: `Call` for actions that cannot
/// fail, `TryCall` for fallible actions whose error must propagate.
#[derive(Clone, Copy, Debug, Hash, PartialEq, Eq, PartialOrd, Ord, Structural)]
pub enum ActionKind {
    Call(ActionFn),
    TryCall(ActionFn),
}

/// The rendering of an action reference, as diagnostics show it.
pub open spec fn action_text(a: ActionKind) -> Seq<char> {
    match a {
        ActionKind::Call(f) => "Call(ActionFn("@ + dec_text(f@ as nat) + "))"@,
        ActionKind::TryCall(f) => "TryCall(ActionFn("@ + dec_text(f@ as nat) + "))"@,
    }
}

impl ActionKind {
    /// Renders the action reference.
    pub fn action_string(&self) -> (r: String)
        ensures
            r@ == action_text(*self),
    {
        match self {
            ActionKind::Call(f) => {
                let mut s = String::new();
                s.append("Call(ActionFn(");
                let digits = u32_string(f.0);
                s.append(digits.as_str());
                s.append("))");
                proof {
                    assert(s@ =~= action_text(*self));
                }
                s
            },
            ActionKind::TryCall(f) => {
                let mut s = String::new();
                s.append("TryCall(ActionFn(");
                let digits = u32_string(f.0);
                s.append(digits.as_str());
                s.append("))");
                proof {
                    assert(s@ =~= action_text(*self));
                }
                s
            },
        }
    }
}

/// An owned action-function body: argument patterns paired with their
/// types, the return type, whether the action may fail, and the user's
/// code fragment. Immutable once created.
pub struct ActionFnDefn {
    pub arg_patterns: Vec<InternedString>,
    pub arg_types: Vec<TypeRepr>,
    pub ret_type: TypeRepr,
    pub fallible: bool,
    pub code: String,
}

/// The renderings of the argument list, `pattern: type` each.
pub open spec fn arg_texts(
    pats: Seq<InternedString>,
    tys: Seq<TypeView>,
    names: Seq<Seq<char>>,
) -> Seq<Seq<char>>
    decreases pats,
{
    if pats.len() == 0 || tys.len() == 0 {
        Seq::empty()
    } else {
        arg_texts(pats.drop_last(), tys.drop_last(), names).push(
            names[pats.last().0 as int] + ": "@ + type_text(tys.last(), names),
        )
    }
}

/// `arg_texts` is the pointwise rendering.
pub proof fn lemma_arg_texts(pats: Seq<InternedString>, tys: Seq<TypeView>, names: Seq<Seq<char>>)
    requires
        pats.len() == tys.len(),
    ensures
        arg_texts(pats, tys, names).len() == pats.len(),
        forall|i: int|
            0 <= i < pats.len() ==> arg_texts(pats, tys, names)[i] == names[pats[i].0 as int]
                + ": "@ + type_text(tys[i], names),
    decreases pats,
{
    if pats.len() > 0 {
        lemma_arg_texts(pats.drop_last(), tys.drop_last(), names);
        assert forall|i: int|
            0 <= i < pats.len() implies arg_texts(pats, tys, names)[i] == names[pats[i].0 as int]
            + ": "@ + type_text(tys[i], names) by {
            if i < pats.len() - 1 {
                assert(arg_texts(pats, tys, names)[i] == arg_texts(
                    pats.drop_last(),
                    tys.drop_last(),
                    names,
                )[i]);
                assert(pats.drop_last()[i] == pats[i] && tys.drop_last()[i] == tys[i]);
            }
        }
    }
}

/// The rendering of an action function as a function item: header,
/// argument list, return type and the code fragment as its body.
pub open spec fn fn_text(
    pats: Seq<InternedString>,
    tys: Seq<TypeView>,
    ret: TypeView,
    code: Seq<char>,
    name: Seq<char>,
    names: Seq<Seq<char>>,
) -> Seq<char> {
    "fn "@ + name + "("@ + sep_join(arg_texts(pats, tys, names), ", "@) + ") -> "@ + type_text(
        ret,
        names,
    ) + " { "@ + code + " }"@
}

impl ActionFnDefn {
    /// One name per argument type.
    pub open spec fn wf(&self) -> bool {
        self.arg_patterns@.len() == self.arg_types@.len()
    }

    /// Every name the definition mentions is registered.
    pub open spec fn wf_in(&self, names: Seq<Seq<char>>) -> bool {
        &&& self.wf()
        &&& forall|i: int|
            0 <= i < self.arg_patterns@.len() ==> (self.arg_patterns@[i].0 as int) < names.len()
        &&& terms_wf(views_of(self.arg_types@), names)
        &&& term_wf(self.ret_type@, names)
    }

    /// Renders the definition as a function item with the given name.
    #[verifier::loop_isolation(false)]
    pub fn to_fn_string(&self, name: &str, interner: &Interner) -> (r: String)
        requires
            self.wf_in(interner.texts()),
        ensures
            r@ == fn_text(
                self.arg_patterns@,
                views_of(self.arg_types@),
                self.ret_type@,
                self.code@,
                name@,
                interner.texts(),
            ),
    {
        let ghost names = interner.texts();
        let ghost tys = views_of(self.arg_types@);
        proof {
            lemma_views_of(self.arg_types@);
            lemma_arg_texts(self.arg_patterns@, tys, names);
            lemma_terms_wf(tys, names);
        }
        let mut s = String::new();
        s.append("fn ");
        s.append(name);
        s.append("(");
        let ghost prefix = s@;
        let mut i: usize = 0;
        while i < self.arg_patterns.len()
            invariant
                i <= self.arg_patterns@.len(),
                s@ == prefix + sep_join(
                    arg_texts(self.arg_patterns@.take(i as int), tys.take(i as int), names),
                    ", "@,
                ),
            decreases self.arg_patterns@.len() - i,
        {
            if i > 0 {
                s.append(", ");
            }
            proof {
                assert(tys[i as int] == self.arg_types@[i as int]@);
                assert(term_wf(tys[i as int], names));
            }
            s.append(interner.data(self.arg_patterns[i]));
            s.append(": ");
            let piece = self.arg_types[i].type_string(interner);
            s.append(piece.as_str());
            proof {
                lemma_arg_texts(
                    self.arg_patterns@.take(i as int),
                    tys.take(i as int),
                    names,
                );
                lemma_sep_join_push(
                    arg_texts(self.arg_patterns@.take(i as int), tys.take(i as int), names),
                    ", "@,
                    names[self.arg_patterns@[i as int].0 as int] + ": "@ + type_text(
                        tys[i as int],
                        names,
                    ),
                );
                assert(arg_texts(
                    self.arg_patterns@.take(i + 1),
                    tys.take(i + 1),
                    names,
                ) =~= arg_texts(
                    self.arg_patterns@.take(i as int),
                    tys.take(i as int),
                    names,
                ).push(
                    names[self.arg_patterns@[i as int].0 as int] + ": "@ + type_text(
                        tys[i as int],
                        names,
                    ),
                )) by {
                    lemma_arg_texts(self.arg_patterns@.take(i + 1), tys.take(i + 1), names);
                    assert(self.arg_patterns@.take(i + 1).drop_last() =~= self.arg_patterns@.take(
                        i as int,
                    ));
                    assert(tys.take(i + 1).drop_last() =~= tys.take(i as int));
                }
                assert(s@ =~= prefix + sep_join(
                    arg_texts(self.arg_patterns@.take(i + 1), tys.take(i + 1), names),
                    ", "@,
                ));
            }
            i = i + 1;
        }
        s.append(") -> ");
        let piece = self.ret_type.type_string(interner);
        s.append(piece.as_str());
        s.append(" { ");
        s.append(self.code.as_str());
        s.append(" }");
        proof {
            assert(self.arg_patterns@.take(self.arg_patterns@.len() as int)
                =~= self.arg_patterns@);
            assert(tys.take(self.arg_patterns@.len() as int) =~= tys);
            assert(s@ =~= fn_text(
                self.arg_patterns@,
                tys,
                self.ret_type@,
                self.code@,
                name@,
                names,
            ));
        }
        s
    }

    /// Renders the definition under the placeholder name diagnostics
    /// use.
    pub fn defn_string(&self, interner: &Interner) -> (r: String)
        requires
            self.wf_in(interner.texts()),
        ensures
            r@ == fn_text(
                self.arg_patterns@,
                views_of(self.arg_types@),
                self.ret_type@,
                self.code@,
                "_"@,
                interner.texts(),
            ),
    {
        self.to_fn_string("_", interner)
    }
}

/// A grammar symbol: a terminal or a nonterminal, identified purely by
/// its interned name.
#[derive(Copy, Clone, Hash, PartialEq, Eq, PartialOrd, Ord, Structural, Debug)]
pub enum Symbol {
    Nonterminal(NonterminalString),
    Terminal(TerminalString),
}

/// The rendering of a symbol: its name.
pub open spec fn symbol_text(s: Symbol, names: Seq<Seq<char>>) -> Seq<char> {
    match s {
        Symbol::Nonterminal(id) => names[id.0 as int],
        Symbol::Terminal(id) => names[id.0 as int],
    }
}

/// The symbol's name is registered.
pub open spec fn symbol_wf(s: Symbol, names: Seq<Seq<char>>) -> bool {
    match s {
        Symbol::Nonterminal(id) => (id.0 as int) < names.len(),
        Symbol::Terminal(id) => (id.0 as int) < names.len(),
    }
}

/// The renderings of a sequence of symbols, in order.
pub open spec fn symbol_texts(ss: Seq<Symbol>, names: Seq<Seq<char>>) -> Seq<Seq<char>>
    decreases ss,
{
    if ss.len() == 0 {
        Seq::empty()
    } else {
        symbol_texts(ss.drop_last(), names).push(symbol_text(ss.last(), names))
    }
}

/// `symbol_texts` is the pointwise rendering.
pub proof fn lemma_symbol_texts(ss: Seq<Symbol>, names: Seq<Seq<char>>)
    ensures
        symbol_texts(ss, names).len() == ss.len(),
        forall|i: int|
            0 <= i < ss.len() ==> symbol_texts(ss, names)[i] == symbol_text(ss[i], names),
    decreases ss,
{
    if ss.len() > 0 {
        lemma_symbol_texts(ss.drop_last(), names);
        assert forall|i: int|
            0 <= i < ss.len() implies symbol_texts(ss, names)[i] == symbol_text(
            ss[i],
            names,
        ) by {
            if i < ss.len() - 1 {
                assert(symbol_texts(ss, names)[i] == symbol_texts(ss.drop_last(), names)[i]);
                assert(ss.drop_last()[i] == ss[i]);
            }
        }
    }
}

impl Symbol {
    /// Whether the symbol is a terminal.
    pub fn is_terminal(&self) -> (r: bool)
        ensures
            r == (*self is Terminal),
    {
        match self {
            Symbol::Terminal(_) => true,
            Symbol::Nonterminal(_) => false,
        }
    }

    /// The type of the symbol under a registry: a terminal resolves with
    /// the token-type fallback, a nonterminal must have been registered.
    pub fn ty<'ty>(&self, t: &'ty Types) -> (r: &'ty TypeRepr)
        requires
            t.wf(),
            self matches Symbol::Nonterminal(id) ==> t.nonterminal_map().contains_key(*id),
        ensures
            match *self {
                Symbol::Terminal(id) => (t.terminal_map().contains_key(id) ==> *r
                    == t.terminal_map()[id]) && (!t.terminal_map().contains_key(id) ==> *r
                    == t.token_type()),
                Symbol::Nonterminal(id) => *r == t.nonterminal_map()[id],
            },
    {
        match self {
            Symbol::Terminal(id) => t.terminal_type(*id),
            Symbol::Nonterminal(id) => t.nonterminal_type(*id),
        }
    }

    /// Renders the symbol's name.
    pub fn symbol_string(&self, interner: &Interner) -> (r: String)
        requires
            symbol_wf(*self, interner.texts()),
        ensures
            r@ == symbol_text(*self, interner.texts()),
    {
        match self {
            Symbol::Nonterminal(id) => interner.data(*id).to_owned(),
            Symbol::Terminal(id) => interner.data(*id).to_owned(),
        }
    }
}

/// One grammar rule: the nonterminal it rewrites, the symbols of its
/// right-hand side in order, the action invoked on reduction, and its
/// span. Ordering and hashing are structural, so productions can be
/// deduplicated and numbered deterministically.
#[derive(Clone, Hash, PartialEq, Eq, PartialOrd, Ord, Debug)]
pub struct Production {
    pub nonterminal: NonterminalString,
    pub symbols: Vec<Symbol>,
    pub action: ActionKind,
    pub span: Span,
}

/// The rendering of a production, as diagnostics show it.
pub open spec fn production_text(p: Production, names: Seq<Seq<char>>) -> Seq<char> {
    names[p.nonterminal.0 as int] + " = "@ + sep_join(symbol_texts(p.symbols@, names), ", "@)
        + " => "@ + action_text(p.action) + ";"@
}

/// Every name the production mentions is registered.
pub open spec fn production_wf(p: Production, names: Seq<Seq<char>>) -> bool {
    &&& (p.nonterminal.0 as int) < names.len()
    &&& forall|i: int| 0 <= i < p.symbols@.len() ==> symbol_wf(#[trigger] p.symbols@[i], names)
}

impl Production {
    /// Renders the production.
    #[verifier::loop_isolation(false)]
    pub fn production_string(&self, interner: &Interner) -> (r: String)
        requires
            production_wf(*self, interner.texts()),
        ensures
            r@ == production_text(*self, interner.texts()),
    {
        let ghost names = interner.texts();
        proof {
            lemma_symbol_texts(self.symbols@, names);
        }
        let mut s = interner.data(self.nonterminal).to_owned();
        s.append(" = ");
        let ghost prefix = s@;
        let mut i: usize = 0;
        while i < self.symbols.len()
            invariant
                i <= self.symbols@.len(),
                s@ == prefix + sep_join(symbol_texts(self.symbols@.take(i as int), names), ", "@),
            decreases self.symbols@.len() - i,
        {
            if i > 0 {
                s.append(", ");
            }
            let piece = self.symbols[i].symbol_string(interner);
            s.append(piece.as_str());
            proof {
                lemma_symbol_texts(self.symbols@.take(i as int), names);
                lemma_sep_join_push(
                    symbol_texts(self.symbols@.take(i as int), names),
                    ", "@,
                    symbol_text(self.symbols@[i as int], names),
                );
                assert(symbol_texts(self.symbols@.take(i + 1), names) =~= symbol_texts(
                    self.symbols@.take(i as int),
                    names,
                ).push(symbol_text(self.symbols@[i as int], names))) by {
                    lemma_symbol_texts(self.symbols@.take(i + 1), names);
                    assert(self.symbols@.take(i + 1).drop_last() =~= self.symbols@.take(i as int));
                }
                assert(s@ =~= prefix + sep_join(
                    symbol_texts(self.symbols@.take(i + 1), names),
                    ", "@,
                ));
            }
            i = i + 1;
        }
        s.append(" => ");
        let piece = self.action.action_string();
        s.append(piece.as_str());
        s.append(";");
        proof {
            assert(self.symbols@.take(self.symbols@.len() as int) =~= self.symbols@);
            assert(s@ =~= production_text(*self, names));
        }
        s
    }
}

/// A nonterminal's declaration: its name, span, annotations, and its
/// productions in declaration order. The order is significant — it
/// fixes the production numbering the table constructor uses — and is
/// kept stable across passes.
#[derive(Clone, Debug)]
pub struct NonterminalData {
    pub name: NonterminalString,
    pub span: Span,
    pub annotations: Vec<Annotation>,
    pub productions: Vec<Production>,
}

/// The lexical pattern registered for a terminal conversion. The
/// compiled representation stores patterns opaquely: the span and the
/// interned source text of the pattern.
#[derive(Copy, Clone, PartialEq, Eq, Structural, Debug)]
pub struct Pattern {
    pub span: Span,
    pub text: InternedString,
}

/// Descriptor of the built-in tokenizer, present only when the grammar
/// did not declare an extern token: the literal terminals the tokenizer
/// recognizes, in declaration order.
#[derive(Clone, Debug)]
pub struct InternToken {
    pub literals: Vec<TerminalString>,
}

/// The rendering of the grammar's extra parameters for generated call
/// sites: each parameter name in declaration order, each followed by a
/// comma and a space.
pub open spec fn param_refs_text(ps: Seq<Parameter>, names: Seq<Seq<char>>) -> Seq<char>
    decreases ps,
{
    if ps.len() == 0 {
        Seq::empty()
    } else {
        param_refs_text(ps.drop_last(), names) + names[ps.last().name.0 as int] + ", "@
    }
}

/// The compiled grammar: the aggregate the normalization passes build
/// and the table-construction and code-generation backends read.
pub struct Grammar {
    /// A unique prefix appended to generated identifiers so they cannot
    /// collide with names in user action code.
    pub prefix: String,
    /// The table-construction algorithm the user selected.
    pub algorithm: Algorithm,
    /// Public nonterminals: the user's name for each start symbol,
    /// mapped to the synthetic augmenting nonterminal introduced for it,
    /// which always has the single production `Synthetic = UserStart`.
    pub start_nonterminals: InternMap<NonterminalString>,
    /// The `use` declarations of the grammar.
    pub uses: Vec<String>,
    /// Type parameters declared on the grammar.
    pub type_parameters: Vec<TypeParameter>,
    /// Extra parameters declared on the grammar.
    pub parameters: Vec<Parameter>,
    /// Where clauses declared on the grammar.
    pub where_clauses: Vec<String>,
    /// The built-in tokenizer, when no extern token was declared.
    pub intern_token: Option<InternToken>,
    /// The deduplicated action-function table; handles index into it.
    pub action_fn_defns: Vec<ActionFnDefn>,
    /// The nonterminals, each with its productions.
    pub nonterminals: InternMap<NonterminalData>,
    /// The span of the token-type declaration.
    pub token_span: Span,
    /// The conversion pattern registered for each terminal.
    pub conversions: InternMap<Pattern>,
    /// The type registry.
    pub types: Types,
}

impl Grammar {
    /// The aggregate invariant: the tables are well formed, every
    /// user-declared start nonterminal exists in the nonterminal table,
    /// and its synthetic augmenting nonterminal exists with exactly one
    /// production, `Synthetic = UserStart`.
    pub open spec fn wf(&self) -> bool {
        &&& self.start_nonterminals.wf()
        &&& self.nonterminals.wf()
        &&& self.conversions.wf()
        &&& self.types.wf()
        &&& forall|i: int|
            0 <= i < self.start_nonterminals.key_seq().len() ==> {
                let user = #[trigger] self.start_nonterminals.key_seq()[i];
                let synth = self.start_nonterminals.val_seq()[i];
                &&& self.nonterminals.as_map().contains_key(user)
                &&& self.nonterminals.as_map().contains_key(synth)
                &&& self.nonterminals.as_map()[synth].productions@.len() == 1
                &&& self.nonterminals.as_map()[synth].productions@[0].symbols@ =~= seq![
                    Symbol::Nonterminal(user),
                ]
                &&& self.nonterminals.as_map()[synth].productions@[0].nonterminal == synth
            }
    }

    /// The conversion pattern of a terminal; querying a terminal that
    /// was never registered is a defect, excluded by precondition.
    pub fn pattern(&self, t: TerminalString) -> (r: &Pattern)
        requires
            self.conversions.wf(),
            self.conversions.as_map().contains_key(t),
        ensures
            *r == self.conversions.as_map()[t],
    {
        proof {
            self.conversions.lemma_view();
        }
        self.conversions.index(t)
    }

    /// The productions of a nonterminal, in declaration order; a
    /// nonterminal absent from the table has none. Absence is expected
    /// not to be reachable when the grammar is fully normalized — every
    /// referenced nonterminal is registered before this lookup runs —
    /// and the empty answer is kept for the absent case rather than
    /// guessed at.
    pub fn productions_for(&self, nonterminal: NonterminalString) -> (r: &[Production])
        requires
            self.nonterminals.wf(),
        ensures
            self.nonterminals.as_map().contains_key(nonterminal) ==> r@ == self.nonterminals.as_map()[nonterminal].productions@,
            !self.nonterminals.as_map().contains_key(nonterminal) ==> r@ =~= Seq::<
                Production,
            >::empty(),
    {
        proof {
            self.nonterminals.lemma_view();
        }
        match self.nonterminals.get(nonterminal) {
            Some(v) => v.productions.as_slice(),
            None => &[],
        }
    }

    /// Renders the grammar's extra parameter names for a generated call
    /// site that forwards them, in declaration order, each followed by
    /// `, `.
    #[verifier::loop_isolation(false)]
    pub fn user_parameter_refs(&self, interner: &Interner) -> (r: String)
        requires
            forall|i: int|
                0 <= i < self.parameters@.len() ==> ((#[trigger] self.parameters@[i]).name.0
                    as int) < interner.texts().len(),
        ensures
            r@ == param_refs_text(self.parameters@, interner.texts()),
    {
        let ghost names = interner.texts();
        let mut s = String::new();
        let mut i: usize = 0;
        while i < self.parameters.len()
            invariant
                i <= self.parameters@.len(),
                s@ == param_refs_text(self.parameters@.take(i as int), names),
            decreases self.parameters@.len() - i,
        {
            s.append(interner.data(self.parameters[i].name));
            s.append(", ");
            proof {
                assert(self.parameters@.take(i + 1).drop_last() =~= self.parameters@.take(
                    i as int,
                ));
                assert(self.parameters@.take(i + 1).last() == self.parameters@[i as int]);
                assert(s@ =~= param_refs_text(self.parameters@.take(i + 1), names));
            }
            i = i + 1;
        }
        proof {
            assert(self.parameters@.take(self.parameters@.len() as int) =~= self.parameters@);
        }
        s
    }
}

} // verus!
