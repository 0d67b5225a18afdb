//! The type algebra: a small recursive language of type expressions —
//! tuples, nominal (possibly generic) types, lifetimes and references —
//! together with the derivation of which type and lifetime parameters a
//! type expression mentions, and the canonical rendering to source
//! syntax.

use vstd::prelude::*;
use vstd::string::StringExecFns;
use crate::intern::{InternedString, Interner};
use crate::parse_tree::{Path, PathView, TypeParameter, path_text};
use crate::text::{sep_join, lemma_sep_join_push};

verus! {

/// A type expression.
pub enum TypeRepr {
    Tuple(Vec<TypeRepr>),
    Nominal(NominalTypeRepr),
    Lifetime(InternedString),
    Ref { lifetime: Option<InternedString>, mutable: bool, referent: Box<TypeRepr> },
}

/// A nominal type: a path applied to type arguments.
pub struct NominalTypeRepr {
    pub path: Path,
    pub types: Vec<TypeRepr>,
}

/// Mathematical shape of a `TypeRepr`.
pub enum TypeView {
    Tuple(Seq<TypeView>),
    Nominal(NominalView),
    Lifetime(InternedString),
    Ref { lifetime: Option<InternedString>, mutable: bool, referent: Box<TypeView> },
}

/// Mathematical shape of a `NominalTypeRepr`.
pub struct NominalView {
    pub path: PathView,
    pub types: Seq<TypeView>,
}

/// The views of a sequence of type expressions, in order.
pub open spec fn views_of(ts: Seq<TypeRepr>) -> Seq<TypeView>
    decreases ts,
{
    if ts.len() == 0 {
        Seq::empty()
    } else {
        views_of(ts.drop_last()).push(ts.last()@)
    }
}

impl View for TypeRepr {
    type V = TypeView;

    open spec fn view(&self) -> TypeView
        decreases self,
    {
        match self {
            TypeRepr::Tuple(ts) => TypeView::Tuple(views_of(ts@)),
            TypeRepr::Nominal(data) => TypeView::Nominal(
                NominalView { path: data.path@, types: views_of(data.types@) },
            ),
            TypeRepr::Lifetime(l) => TypeView::Lifetime(*l),
            TypeRepr::Ref { lifetime, mutable, referent } => TypeView::Ref {
                lifetime: *lifetime,
                mutable: *mutable,
                referent: Box::new((**referent)@),
            },
        }
    }
}

impl View for NominalTypeRepr {
    type V = NominalView;

    open spec fn view(&self) -> NominalView
        decreases self,
    {
        NominalView { path: self.path@, types: views_of(self.types@) }
    }
}

/// `views_of` is the pointwise view.
pub proof fn lemma_views_of(ts: Seq<TypeRepr>)
    ensures
        views_of(ts).len() == ts.len(),
        forall|i: int| 0 <= i < ts.len() ==> views_of(ts)[i] == ts[i]@,
    decreases ts,
{
    if ts.len() > 0 {
        lemma_views_of(ts.drop_last());
        assert(views_of(ts) == views_of(ts.drop_last()).push(ts.last()@));
        assert forall|i: int| 0 <= i < ts.len() implies views_of(ts)[i] == ts[i]@ by {
            if i < ts.len() - 1 {
                assert(views_of(ts)[i] == views_of(ts.drop_last())[i]);
                assert(ts.drop_last()[i] == ts[i]);
            } else {
                assert(views_of(ts)[i] == ts.last()@);
            }
        }
    }
}

/// The type parameters (or potential type parameters) referenced by a
/// type expression, in recursion order: for the type `&'x X` these are
/// the lifetime `'x` and the candidate identifier `X`. A bare one-segment
/// nominal path is reported as a candidate even when it is not one of the
/// grammar's declared parameters; callers filter against the declared
/// list. Nothing is deduplicated.
pub open spec fn referenced_spec(t: TypeView) -> Seq<TypeParameter>
    decreases t,
{
    match t {
        TypeView::Tuple(ts) => referenced_of_seq(ts),
        TypeView::Nominal(n) => referenced_of_seq(n.types) + (match n.path.spec_as_id() {
            Some(id) => seq![TypeParameter::Id(id)],
            None => Seq::empty(),
        }),
        TypeView::Lifetime(l) => seq![TypeParameter::Lifetime(l)],
        TypeView::Ref { lifetime, mutable, referent } => (match lifetime {
            Some(l) => seq![TypeParameter::Lifetime(l)],
            None => Seq::empty(),
        }) + referenced_spec(*referent),
    }
}

/// The concatenation of `referenced_spec` over a sequence, in order.
pub open spec fn referenced_of_seq(ts: Seq<TypeView>) -> Seq<TypeParameter>
    decreases ts,
{
    if ts.len() == 0 {
        Seq::empty()
    } else {
        referenced_spec(ts.first()) + referenced_of_seq(ts.drop_first())
    }
}

/// Unfolds `referenced_of_seq` from the back.
pub proof fn lemma_referenced_snoc(ts: Seq<TypeView>, x: TypeView)
    ensures
        referenced_of_seq(ts.push(x)) == referenced_of_seq(ts) + referenced_spec(x),
    decreases ts.len(),
{
    if ts.len() == 0 {
        assert(ts.push(x).drop_first() =~= Seq::<TypeView>::empty());
        assert(ts.push(x).first() == x);
        assert(referenced_of_seq(ts) == Seq::<TypeParameter>::empty());
        assert(referenced_of_seq(ts.push(x)) == referenced_spec(x) + referenced_of_seq(
            ts.push(x).drop_first(),
        ));
        assert(referenced_spec(x) + Seq::<TypeParameter>::empty() =~= Seq::<
            TypeParameter,
        >::empty() + referenced_spec(x));
    } else {
        lemma_referenced_snoc(ts.drop_first(), x);
        assert(ts.push(x).drop_first() =~= ts.drop_first().push(x));
        assert(ts.push(x).first() == ts.first());
        assert(referenced_of_seq(ts.push(x)) == referenced_spec(ts.first()) + (referenced_of_seq(
            ts.drop_first(),
        ) + referenced_spec(x)));
        assert(referenced_spec(ts.first()) + (referenced_of_seq(ts.drop_first())
            + referenced_spec(x)) =~= (referenced_spec(ts.first()) + referenced_of_seq(
            ts.drop_first(),
        )) + referenced_spec(x));
    }
}

/// Concatenation preserves membership from either side.
proof fn lemma_contains_concat(a: Seq<TypeParameter>, b: Seq<TypeParameter>, x: TypeParameter)
    requires
        a.contains(x) || b.contains(x),
    ensures
        (a + b).contains(x),
{
    if a.contains(x) {
        let i = choose|i: int| 0 <= i < a.len() && a[i] == x;
        assert((a + b)[i] == x);
    } else {
        let i = choose|i: int| 0 <= i < b.len() && b[i] == x;
        assert((a + b)[a.len() + i] == x);
    }
}

/// The lifetimes reachable in a type expression: every `Lifetime` node
/// and every present `Ref` lifetime.
pub open spec fn reachable_lifetimes(t: TypeView) -> Set<InternedString>
    decreases t,
{
    match t {
        TypeView::Tuple(ts) => seq_reachable_lifetimes(ts),
        TypeView::Nominal(n) => seq_reachable_lifetimes(n.types),
        TypeView::Lifetime(l) => set![l],
        TypeView::Ref { lifetime, mutable, referent } => match lifetime {
            Some(l) => reachable_lifetimes(*referent).insert(l),
            None => reachable_lifetimes(*referent),
        },
    }
}

/// The union of `reachable_lifetimes` over a sequence.
pub open spec fn seq_reachable_lifetimes(ts: Seq<TypeView>) -> Set<InternedString>
    decreases ts,
{
    if ts.len() == 0 {
        Set::empty()
    } else {
        seq_reachable_lifetimes(ts.drop_first()).union(reachable_lifetimes(ts.first()))
    }
}

/// The candidate type-parameter identifiers reachable in a type
/// expression: every bare single-identifier nominal path.
pub open spec fn reachable_candidate_ids(t: TypeView) -> Set<InternedString>
    decreases t,
{
    match t {
        TypeView::Tuple(ts) => seq_reachable_candidate_ids(ts),
        TypeView::Nominal(n) => seq_reachable_candidate_ids(n.types).union(
            match n.path.spec_as_id() {
                Some(id) => set![id],
                None => Set::empty(),
            },
        ),
        TypeView::Lifetime(l) => Set::empty(),
        TypeView::Ref { lifetime, mutable, referent } => reachable_candidate_ids(*referent),
    }
}

/// The union of `reachable_candidate_ids` over a sequence.
pub open spec fn seq_reachable_candidate_ids(ts: Seq<TypeView>) -> Set<InternedString>
    decreases ts,
{
    if ts.len() == 0 {
        Set::empty()
    } else {
        seq_reachable_candidate_ids(ts.drop_first()).union(
            reachable_candidate_ids(ts.first()),
        )
    }
}

/// Law: the derivation is complete. `referenced_spec(t)` holds a
/// `Lifetime` entry for every `Lifetime` node and every present `Ref`
/// lifetime reachable in `t`, and a candidate `Id` entry for every bare
/// single-identifier nominal path reachable in `t`. Its order is
/// deterministic by construction: it is a function of `t` alone, with
/// element order preserved.
pub proof fn lemma_referenced_covers(t: TypeView)
    ensures
        forall|l: InternedString|
            reachable_lifetimes(t).contains(l) ==> referenced_spec(t).contains(
                TypeParameter::Lifetime(l),
            ),
        forall|id: InternedString|
            reachable_candidate_ids(t).contains(id) ==> referenced_spec(t).contains(
                TypeParameter::Id(id),
            ),
    decreases t,
{
    match t {
        TypeView::Tuple(ts) => {
            lemma_seq_referenced_covers(ts);
            assert forall|l: InternedString|
                reachable_lifetimes(t).contains(l) implies referenced_spec(t).contains(
                TypeParameter::Lifetime(l),
            ) by {
                assert(seq_reachable_lifetimes(ts).contains(l));
                assert(referenced_of_seq(ts).contains(TypeParameter::Lifetime(l)));
            }
            assert forall|id: InternedString|
                reachable_candidate_ids(t).contains(id) implies referenced_spec(t).contains(
                TypeParameter::Id(id),
            ) by {
                assert(seq_reachable_candidate_ids(ts).contains(id));
                assert(referenced_of_seq(ts).contains(TypeParameter::Id(id)));
            }
        },
        TypeView::Nominal(n) => {
            lemma_seq_referenced_covers(n.types);
            let tail = (match n.path.spec_as_id() {
                Some(id) => seq![TypeParameter::Id(id)],
                None => Seq::<TypeParameter>::empty(),
            });
            assert forall|l: InternedString|
                reachable_lifetimes(t).contains(l) implies referenced_spec(t).contains(
                TypeParameter::Lifetime(l),
            ) by {
                assert(seq_reachable_lifetimes(n.types).contains(l));
                assert(referenced_of_seq(n.types).contains(TypeParameter::Lifetime(l)));
                lemma_contains_concat(
                    referenced_of_seq(n.types),
                    tail,
                    TypeParameter::Lifetime(l),
                );
            }
            assert forall|id: InternedString|
                reachable_candidate_ids(t).contains(id) implies referenced_spec(t).contains(
                TypeParameter::Id(id),
            ) by {
                if seq_reachable_candidate_ids(n.types).contains(id) {
                    assert(referenced_of_seq(n.types).contains(TypeParameter::Id(id)));
                    lemma_contains_concat(
                        referenced_of_seq(n.types),
                        tail,
                        TypeParameter::Id(id),
                    );
                } else {
                    assert(n.path.spec_as_id() == Some(id));
                    assert(tail[0] == TypeParameter::Id(id));
                    assert(tail.contains(TypeParameter::Id(id)));
                    lemma_contains_concat(
                        referenced_of_seq(n.types),
                        tail,
                        TypeParameter::Id(id),
                    );
                }
            }
        },
        TypeView::Lifetime(l) => {
            assert forall|l2: InternedString|
                reachable_lifetimes(t).contains(l2) implies referenced_spec(t).contains(
                TypeParameter::Lifetime(l2),
            ) by {
                assert(l2 == l);
                assert(referenced_spec(t)[0] == TypeParameter::Lifetime(l));
            }
        },
        TypeView::Ref { lifetime, mutable, referent } => {
            lemma_referenced_covers(*referent);
            let head = (match lifetime {
                Some(l) => seq![TypeParameter::Lifetime(l)],
                None => Seq::<TypeParameter>::empty(),
            });
            assert forall|l: InternedString|
                reachable_lifetimes(t).contains(l) implies referenced_spec(t).contains(
                TypeParameter::Lifetime(l),
            ) by {
                if lifetime == Some(l) {
                    assert(head[0] == TypeParameter::Lifetime(l));
                    assert(head.contains(TypeParameter::Lifetime(l)));
                    lemma_contains_concat(
                        head,
                        referenced_spec(*referent),
                        TypeParameter::Lifetime(l),
                    );
                } else {
                    assert(reachable_lifetimes(*referent).contains(l));
                    assert(referenced_spec(*referent).contains(TypeParameter::Lifetime(l)));
                    lemma_contains_concat(
                        head,
                        referenced_spec(*referent),
                        TypeParameter::Lifetime(l),
                    );
                }
            }
            assert forall|id: InternedString|
                reachable_candidate_ids(t).contains(id) implies referenced_spec(t).contains(
                TypeParameter::Id(id),
            ) by {
                assert(reachable_candidate_ids(*referent).contains(id));
                assert(referenced_spec(*referent).contains(TypeParameter::Id(id)));
                lemma_contains_concat(head, referenced_spec(*referent), TypeParameter::Id(id));
            }
        },
    }
}

/// Law helper: completeness over a sequence of type expressions.
pub proof fn lemma_seq_referenced_covers(ts: Seq<TypeView>)
    ensures
        forall|l: InternedString|
            seq_reachable_lifetimes(ts).contains(l) ==> referenced_of_seq(ts).contains(
                TypeParameter::Lifetime(l),
            ),
        forall|id: InternedString|
            seq_reachable_candidate_ids(ts).contains(id) ==> referenced_of_seq(ts).contains(
                TypeParameter::Id(id),
            ),
    decreases ts,
{
    if ts.len() > 0 {
        lemma_referenced_covers(ts.first());
        lemma_seq_referenced_covers(ts.drop_first());
        assert forall|l: InternedString|
            seq_reachable_lifetimes(ts).contains(l) implies referenced_of_seq(ts).contains(
            TypeParameter::Lifetime(l),
        ) by {
            if reachable_lifetimes(ts.first()).contains(l) {
                assert(referenced_spec(ts.first()).contains(TypeParameter::Lifetime(l)));
            } else {
                assert(seq_reachable_lifetimes(ts.drop_first()).contains(l));
                assert(referenced_of_seq(ts.drop_first()).contains(TypeParameter::Lifetime(l)));
            }
            lemma_contains_concat(
                referenced_spec(ts.first()),
                referenced_of_seq(ts.drop_first()),
                TypeParameter::Lifetime(l),
            );
        }
        assert forall|id: InternedString|
            seq_reachable_candidate_ids(ts).contains(id) implies referenced_of_seq(ts).contains(
            TypeParameter::Id(id),
        ) by {
            if reachable_candidate_ids(ts.first()).contains(id) {
                assert(referenced_spec(ts.first()).contains(TypeParameter::Id(id)));
            } else {
                assert(seq_reachable_candidate_ids(ts.drop_first()).contains(id));
                assert(referenced_of_seq(ts.drop_first()).contains(TypeParameter::Id(id)));
            }
            lemma_contains_concat(
                referenced_spec(ts.first()),
                referenced_of_seq(ts.drop_first()),
                TypeParameter::Id(id),
            );
        }
    }
}

impl TypeRepr {
    /// The tuple type with no elements, used as the default location and
    /// error type.
    pub fn unit() -> (r: TypeRepr)
        ensures
            r@ == TypeView::Tuple(Seq::<TypeView>::empty()),
    {
        let r = TypeRepr::Tuple(Vec::new());
        proof {
            assert(views_of(Seq::<TypeRepr>::empty()) == Seq::<TypeView>::empty());
        }
        r
    }

    /// The nominal type `usize`, with the name registered in the interner.
    pub fn usize_type(interner: &mut Interner) -> (r: TypeRepr)
        requires
            old(interner).wf(),
            old(interner).texts().len() < u32::MAX as int,
        ensures
            final(interner).wf(),
            final(interner).texts().len() >= old(interner).texts().len(),
            forall|i: int|
                0 <= i < old(interner).texts().len() ==> final(interner).texts()[i] == old(
                    interner,
                ).texts()[i],
            (r@ matches TypeView::Nominal(n) && n.types.len() == 0 && !n.path.absolute
                && n.path.ids.len() == 1 && final(interner).text_of(n.path.ids[0]) == "usize"@),
    {
        let id = interner.intern("usize");
        let mut ids: Vec<InternedString> = Vec::new();
        ids.push(id);
        let r = TypeRepr::Nominal(
            NominalTypeRepr { path: Path { absolute: false, ids }, types: Vec::new() },
        );
        proof {
            assert(views_of(Seq::<TypeRepr>::empty()) == Seq::<TypeView>::empty());
        }
        r
    }

    /// The nominal type `str`, with the name registered in the interner.
    pub fn str_type(interner: &mut Interner) -> (r: TypeRepr)
        requires
            old(interner).wf(),
            old(interner).texts().len() < u32::MAX as int,
        ensures
            final(interner).wf(),
            final(interner).texts().len() >= old(interner).texts().len(),
            forall|i: int|
                0 <= i < old(interner).texts().len() ==> final(interner).texts()[i] == old(
                    interner,
                ).texts()[i],
            (r@ matches TypeView::Nominal(n) && n.types.len() == 0 && !n.path.absolute
                && n.path.ids.len() == 1 && final(interner).text_of(n.path.ids[0]) == "str"@),
    {
        let id = interner.intern("str");
        let mut ids: Vec<InternedString> = Vec::new();
        ids.push(id);
        let r = TypeRepr::Nominal(
            NominalTypeRepr { path: Path { absolute: false, ids }, types: Vec::new() },
        );
        proof {
            assert(views_of(Seq::<TypeRepr>::empty()) == Seq::<TypeView>::empty());
        }
        r
    }

    /// The referenced type and lifetime parameters, in recursion order.
    #[verifier::loop_isolation(false)]
    pub fn referenced(&self) -> (r: Vec<TypeParameter>)
        ensures
            r@ == referenced_spec(self@),
        decreases self,
    {
        match self {
            TypeRepr::Tuple(ts) => {
                let ghost vs = views_of(ts@);
                proof {
                    lemma_views_of(ts@);
                }
                let mut r: Vec<TypeParameter> = Vec::new();
                let mut i: usize = 0;
                while i < ts.len()
                    invariant
                        i <= ts@.len(),
                        r@ == referenced_of_seq(vs.take(i as int)),
                    decreases ts@.len() - i,
                {
                    let mut sub = ts[i].referenced();
                    r.append(&mut sub);
                    proof {
                        lemma_referenced_snoc(vs.take(i as int), vs[i as int]);
                        assert(vs.take(i + 1) =~= vs.take(i as int).push(vs[i as int]));
                    }
                    i = i + 1;
                }
                proof {
                    assert(vs.take(ts@.len() as int) =~= vs);
                }
                r
            },
            TypeRepr::Nominal(data) => {
                let ghost vs = views_of(data.types@);
                proof {
                    lemma_views_of(data.types@);
                }
                let mut r: Vec<TypeParameter> = Vec::new();
                let mut i: usize = 0;
                while i < data.types.len()
                    invariant
                        i <= data.types@.len(),
                        r@ == referenced_of_seq(vs.take(i as int)),
                    decreases data.types@.len() - i,
                {
                    let mut sub = data.types[i].referenced();
                    r.append(&mut sub);
                    proof {
                        lemma_referenced_snoc(vs.take(i as int), vs[i as int]);
                        assert(vs.take(i + 1) =~= vs.take(i as int).push(vs[i as int]));
                    }
                    i = i + 1;
                }
                proof {
                    assert(vs.take(data.types@.len() as int) =~= vs);
                }
                match data.path.as_id() {
                    Some(id) => {
                        r.push(TypeParameter::Id(id));
                        proof {
                            assert(r@ =~= referenced_of_seq(vs) + seq![TypeParameter::Id(id)]);
                        }
                    },
                    None => {
                        proof {
                            assert(r@ =~= referenced_of_seq(vs) + Seq::<TypeParameter>::empty());
                        }
                    },
                }
                r
            },
            TypeRepr::Lifetime(l) => {
                let mut r: Vec<TypeParameter> = Vec::new();
                r.push(TypeParameter::Lifetime(*l));
                proof {
                    assert(r@ =~= seq![TypeParameter::Lifetime(*l)]);
                }
                r
            },
            TypeRepr::Ref { lifetime, mutable, referent } => {
                let mut r: Vec<TypeParameter> = Vec::new();
                match lifetime {
                    Some(l) => {
                        r.push(TypeParameter::Lifetime(*l));
                        proof {
                            assert(r@ =~= seq![TypeParameter::Lifetime(*l)]);
                        }
                    },
                    None => {},
                }
                let ghost prefix = r@;
                let mut sub = referent.referenced();
                r.append(&mut sub);
                proof {
                    assert(r@ =~= prefix + referenced_spec((**referent)@));
                    assert(prefix =~= (match *lifetime {
                        Some(l) => seq![TypeParameter::Lifetime(l)],
                        None => Seq::<TypeParameter>::empty(),
                    }));
                }
                r
            },
        }
    }

    /// A structurally equal copy.
    #[verifier::loop_isolation(false)]
    pub fn duplicate(&self) -> (r: TypeRepr)
        ensures
            r@ == self@,
        decreases self,
    {
        match self {
            TypeRepr::Tuple(ts) => {
                let mut out: Vec<TypeRepr> = Vec::new();
                let mut i: usize = 0;
                while i < ts.len()
                    invariant
                        i <= ts@.len(),
                        out@.len() == i,
                        forall|j: int| 0 <= j < i ==> out@[j]@ == ts@[j]@,
                    decreases ts@.len() - i,
                {
                    out.push(ts[i].duplicate());
                    i = i + 1;
                }
                let r = TypeRepr::Tuple(out);
                proof {
                    lemma_views_of(out@);
                    lemma_views_of(ts@);
                    assert(views_of(out@) =~= views_of(ts@));
                }
                r
            },
            TypeRepr::Nominal(data) => TypeRepr::Nominal(data.duplicate()),
            TypeRepr::Lifetime(l) => TypeRepr::Lifetime(*l),
            TypeRepr::Ref { lifetime, mutable, referent } => TypeRepr::Ref {
                lifetime: *lifetime,
                mutable: *mutable,
                referent: Box::new(referent.duplicate()),
            },
        }
    }
}

/// Every name mentioned in the type is a registered identity.
pub open spec fn term_wf(t: TypeView, names: Seq<Seq<char>>) -> bool
    decreases t,
{
    match t {
        TypeView::Tuple(ts) => terms_wf(ts, names),
        TypeView::Nominal(n) => n.path.wf_in(names) && terms_wf(n.types, names),
        TypeView::Lifetime(l) => (l.0 as int) < names.len(),
        TypeView::Ref { lifetime, mutable, referent } => (match lifetime {
            Some(l) => (l.0 as int) < names.len(),
            None => true,
        }) && term_wf(*referent, names),
    }
}

/// `term_wf` for each element.
pub open spec fn terms_wf(ts: Seq<TypeView>, names: Seq<Seq<char>>) -> bool
    decreases ts,
{
    if ts.len() == 0 {
        true
    } else {
        terms_wf(ts.drop_last(), names) && term_wf(ts.last(), names)
    }
}

/// `terms_wf` is the pointwise condition.
pub proof fn lemma_terms_wf(ts: Seq<TypeView>, names: Seq<Seq<char>>)
    ensures
        terms_wf(ts, names) <==> (forall|i: int| 0 <= i < ts.len() ==> term_wf(ts[i], names)),
    decreases ts,
{
    if ts.len() > 0 {
        lemma_terms_wf(ts.drop_last(), names);
        assert forall|i: int| 0 <= i < ts.len() - 1 implies ts.drop_last()[i] == ts[i] by {}
        if terms_wf(ts, names) {
            assert forall|i: int| 0 <= i < ts.len() implies term_wf(ts[i], names) by {
                if i < ts.len() - 1 {
                    assert(term_wf(ts.drop_last()[i], names));
                }
            }
        }
        if forall|i: int| 0 <= i < ts.len() ==> term_wf(ts[i], names) {
            assert forall|i: int| 0 <= i < ts.drop_last().len() implies term_wf(
                ts.drop_last()[i],
                names,
            ) by {
                assert(term_wf(ts[i], names));
            }
        }
    }
}

/// The canonical rendering of a type expression in source syntax:
/// tuples as parenthesized comma lists, references with their optional
/// lifetime and mutability qualifiers, nominal types with an
/// angle-bracketed argument list only when arguments are present.
pub open spec fn type_text(t: TypeView, names: Seq<Seq<char>>) -> Seq<char>
    decreases t,
{
    match t {
        TypeView::Tuple(ts) => "("@ + sep_join(type_texts(ts, names), ", "@) + ")"@,
        TypeView::Nominal(n) => nominal_text(n, names),
        TypeView::Lifetime(l) => names[l.0 as int],
        TypeView::Ref { lifetime: None, mutable: false, referent } => "&"@ + type_text(
            *referent,
            names,
        ),
        TypeView::Ref { lifetime: Some(l), mutable: false, referent } => "&"@ + names[l.0 as int]
            + " "@ + type_text(*referent, names),
        TypeView::Ref { lifetime: None, mutable: true, referent } => "&mut "@ + type_text(
            *referent,
            names,
        ),
        TypeView::Ref { lifetime: Some(l), mutable: true, referent } => "&"@ + names[l.0 as int]
            + " mut "@ + type_text(*referent, names),
    }
}

/// The renderings of a sequence of type expressions, in order.
pub open spec fn type_texts(ts: Seq<TypeView>, names: Seq<Seq<char>>) -> Seq<Seq<char>>
    decreases ts,
{
    if ts.len() == 0 {
        Seq::empty()
    } else {
        type_texts(ts.drop_last(), names).push(type_text(ts.last(), names))
    }
}

/// The rendering of a nominal type.
pub open spec fn nominal_text(n: NominalView, names: Seq<Seq<char>>) -> Seq<char>
    decreases n,
{
    if n.types.len() == 0 {
        path_text(n.path, names)
    } else {
        path_text(n.path, names) + "<"@ + sep_join(type_texts(n.types, names), ", "@) + ">"@
    }
}

/// `type_texts` is the pointwise rendering.
pub proof fn lemma_type_texts(ts: Seq<TypeView>, names: Seq<Seq<char>>)
    ensures
        type_texts(ts, names).len() == ts.len(),
        forall|i: int|
            0 <= i < ts.len() ==> type_texts(ts, names)[i] == type_text(ts[i], names),
    decreases ts,
{
    if ts.len() > 0 {
        lemma_type_texts(ts.drop_last(), names);
        assert forall|i: int|
            0 <= i < ts.len() implies type_texts(ts, names)[i] == type_text(ts[i], names) by {
            if i < ts.len() - 1 {
                assert(type_texts(ts, names)[i] == type_texts(ts.drop_last(), names)[i]);
                assert(ts.drop_last()[i] == ts[i]);
            }
        }
    }
}

impl TypeRepr {
    /// Renders the type in source syntax; diagnostics use the same
    /// rendering.
    #[verifier::loop_isolation(false)]
    pub fn type_string(&self, interner: &Interner) -> (r: String)
        requires
            term_wf(self@, interner.texts()),
        ensures
            r@ == type_text(self@, interner.texts()),
        decreases self,
    {
        let ghost names = interner.texts();
        match self {
            TypeRepr::Tuple(ts) => {
                let ghost vs = views_of(ts@);
                proof {
                    lemma_views_of(ts@);
                    lemma_type_texts(vs, names);
                    lemma_terms_wf(vs, names);
                }
                let mut s = String::new();
                s.append("(");
                let mut i: usize = 0;
                while i < ts.len()
                    invariant
                        i <= ts@.len(),
                        s@ == "("@ + sep_join(type_texts(vs.take(i as int), names), ", "@),
                    decreases ts@.len() - i,
                {
                    if i > 0 {
                        s.append(", ");
                    }
                    proof {
                        assert(vs[i as int] == ts@[i as int]@);
                        assert(term_wf(vs[i as int], names));
                    }
                    let piece = ts[i].type_string(interner);
                    s.append(piece.as_str());
                    proof {
                        lemma_type_texts(vs.take(i as int), names);
                        lemma_sep_join_push(
                            type_texts(vs.take(i as int), names),
                            ", "@,
                            type_text(vs[i as int], names),
                        );
                        assert(type_texts(vs.take(i + 1), names) =~= type_texts(
                            vs.take(i as int),
                            names,
                        ).push(type_text(vs[i as int], names))) by {
                            lemma_type_texts(vs.take(i + 1), names);
                            assert(vs.take(i + 1).drop_last() =~= vs.take(i as int));
                        }
                        assert(s@ =~= "("@ + sep_join(type_texts(vs.take(i + 1), names), ", "@));
                    }
                    i = i + 1;
                }
                s.append(")");
                proof {
                    assert(vs.take(ts@.len() as int) =~= vs);
                    assert(s@ =~= type_text(self@, names));
                }
                s
            },
            TypeRepr::Nominal(data) => data.nominal_string(interner),
            TypeRepr::Lifetime(l) => {
                let r = interner.data(*l).to_owned();
                r
            },
            TypeRepr::Ref { lifetime, mutable, referent } => {
                let mut s = String::new();
                match (lifetime, mutable) {
                    (None, false) => {
                        s.append("&");
                    },
                    (Some(l), false) => {
                        s.append("&");
                        s.append(interner.data(*l));
                        s.append(" ");
                    },
                    (None, true) => {
                        s.append("&mut ");
                    },
                    (Some(l), true) => {
                        s.append("&");
                        s.append(interner.data(*l));
                        s.append(" mut ");
                    },
                }
                let piece = referent.type_string(interner);
                s.append(piece.as_str());
                proof {
                    assert(s@ =~= type_text(self@, names));
                }
                s
            },
        }
    }
}

impl NominalTypeRepr {
    /// Renders the nominal type in source syntax.
    #[verifier::loop_isolation(false)]
    pub fn nominal_string(&self, interner: &Interner) -> (r: String)
        requires
            self@.path.wf_in(interner.texts()),
            terms_wf(self@.types, interner.texts()),
        ensures
            r@ == nominal_text(self@, interner.texts()),
        decreases self,
    {
        let ghost names = interner.texts();
        let ghost vs = views_of(self.types@);
        proof {
            lemma_views_of(self.types@);
            lemma_type_texts(vs, names);
            lemma_terms_wf(vs, names);
        }
        let mut s = self.path.path_string(interner);
        if self.types.len() == 0 {
            return s;
        }
        s.append("<");
        let ghost prefix = s@;
        let mut i: usize = 0;
        while i < self.types.len()
            invariant
                i <= self.types@.len(),
                s@ == prefix + sep_join(type_texts(vs.take(i as int), names), ", "@),
            decreases self.types@.len() - i,
        {
            if i > 0 {
                s.append(", ");
            }
            proof {
                assert(vs[i as int] == self.types@[i as int]@);
                assert(term_wf(vs[i as int], names));
            }
            let piece = self.types[i].type_string(interner);
            s.append(piece.as_str());
            proof {
                lemma_type_texts(vs.take(i as int), names);
                lemma_sep_join_push(
                    type_texts(vs.take(i as int), names),
                    ", "@,
                    type_text(vs[i as int], names),
                );
                assert(type_texts(vs.take(i + 1), names) =~= type_texts(
                    vs.take(i as int),
                    names,
                ).push(type_text(vs[i as int], names))) by {
                    lemma_type_texts(vs.take(i + 1), names);
                    assert(vs.take(i + 1).drop_last() =~= vs.take(i as int));
                }
                assert(s@ =~= prefix + sep_join(type_texts(vs.take(i + 1), names), ", "@));
            }
            i = i + 1;
        }
        s.append(">");
        proof {
            assert(vs.take(self.types@.len() as int) =~= vs);
            assert(s@ =~= nominal_text(self@, names));
        }
        s
    }

    /// A structurally equal copy.
    #[verifier::loop_isolation(false)]
    pub fn duplicate(&self) -> (r: NominalTypeRepr)
        ensures
            r@ == self@,
        decreases self,
    {
        let mut out: Vec<TypeRepr> = Vec::new();
        let mut i: usize = 0;
        while i < self.types.len()
            invariant
                i <= self.types@.len(),
                out@.len() == i,
                forall|j: int| 0 <= j < i ==> out@[j]@ == self.types@[j]@,
            decreases self.types@.len() - i,
        {
            out.push(self.types[i].duplicate());
            i = i + 1;
        }
        let r = NominalTypeRepr { path: self.path.duplicate(), types: out };
        proof {
            lemma_views_of(out@);
            lemma_views_of(self.types@);
            assert(views_of(out@) =~= views_of(self.types@));
        }
        r
    }
}

} // verus!
