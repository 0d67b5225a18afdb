//! The type registry: the single authority for the type of every
//! terminal and nonterminal. Each key is registered at most once —
//! registering a key twice is a construction defect in the normalization
//! pipeline, excluded here by precondition rather than tolerated — and
//! terminals fall back to the grammar-wide token type when no explicit
//! type was registered.

use vstd::prelude::*;
use crate::intern::InternedString;
use crate::intern_map::InternMap;
use crate::parse_tree::{NonterminalString, TerminalString};
use crate::type_repr::{TypeRepr, TypeView};

verus! {

/// The registry of terminal and nonterminal types.
pub struct Types {
    terminal_token_type: TypeRepr,
    terminal_loc_type: Option<TypeRepr>,
    error_type: Option<TypeRepr>,
    terminal_types: InternMap<TypeRepr>,
    nonterminal_types: InternMap<TypeRepr>,
}

impl Types {
    /// The universal token type every terminal shares unless overridden.
    pub closed spec fn token_type(&self) -> TypeRepr {
        self.terminal_token_type
    }

    /// The registered location type, if any.
    pub closed spec fn loc_type(&self) -> Option<TypeRepr> {
        self.terminal_loc_type
    }

    /// The registered error type, if any.
    pub closed spec fn err_type(&self) -> Option<TypeRepr> {
        self.error_type
    }

    /// Explicitly registered terminal types.
    pub closed spec fn terminal_map(&self) -> Map<TerminalString, TypeRepr> {
        self.terminal_types.as_map()
    }

    /// Terminal keys in registration order.
    pub closed spec fn terminal_order(&self) -> Seq<TerminalString> {
        self.terminal_types.key_seq()
    }

    /// Registered nonterminal types.
    pub closed spec fn nonterminal_map(&self) -> Map<NonterminalString, TypeRepr> {
        self.nonterminal_types.as_map()
    }

    /// Nonterminal keys in registration order.
    pub closed spec fn nonterminal_order(&self) -> Seq<NonterminalString> {
        self.nonterminal_types.key_seq()
    }

    /// The registry's internal tables are well formed.
    pub closed spec fn wf(&self) -> bool {
        self.terminal_types.wf() && self.nonterminal_types.wf()
    }

    /// The location type as resolved by lookups: the registered one, or
    /// the zero-element tuple standing for "no location information".
    pub open spec fn spec_loc_view(&self) -> TypeView {
        match self.loc_type() {
            Some(t) => t@,
            None => TypeView::Tuple(Seq::<TypeView>::empty()),
        }
    }

    /// The error type as resolved by lookups.
    pub open spec fn spec_error_view(&self) -> TypeView {
        match self.err_type() {
            Some(t) => t@,
            None => TypeView::Tuple(Seq::<TypeView>::empty()),
        }
    }

    pub fn new(
        terminal_loc_type: Option<TypeRepr>,
        error_type: Option<TypeRepr>,
        terminal_token_type: TypeRepr,
    ) -> (r: Types)
        ensures
            r.wf(),
            r.token_type() == terminal_token_type,
            r.loc_type() == terminal_loc_type,
            r.err_type() == error_type,
            r.terminal_order() =~= Seq::<TerminalString>::empty(),
            r.nonterminal_order() =~= Seq::<NonterminalString>::empty(),
            r.terminal_map() =~= Map::<TerminalString, TypeRepr>::empty(),
            r.nonterminal_map() =~= Map::<NonterminalString, TypeRepr>::empty(),
    {
        Types {
            terminal_loc_type,
            error_type,
            terminal_token_type,
            terminal_types: InternMap::new(),
            nonterminal_types: InternMap::new(),
        }
    }

    /// Registers the type of a nonterminal. A second registration for
    /// the same key would be a fatal defect of the normalization
    /// pipeline; the precondition rules it out, so a registration can
    /// never silently overwrite an earlier one.
    pub fn add_type(&mut self, nt_id: NonterminalString, ty: TypeRepr)
        requires
            old(self).wf(),
            !old(self).nonterminal_map().contains_key(nt_id),
        ensures
            final(self).wf(),
            final(self).nonterminal_map() == old(self).nonterminal_map().insert(nt_id, ty),
            final(self).nonterminal_order() == old(self).nonterminal_order().push(nt_id),
            final(self).token_type() == old(self).token_type(),
            final(self).loc_type() == old(self).loc_type(),
            final(self).err_type() == old(self).err_type(),
            final(self).terminal_map() == old(self).terminal_map(),
            final(self).terminal_order() == old(self).terminal_order(),
    {
        proof {
            self.nonterminal_types.lemma_view();
        }
        self.nonterminal_types.insert(nt_id, ty);
    }

    /// Registers the type of a terminal; as with nonterminals, each key
    /// at most once.
    pub fn add_term_type(&mut self, term: TerminalString, ty: TypeRepr)
        requires
            old(self).wf(),
            !old(self).terminal_map().contains_key(term),
        ensures
            final(self).wf(),
            final(self).terminal_map() == old(self).terminal_map().insert(term, ty),
            final(self).terminal_order() == old(self).terminal_order().push(term),
            final(self).token_type() == old(self).token_type(),
            final(self).loc_type() == old(self).loc_type(),
            final(self).err_type() == old(self).err_type(),
            final(self).nonterminal_map() == old(self).nonterminal_map(),
            final(self).nonterminal_order() == old(self).nonterminal_order(),
    {
        proof {
            self.terminal_types.lemma_view();
        }
        self.terminal_types.insert(term, ty);
    }

    /// The universal token type.
    pub fn terminal_token_type(&self) -> (r: &TypeRepr)
        ensures
            *r == self.token_type(),
    {
        &self.terminal_token_type
    }

    /// The registered location type, if one was registered.
    pub fn opt_terminal_loc_type(&self) -> (r: Option<&TypeRepr>)
        ensures
            match r {
                Some(t) => self.loc_type() == Some(*t),
                None => self.loc_type() is None,
            },
    {
        self.terminal_loc_type.as_ref()
    }

    /// The location type, defaulting to the zero-element tuple.
    pub fn terminal_loc_type(&self) -> (r: TypeRepr)
        ensures
            r@ == self.spec_loc_view(),
    {
        match &self.terminal_loc_type {
            Some(t) => t.duplicate(),
            None => TypeRepr::unit(),
        }
    }

    /// The error type, defaulting to the zero-element tuple.
    pub fn error_type(&self) -> (r: TypeRepr)
        ensures
            r@ == self.spec_error_view(),
    {
        match &self.error_type {
            Some(t) => t.duplicate(),
            None => TypeRepr::unit(),
        }
    }

    /// The type of a terminal: the explicitly registered type when there
    /// is one, and the universal token type otherwise. This fallback is
    /// the only forgiving lookup in the registry.
    pub fn terminal_type(&self, id: TerminalString) -> (r: &TypeRepr)
        requires
            self.wf(),
        ensures
            self.terminal_map().contains_key(id) ==> *r == self.terminal_map()[id],
            !self.terminal_map().contains_key(id) ==> *r == self.token_type(),
    {
        proof {
            self.terminal_types.lemma_view();
        }
        match self.terminal_types.get(id) {
            Some(t) => t,
            None => &self.terminal_token_type,
        }
    }

    /// The registered type of a nonterminal, if one was registered.
    pub fn lookup_nonterminal_type(&self, id: NonterminalString) -> (r: Option<&TypeRepr>)
        requires
            self.wf(),
        ensures
            match r {
                Some(t) => self.nonterminal_map().contains_key(id) && *t
                    == self.nonterminal_map()[id],
                None => !self.nonterminal_map().contains_key(id),
            },
    {
        proof {
            self.nonterminal_types.lemma_view();
        }
        self.nonterminal_types.get(id)
    }

    /// The registered type of a nonterminal; looking up a key that was
    /// never registered is a defect, excluded by precondition.
    pub fn nonterminal_type(&self, id: NonterminalString) -> (r: &TypeRepr)
        requires
            self.wf(),
            self.nonterminal_map().contains_key(id),
        ensures
            *r == self.nonterminal_map()[id],
    {
        proof {
            self.nonterminal_types.lemma_view();
        }
        self.nonterminal_types.index(id)
    }

    /// The registered nonterminal types, in registration order.
    #[verifier::loop_isolation(false)]
    pub fn nonterminal_types(&self) -> (r: Vec<TypeRepr>)
        requires
            self.wf(),
        ensures
            r@.len() == self.nonterminal_order().len(),
            forall|i: int|
                0 <= i < r@.len() ==> r@[i]@ == self.nonterminal_map()[self.nonterminal_order()[i]]@,
    {
        proof {
            self.nonterminal_types.lemma_view();
        }
        let mut r: Vec<TypeRepr> = Vec::new();
        let mut i: usize = 0;
        let n = self.nonterminal_types.len();
        while i < n
            invariant
                i <= n,
                r@.len() == i,
                forall|j: int|
                    0 <= j < i ==> r@[j]@ == self.nonterminal_map()[self.nonterminal_order()[j]]@,
            decreases n - i,
        {
            r.push(self.nonterminal_types.val_at(i).duplicate());
            i = i + 1;
        }
        r
    }

    /// The canonical per-token payload: one lexed token with its start
    /// and end locations, `(location, token, location)`.
    pub fn triple_type(&self) -> (r: TypeRepr)
        ensures
            r@ == TypeView::Tuple(
                seq![self.spec_loc_view(), self.token_type()@, self.spec_loc_view()],
            ),
    {
        let location_type = self.terminal_loc_type();
        let location_type2 = self.terminal_loc_type();
        let enum_type = self.terminal_token_type().duplicate();
        let mut elems: Vec<TypeRepr> = Vec::new();
        elems.push(location_type);
        elems.push(enum_type);
        elems.push(location_type2);
        let r = TypeRepr::Tuple(elems);
        proof {
            crate::type_repr::lemma_views_of(elems@);
            assert(crate::type_repr::views_of(elems@) =~= seq![
                self.spec_loc_view(),
                self.token_type()@,
                self.spec_loc_view(),
            ]);
        }
        r
    }
}

} // verus!
