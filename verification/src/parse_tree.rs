//! Concepts shared wholesale between the pre-normalization tree and the
//! compiled representation: source spans, annotations, qualified paths,
//! and the grammar's generic parameters. Nonterminal and terminal names
//! are interned strings.

use vstd::prelude::*;
use vstd::string::StringExecFns;
use crate::intern::{InternedString, Interner};
use crate::text::{sep_join, lemma_sep_join_push};

verus! {

/// A nonterminal's interned name.
pub type NonterminalString = InternedString;

/// A terminal's interned name.
pub type TerminalString = InternedString;

/// A region of the grammar source, as byte offsets.
#[derive(Copy, Clone, PartialEq, Eq, Structural, Hash, PartialOrd, Ord, Debug)]
pub struct Span(pub usize, pub usize);

/// An annotation attached to a nonterminal declaration.
#[derive(Copy, Clone, PartialEq, Eq, Structural, Debug)]
pub struct Annotation {
    pub id_span: Span,
    pub id: InternedString,
}

/// A generic parameter declared on the grammar or referenced by a type:
/// either a lifetime or a (candidate) type name.
#[derive(Copy, Clone, PartialEq, Eq, Structural, Hash, PartialOrd, Ord, Debug)]
pub enum TypeParameter {
    Lifetime(InternedString),
    Id(InternedString),
}

/// A possibly-qualified path, such as `std::vec::Vec`, with its segments
/// in source order.
#[derive(Clone, PartialEq, Eq, Hash, PartialOrd, Ord, Debug)]
pub struct Path {
    pub absolute: bool,
    pub ids: Vec<InternedString>,
}

/// Mathematical shape of a `Path`.
pub struct PathView {
    pub absolute: bool,
    pub ids: Seq<InternedString>,
}

impl View for Path {
    type V = PathView;

    open spec fn view(&self) -> PathView {
        PathView { absolute: self.absolute, ids: self.ids@ }
    }
}

impl PathView {
    /// The single bare identifier this path consists of, if it is one.
    pub open spec fn spec_as_id(self) -> Option<InternedString> {
        if !self.absolute && self.ids.len() == 1 {
            Some(self.ids[0])
        } else {
            None
        }
    }

    /// All segments name registered identities.
    pub open spec fn wf_in(self, names: Seq<Seq<char>>) -> bool {
        forall|i: int| 0 <= i < self.ids.len() ==> (self.ids[i].0 as int) < names.len()
    }
}

/// The rendering of a path: segments joined by `::`, with a leading `::`
/// when the path is absolute.
pub open spec fn path_text(p: PathView, names: Seq<Seq<char>>) -> Seq<char> {
    let joined = sep_join(Seq::new(p.ids.len(), |i: int| names[p.ids[i].0 as int]), "::"@);
    if p.absolute {
        "::"@ + joined
    } else {
        joined
    }
}

impl Path {
    /// The path's identifier when it is a single bare identifier — a
    /// candidate reference to one of the grammar's type parameters.
    pub fn as_id(&self) -> (r: Option<InternedString>)
        ensures
            r == self@.spec_as_id(),
    {
        if !self.absolute && self.ids.len() == 1 {
            Some(self.ids[0])
        } else {
            None
        }
    }

    /// A structurally equal copy.
    #[verifier::loop_isolation(false)]
    pub fn duplicate(&self) -> (r: Path)
        ensures
            r@ == self@,
    {
        let mut ids: Vec<InternedString> = Vec::new();
        let mut i: usize = 0;
        while i < self.ids.len()
            invariant
                i <= self.ids@.len(),
                ids@ =~= self.ids@.take(i as int),
            decreases self.ids@.len() - i,
        {
            ids.push(self.ids[i]);
            i = i + 1;
        }
        proof {
            assert(ids@ =~= self.ids@);
        }
        Path { absolute: self.absolute, ids }
    }

    /// Renders the path in source syntax.
    #[verifier::loop_isolation(false)]
    pub fn path_string(&self, interner: &Interner) -> (r: String)
        requires
            self@.wf_in(interner.texts()),
        ensures
            r@ == path_text(self@, interner.texts()),
    {
        let ghost names = interner.texts();
        let ghost segs = Seq::new(self.ids@.len(), |i: int| names[self.ids@[i].0 as int]);
        let mut s = String::new();
        if self.absolute {
            s.append("::");
        }
        let ghost prefix = s@;
        let mut i: usize = 0;
        while i < self.ids.len()
            invariant
                i <= self.ids@.len(),
                s@ == prefix + sep_join(segs.take(i as int), "::"@),
            decreases self.ids@.len() - i,
        {
            if i > 0 {
                s.append("::");
            }
            proof {
                assert(self@.ids == self.ids@);
                assert((self.ids@[i as int].0 as int) < names.len());
            }
            s.append(interner.data(self.ids[i]));
            proof {
                lemma_sep_join_push(segs.take(i as int), "::"@, segs[i as int]);
                assert(segs.take(i + 1) =~= segs.take(i as int).push(segs[i as int]));
                assert(s@ =~= prefix + sep_join(segs.take(i + 1), "::"@));
            }
            i = i + 1;
        }
        proof {
            assert(segs.take(self.ids@.len() as int) =~= segs);
            assert(sep_join(Seq::<Seq<char>>::empty(), "::"@) == Seq::<char>::empty());
            assert(s@ =~= path_text(self@, names));
        }
        s
    }
}

} // verus!
