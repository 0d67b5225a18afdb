//! String interning: every name that occurs in the grammar is registered
//! once in an `Interner` and referred to everywhere else by its
//! `InternedString` identity, which is cheap to copy and compare. The
//! interner is threaded explicitly through construction; looking a name up
//! again always yields the identity it was first given.

use vstd::prelude::*;
use vstd::string::StringExecFns;

verus! {

/// Identity of an interned name: an index into the interner's table.
/// Two names registered in the same interner are equal exactly when
/// their `InternedString` values are equal.
#[derive(Copy, Clone, PartialEq, Eq, Structural, Hash, PartialOrd, Ord, Debug)]
pub struct InternedString(pub u32);

/// The identity arena for names. It owns every distinct name text once,
/// in registration order, and hands out `InternedString` indices into
/// that table.
pub struct Interner {
    strings: Vec<String>,
}

impl Interner {
    /// The registered name texts, in registration order.
    pub closed spec fn texts(&self) -> Seq<Seq<char>> {
        Seq::new(self.strings@.len(), |i: int| self.strings@[i]@)
    }

    /// No text is registered twice; this is what makes identity
    /// comparison agree with text comparison.
    pub open spec fn wf(&self) -> bool {
        forall|i: int, j: int|
            0 <= i < j < self.texts().len() ==> self.texts()[i] != self.texts()[j]
    }

    /// Whether an identity was handed out by this interner.
    pub open spec fn valid(&self, s: InternedString) -> bool {
        (s.0 as int) < self.texts().len()
    }

    /// The text behind an identity.
    pub open spec fn text_of(&self, s: InternedString) -> Seq<char> {
        self.texts()[s.0 as int]
    }

    /// Whether some identity with this text was already handed out.
    pub open spec fn has_text(&self, t: Seq<char>) -> bool {
        exists|i: int| 0 <= i < self.texts().len() && self.texts()[i] == t
    }

    pub fn new() -> (r: Interner)
        ensures
            r.texts().len() == 0,
            r.wf(),
    {
        Interner { strings: Vec::new() }
    }

    /// Registers a name and returns its identity; a name seen before
    /// keeps the identity it was first given, so existing identities
    /// are never disturbed.
    #[verifier::loop_isolation(false)]
    pub fn intern(&mut self, s: &str) -> (r: InternedString)
        requires
            old(self).wf(),
            old(self).texts().len() < u32::MAX as int,
        ensures
            final(self).wf(),
            final(self).valid(r),
            final(self).text_of(r) == s@,
            forall|i: int|
                0 <= i < old(self).texts().len() ==> final(self).texts()[i] == old(
                    self,
                ).texts()[i],
            old(self).has_text(s@) ==> final(self).texts() == old(self).texts(),
            !old(self).has_text(s@) ==> final(self).texts() == old(self).texts().push(s@),
    {
        let owned: String = s.to_owned();
        let mut i: usize = 0;
        while i < self.strings.len()
            invariant
                *self == *old(self),
                i <= self.strings@.len(),
                forall|j: int| 0 <= j < i ==> self.texts()[j] != s@,
            decreases self.strings@.len() - i,
        {
            if self.strings[i] == owned {
                return InternedString(i as u32);
            }
            i = i + 1;
        }
        self.strings.push(owned);
        proof {
            assert(self.texts() =~= old(self).texts().push(s@));
        }
        InternedString((self.strings.len() - 1) as u32)
    }

    /// Law: identity comparison agrees with text comparison. Two
    /// identities handed out by the same well-formed interner are equal
    /// exactly when the texts behind them are equal.
    pub proof fn lemma_identity(&self, a: InternedString, b: InternedString)
        requires
            self.wf(),
            self.valid(a),
            self.valid(b),
        ensures
            (a == b) <==> (self.text_of(a) == self.text_of(b)),
    {
        if a != b {
            assert(a.0 != b.0);
            if a.0 < b.0 {
                assert(self.texts()[a.0 as int] != self.texts()[b.0 as int]);
            } else {
                assert(self.texts()[b.0 as int] != self.texts()[a.0 as int]);
            }
        }
    }

    /// The text of an identity this interner handed out.
    pub fn data(&self, s: InternedString) -> (r: &str)
        requires
            self.valid(s),
        ensures
            r@ == self.text_of(s),
    {
        self.strings[s.0 as usize].as_str()
    }
}

} // verus!
