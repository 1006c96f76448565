//! The revocation registry: a set of subjects whose outstanding tokens must
//! all be rejected, however valid they look on their own.
//!
//! The registry is plain data; the application shares one instance across
//! request handlers behind a lock, and every critical section is a single
//! call into this module.

use vstd::prelude::*;

verus! {

/// Set of revoked subjects, modelled as the set of their character sequences.
///
/// Grown on logout and account deletion, shrunk on successful re-login.
/// Membership of a subject means every currently outstanding token for that
/// subject is to be turned away, regardless of its expiry.
#[derive(Debug)]
pub struct Denylist {
    revoked: Vec<String>,
}

impl View for Denylist {
    type V = Set<Seq<char>>;

    closed spec fn view(&self) -> Set<Seq<char>> {
        Set::new(
            |s: Seq<char>|
                exists|i: int|
                    0 <= i < self.revoked@.len() && (#[trigger] self.revoked@[i])@ == s,
        )
    }
}

impl Denylist {
    /// A registry with nothing revoked; the state at process start.
    pub fn new() -> (r: Denylist)
        ensures
            r@ == Set::<Seq<char>>::empty(),
    {
        let r = Denylist { revoked: Vec::new() };
        proof {
            assert(r@ =~= Set::<Seq<char>>::empty());
        }
        r
    }

    /// Membership test: is every token of this subject currently refused?
    pub fn is_revoked(&self, subject: &String) -> (r: bool)
        ensures
            r == self@.contains(subject@),
    {
        let n = self.revoked.len();
        let mut i: usize = 0;
        while i < n
            invariant
                n == self.revoked@.len(),
                i <= n,
                forall|j: int| 0 <= j < i ==> (#[trigger] self.revoked@[j])@ != subject@,
            decreases n - i,
        {
            if self.revoked[i].eq(subject) {
                return true;
            }
            i = i + 1;
        }
        false
    }

    /// Add a subject; true means it was newly added, false that it already
    /// stood revoked. Idempotent either way.
    pub fn revoke(&mut self, subject: &String) -> (newly: bool)
        ensures
            final(self)@ == old(self)@.insert(subject@),
            newly == !old(self)@.contains(subject@),
    {
        if self.is_revoked(subject) {
            proof {
                assert(self@ =~= old(self)@.insert(subject@));
            }
            false
        } else {
            self.revoked.push(subject.clone());
            proof {
                assert forall|s: Seq<char>| self@.contains(s) implies old(self)@.insert(
                    subject@,
                ).contains(s) by {
                    let i = choose|i: int|
                        0 <= i < self.revoked@.len() && (#[trigger] self.revoked@[i])@ == s;
                    if i < old(self).revoked@.len() {
                        assert(old(self)@.contains(s));
                    }
                }
                assert forall|s: Seq<char>| old(self)@.insert(subject@).contains(s) implies
                    self@.contains(s) by {
                    if s == subject@ {
                        assert((self.revoked@[old(self).revoked@.len() as int])@ == s);
                    } else {
                        let i = choose|i: int|
                            0 <= i < old(self).revoked@.len() && (#[trigger] old(
                                self,
                            ).revoked@[i])@ == s;
                        assert((self.revoked@[i])@ == s);
                    }
                }
                assert(self@ =~= old(self)@.insert(subject@));
            }
            true
        }
    }

    /// Remove a subject, re-admitting it; true means it had been revoked.
    pub fn clear(&mut self, subject: &String) -> (was: bool)
        ensures
            final(self)@ == old(self)@.remove(subject@),
            was == old(self)@.contains(subject@),
    {
        let n = self.revoked.len();
        let mut kept: Vec<String> = Vec::new();
        let mut found = false;
        let mut i: usize = 0;
        proof {
            reveal(Seq::filter);
            assert(seq_views(kept@) =~= kept_model(self.revoked@, subject@, 0));
        }
        while i < n
            invariant
                self.revoked@ == old(self).revoked@,
                n == self.revoked@.len(),
                i <= n,
                found == exists|j: int|
                    0 <= j < i && (#[trigger] self.revoked@[j])@ == subject@,
                seq_views(kept@) == kept_model(self.revoked@, subject@, i as int),
            decreases n - i,
        {
            let ghost prev = kept@;
            if self.revoked[i].eq(subject) {
                found = true;
            } else {
                kept.push(self.revoked[i].clone());
            }
            proof {
                broadcast use Seq::lemma_filter_push;

                let sv = seq_views(self.revoked@);
                assert(sv.take(i + 1) =~= sv.take(i as int).push(sv[i as int]));
                if (self.revoked@[i as int])@ != subject@ {
                    assert(seq_views(kept@) =~= seq_views(prev).push((self.revoked@[i as int])@));
                }
                assert(seq_views(kept@) =~= kept_model(self.revoked@, subject@, i + 1));
            }
            i = i + 1;
        }
        self.revoked = kept;
        proof {
            let old_sv = seq_views(old(self).revoked@);
            assert(old_sv.take(n as int) =~= old_sv);
            assert forall|s: Seq<char>| self@.contains(s) implies old(self)@.remove(
                subject@,
            ).contains(s) by {
                let k = choose|k: int|
                    0 <= k < self.revoked@.len() && (#[trigger] self.revoked@[k])@ == s;
                assert(seq_views(self.revoked@)[k] == s);
                assert(seq_views(self.revoked@).contains(s));
                lemma_filter_subset_contains(old_sv.take(n as int), clear_pred(subject@), s);
                let j = choose|j: int| 0 <= j < old_sv.len() && old_sv[j] == s;
                assert((old(self).revoked@[j])@ == s);
                assert(old(self)@.contains(s));
            }
            assert forall|s: Seq<char>| old(self)@.remove(subject@).contains(s) implies
                self@.contains(s) by {
                let j = choose|j: int|
                    0 <= j < old(self).revoked@.len() && (#[trigger] old(self).revoked@[j])@ == s;
                assert(old_sv[j] == s);
                old_sv.lemma_filter_contains(clear_pred(subject@), j);
                let k = choose|k: int|
                    0 <= k < seq_views(self.revoked@).len() && seq_views(self.revoked@)[k] == s;
                assert((self.revoked@[k])@ == s);
            }
            assert(self@ =~= old(self)@.remove(subject@));
        }
        found
    }
}

/// Views of a sequence of owned strings, element for element.
spec fn seq_views(v: Seq<String>) -> Seq<Seq<char>> {
    v.map_values(|s: String| s@)
}

/// The predicate that `clear` keeps an entry by: not the cleared subject.
spec fn clear_pred(subject: Seq<char>) -> spec_fn(Seq<char>) -> bool {
    |s: Seq<char>| s != subject
}

/// What `clear` has kept after scanning the first `i` entries.
spec fn kept_model(v: Seq<String>, subject: Seq<char>, i: int) -> Seq<Seq<char>> {
    seq_views(v).take(i).filter(clear_pred(subject))
}

/// A filtered sequence only holds elements of the original that satisfy the
/// predicate.
proof fn lemma_filter_subset_contains(
    s: Seq<Seq<char>>,
    pred: spec_fn(Seq<char>) -> bool,
    x: Seq<char>,
)
    requires
        s.filter(pred).contains(x),
    ensures
        s.contains(x),
        pred(x),
    decreases s.len(),
{
    reveal(Seq::filter);
    if s.len() > 0 {
        let sub = s.drop_last().filter(pred);
        if pred(s.last()) && x == s.last() {
            assert(s[s.len() - 1] == x);
            assert(s.contains(x));
        } else {
            if pred(s.last()) {
                let i = choose|i: int|
                    0 <= i < sub.push(s.last()).len() && sub.push(s.last())[i] == x;
                assert(sub[i] == x);
                assert(sub.contains(x));
            }
            lemma_filter_subset_contains(s.drop_last(), pred, x);
            let j = choose|j: int| 0 <= j < s.drop_last().len() && s.drop_last()[j] == x;
            assert(s[j] == x);
            assert(s.contains(x));
        }
    }
}

/// Law: clearing a subject re-admits it. Whatever stood in the registry
/// before, after removing `subject` the membership test on it is false.
pub proof fn lemma_clear_readmits(revoked: Set<Seq<char>>, subject: Seq<char>)
    ensures
        !revoked.remove(subject).contains(subject),
{
}

} // verus!
