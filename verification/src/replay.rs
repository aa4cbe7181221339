//! Replay detection: every nonce is accepted at most once.
use vstd::prelude::*;
use vstd::hash_set::StringHashSet;

verus! {

/// Remembers the nonces it has accepted.
pub struct ReplayGuard {
    seen: StringHashSet,
}

impl View for ReplayGuard {
    type V = Set<Seq<char>>;

    /// The nonces accepted so far.
    closed spec fn view(&self) -> Set<Seq<char>> {
        self.seen@
    }
}

/// Whether a guard that has seen `seen` accepts `nonce`.
pub open spec fn accepts(seen: Set<Seq<char>>, nonce: Seq<char>) -> bool {
    !seen.contains(nonce)
}

/// What a guard that has seen `seen` has seen after it is offered `nonce`.
pub open spec fn after_offer(seen: Set<Seq<char>>, nonce: Seq<char>) -> Set<Seq<char>> {
    seen.insert(nonce)
}

impl Default for ReplayGuard {
    /// A guard that has seen no nonce.
    fn default() -> (r: Self)
        ensures
            r@ == Set::<Seq<char>>::empty(),
    {
        ReplayGuard { seen: StringHashSet::new() }
    }
}

impl ReplayGuard {
    /// Accept `nonce` if it was never offered before; remember it either way.
    pub fn accept(&mut self, nonce: &str) -> (fresh: bool)
        ensures
            fresh == accepts(old(self)@, nonce@),
            final(self)@ == after_offer(old(self)@, nonce@),
    {
        self.seen.insert(nonce.to_owned())
    }
}

/// A nonce that has been offered once is refused from then on, whatever else
/// is offered in between, and no offered nonce is ever forgotten.
pub proof fn lemma_replay_is_refused(seen: Set<Seq<char>>, nonce: Seq<char>, others: Seq<Seq<char>>)
    ensures
        !accepts(offer_all(after_offer(seen, nonce), others), nonce),
        seen.subset_of(after_offer(seen, nonce)),
{
    lemma_offers_only_grow(after_offer(seen, nonce), others);
}

/// What a guard that has seen `seen` has seen after it is offered `nonces` in order.
pub open spec fn offer_all(seen: Set<Seq<char>>, nonces: Seq<Seq<char>>) -> Set<Seq<char>>
    decreases nonces.len(),
{
    if nonces.len() == 0 {
        seen
    } else {
        after_offer(offer_all(seen, nonces.drop_last()), nonces.last())
    }
}

/// Offering nonces never removes one that was seen.
pub proof fn lemma_offers_only_grow(seen: Set<Seq<char>>, nonces: Seq<Seq<char>>)
    ensures
        seen.subset_of(offer_all(seen, nonces)),
    decreases nonces.len(),
{
    if nonces.len() > 0 {
        lemma_offers_only_grow(seen, nonces.drop_last());
    }
}

/// The guard keys on the whole nonce: a guard accepts exactly the nonces it
/// has not seen, offering a nonce adds exactly that nonce, and offering one
/// nonce never changes whether any different nonce is accepted.
pub proof fn lemma_only_the_same_nonce_is_a_replay(seen: Set<Seq<char>>, a: Seq<char>, b: Seq<char>)
    ensures
        accepts(seen, a) == !seen.contains(a),
        after_offer(seen, a).contains(a),
        forall|n: Seq<char>| #[trigger] after_offer(seen, a).contains(n) == (seen.contains(n) || n == a),
        a != b ==> accepts(after_offer(seen, a), b) == accepts(seen, b),
        !accepts(after_offer(seen, a), a),
        accepts(Set::<Seq<char>>::empty(), a),
{
}

} // verus!
