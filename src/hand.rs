use vstd::prelude::*;
use crate::cards::{StandardCard, StandardCardFace, card_face, face_value, card_tokens, texts, export_cards};

verus! {

/// The most cards a hand may hold for its score to be computed in a `u64`.
pub const MAX_HAND_CARDS: usize = usize::MAX / 11;

pub open spec fn is_ace(c: StandardCard) -> bool {
    card_face(c) == StandardCardFace::Ace
}

/// Number of aces among the cards.
pub open spec fn ace_count(s: Seq<StandardCard>) -> nat
    decreases s.len(),
{
    if s.len() == 0 {
        0
    } else {
        ace_count(s.drop_last()) + if is_ace(s.last()) { 1nat } else { 0nat }
    }
}

/// Sum of the point values of the cards that are not aces.
pub open spec fn plain_total(s: Seq<StandardCard>) -> nat
    decreases s.len(),
{
    if s.len() == 0 {
        0
    } else {
        plain_total(s.drop_last()) + if is_ace(s.last()) { 0nat } else { face_value(card_face(s.last())) }
    }
}

/// Score of a hand: the non-ace points, then one ace at 11 where those points are
/// at most 10 and at 1 otherwise, and every further ace at 1.
pub open spec fn hand_score(s: Seq<StandardCard>) -> nat {
    let t = plain_total(s);
    let a = ace_count(s);
    if a == 0 {
        t
    } else if t <= 10 {
        t + 11 + (a - 1) as nat
    } else {
        t + a
    }
}

/// The cards held by one party, in the order they were dealt.
pub struct Hand {
    pub cards: Vec<StandardCard>,
}

impl Hand {
    pub fn new() -> (r: Hand)
        ensures
            r.cards@ == Seq::<StandardCard>::empty(),
    {
        Hand { cards: Vec::new() }
    }

    pub fn add_card(&mut self, card: StandardCard)
        ensures
            final(self).cards@ == old(self).cards@.push(card),
    {
        self.cards.push(card);
    }

    pub fn score(&self) -> (r: u64)
        requires
            self.cards@.len() <= MAX_HAND_CARDS,
        ensures
            r as nat == hand_score(self.cards@),
    {
        let mut aces: u64 = 0;
        let mut total: u64 = 0;
        let mut i: usize = 0;
        while i < self.cards.len()
            invariant
                i <= self.cards@.len() <= MAX_HAND_CARDS,
                aces as nat == ace_count(self.cards@.subrange(0, i as int)),
                total as nat == plain_total(self.cards@.subrange(0, i as int)),
                aces <= i,
                total <= 10 * i,
            decreases self.cards@.len() - i,
        {
            let card = self.cards[i];
            proof {
                let next = self.cards@.subrange(0, i + 1);
                assert(next.drop_last() =~= self.cards@.subrange(0, i as int));
                assert(next.last() == card);
            }
            let face = card.face();
            if face == StandardCardFace::Ace {
                aces += 1;
            } else {
                total += face.value() as u64;
            }
            i += 1;
        }
        proof {
            assert(self.cards@.subrange(0, i as int) =~= self.cards@);
        }
        if aces >= 1 {
            if total <= 10 {
                total += 11;
            } else {
                total += 1;
            }
            aces -= 1;
        }
        total + aces
    }

    /// The score and the token of each card, in order.
    pub fn export(&self) -> (r: (u64, Vec<String>))
        requires
            self.cards@.len() <= MAX_HAND_CARDS,
        ensures
            r.0 as nat == hand_score(self.cards@),
            texts(r.1@) == card_tokens(self.cards@),
    {
        (self.score(), export_cards(&self.cards))
    }
}

/// Points that a card adds to the non-ace total.
pub open spec fn plain_points(c: StandardCard) -> nat {
    if is_ace(c) { 0 } else { face_value(card_face(c)) }
}

proof fn lemma_remove_one(s: Seq<StandardCard>, i: int)
    requires
        0 <= i < s.len(),
    ensures
        plain_total(s) == plain_total(s.remove(i)) + plain_points(s[i]),
        ace_count(s) == ace_count(s.remove(i)) + if is_ace(s[i]) { 1nat } else { 0nat },
    decreases s.len(),
{
    if i == s.len() - 1 {
        assert(s.remove(i) =~= s.drop_last());
    } else {
        lemma_remove_one(s.drop_last(), i);
        assert(s.drop_last().remove(i) =~= s.remove(i).drop_last());
        assert(s.remove(i).last() == s.last());
    }
}

/// The score of a hand depends only on which cards it holds, not on the order in
/// which they were added.
pub proof fn lemma_score_order_free(s1: Seq<StandardCard>, s2: Seq<StandardCard>)
    requires
        s1.to_multiset() == s2.to_multiset(),
    ensures
        hand_score(s1) == hand_score(s2),
{
    lemma_totals_order_free(s1, s2);
}

proof fn lemma_totals_order_free(s1: Seq<StandardCard>, s2: Seq<StandardCard>)
    requires
        s1.to_multiset() == s2.to_multiset(),
    ensures
        plain_total(s1) == plain_total(s2),
        ace_count(s1) == ace_count(s2),
    decreases s1.len(),
{
    broadcast use vstd::seq_lib::group_to_multiset_ensures;
    if s1.len() == 0 {
        assert(s1.to_multiset().len() == 0);
        assert(s2.len() == s2.to_multiset().len());
        assert(s2 =~= s1);
    } else {
        let x = s1.last();
        let n = s1.len() - 1;
        assert(s1.to_multiset().count(x) > 0) by {
            assert(s1.contains(x)) by {
                assert(s1[n] == x);
            }
        }
        assert(s2.contains(x));
        let j = choose|j: int| 0 <= j < s2.len() && s2[j] == x;
        assert(s1.remove(n) =~= s1.drop_last());
        assert(s1.drop_last().to_multiset() == s1.to_multiset().remove(x));
        assert(s2.remove(j).to_multiset() == s2.to_multiset().remove(x));
        lemma_totals_order_free(s1.drop_last(), s2.remove(j));
        lemma_remove_one(s1, n);
        lemma_remove_one(s2, j);
    }
}

} // verus!
