use vstd::prelude::*;
use rand::Rng;
use rand::seq::SliceRandom;
use crate::cards::{StandardCard, StandardCardFace, StandardCardParseError, card_tokens, texts, read_tokens, export_cards, import_cards};

verus! {

broadcast use vstd::seq_lib::group_to_multiset_ensures;

/// The 52 standard cards, suit by suit, each suit from ace to king.
pub open spec fn standard_deck() -> Seq<StandardCard> {
    seq![
        StandardCard::Hearts(StandardCardFace::Ace),
        StandardCard::Hearts(StandardCardFace::Two),
        StandardCard::Hearts(StandardCardFace::Three),
        StandardCard::Hearts(StandardCardFace::Four),
        StandardCard::Hearts(StandardCardFace::Five),
        StandardCard::Hearts(StandardCardFace::Six),
        StandardCard::Hearts(StandardCardFace::Seven),
        StandardCard::Hearts(StandardCardFace::Eight),
        StandardCard::Hearts(StandardCardFace::Nine),
        StandardCard::Hearts(StandardCardFace::Ten),
        StandardCard::Hearts(StandardCardFace::Jack),
        StandardCard::Hearts(StandardCardFace::Queen),
        StandardCard::Hearts(StandardCardFace::King),
        StandardCard::Spades(StandardCardFace::Ace),
        StandardCard::Spades(StandardCardFace::Two),
        StandardCard::Spades(StandardCardFace::Three),
        StandardCard::Spades(StandardCardFace::Four),
        StandardCard::Spades(StandardCardFace::Five),
        StandardCard::Spades(StandardCardFace::Six),
        StandardCard::Spades(StandardCardFace::Seven),
        StandardCard::Spades(StandardCardFace::Eight),
        StandardCard::Spades(StandardCardFace::Nine),
        StandardCard::Spades(StandardCardFace::Ten),
        StandardCard::Spades(StandardCardFace::Jack),
        StandardCard::Spades(StandardCardFace::Queen),
        StandardCard::Spades(StandardCardFace::King),
        StandardCard::Clubs(StandardCardFace::Ace),
        StandardCard::Clubs(StandardCardFace::Two),
        StandardCard::Clubs(StandardCardFace::Three),
        StandardCard::Clubs(StandardCardFace::Four),
        StandardCard::Clubs(StandardCardFace::Five),
        StandardCard::Clubs(StandardCardFace::Six),
        StandardCard::Clubs(StandardCardFace::Seven),
        StandardCard::Clubs(StandardCardFace::Eight),
        StandardCard::Clubs(StandardCardFace::Nine),
        StandardCard::Clubs(StandardCardFace::Ten),
        StandardCard::Clubs(StandardCardFace::Jack),
        StandardCard::Clubs(StandardCardFace::Queen),
        StandardCard::Clubs(StandardCardFace::King),
        StandardCard::Diamonds(StandardCardFace::Ace),
        StandardCard::Diamonds(StandardCardFace::Two),
        StandardCard::Diamonds(StandardCardFace::Three),
        StandardCard::Diamonds(StandardCardFace::Four),
        StandardCard::Diamonds(StandardCardFace::Five),
        StandardCard::Diamonds(StandardCardFace::Six),
        StandardCard::Diamonds(StandardCardFace::Seven),
        StandardCard::Diamonds(StandardCardFace::Eight),
        StandardCard::Diamonds(StandardCardFace::Nine),
        StandardCard::Diamonds(StandardCardFace::Ten),
        StandardCard::Diamonds(StandardCardFace::Jack),
        StandardCard::Diamonds(StandardCardFace::Queen),
        StandardCard::Diamonds(StandardCardFace::King),
    ]
}

/// `after` is `before` with the card `c` taken out at some position.
pub open spec fn drawn_from(before: Seq<StandardCard>, after: Seq<StandardCard>, c: StandardCard) -> bool {
    exists|i: int| 0 <= i < before.len() && before[i] == c && after == before.remove(i)
}

/// Taking a card out of a deck leaves the deck's cards less that one.
pub proof fn lemma_drawn_cards(before: Seq<StandardCard>, after: Seq<StandardCard>, c: StandardCard)
    requires
        drawn_from(before, after, c),
    ensures
        before.to_multiset() == after.to_multiset().insert(c),
{
    let i = choose|i: int| 0 <= i < before.len() && before[i] == c && after == before.remove(i);
    assert(before.to_multiset().count(c) > 0) by {
        assert(before.contains(c));
    }
    assert(before.to_multiset() =~= after.to_multiset().insert(c));
}

/// Relies on rand's `SliceRandom::shuffle` with the thread-local generator: it
/// only swaps items, so the same cards remain.
#[verifier::external_body]
fn shuffle_cards(cards: &mut Vec<StandardCard>)
    ensures
        final(cards)@.to_multiset() == old(cards)@.to_multiset(),
{
    cards.shuffle(&mut rand::thread_rng());
}

/// Relies on rand's `Rng::gen_range` with the thread-local generator: a number
/// in `0..n`. It panics on an empty range, which `requires` leaves out.
#[verifier::external_body]
fn random_index(n: usize) -> (r: usize)
    requires
        n > 0,
    ensures
        r < n,
{
    rand::thread_rng().gen_range(0..n)
}

/// The standard cards in their fixed order.
pub fn standard_cards() -> (r: Vec<StandardCard>)
    ensures
        r@ == standard_deck(),
{
    let r = vec![
        StandardCard::Hearts(StandardCardFace::Ace),
        StandardCard::Hearts(StandardCardFace::Two),
        StandardCard::Hearts(StandardCardFace::Three),
        StandardCard::Hearts(StandardCardFace::Four),
        StandardCard::Hearts(StandardCardFace::Five),
        StandardCard::Hearts(StandardCardFace::Six),
        StandardCard::Hearts(StandardCardFace::Seven),
        StandardCard::Hearts(StandardCardFace::Eight),
        StandardCard::Hearts(StandardCardFace::Nine),
        StandardCard::Hearts(StandardCardFace::Ten),
        StandardCard::Hearts(StandardCardFace::Jack),
        StandardCard::Hearts(StandardCardFace::Queen),
        StandardCard::Hearts(StandardCardFace::King),
        StandardCard::Spades(StandardCardFace::Ace),
        StandardCard::Spades(StandardCardFace::Two),
        StandardCard::Spades(StandardCardFace::Three),
        StandardCard::Spades(StandardCardFace::Four),
        StandardCard::Spades(StandardCardFace::Five),
        StandardCard::Spades(StandardCardFace::Six),
        StandardCard::Spades(StandardCardFace::Seven),
        StandardCard::Spades(StandardCardFace::Eight),
        StandardCard::Spades(StandardCardFace::Nine),
        StandardCard::Spades(StandardCardFace::Ten),
        StandardCard::Spades(StandardCardFace::Jack),
        StandardCard::Spades(StandardCardFace::Queen),
        StandardCard::Spades(StandardCardFace::King),
        StandardCard::Clubs(StandardCardFace::Ace),
        StandardCard::Clubs(StandardCardFace::Two),
        StandardCard::Clubs(StandardCardFace::Three),
        StandardCard::Clubs(StandardCardFace::Four),
        StandardCard::Clubs(StandardCardFace::Five),
        StandardCard::Clubs(StandardCardFace::Six),
        StandardCard::Clubs(StandardCardFace::Seven),
        StandardCard::Clubs(StandardCardFace::Eight),
        StandardCard::Clubs(StandardCardFace::Nine),
        StandardCard::Clubs(StandardCardFace::Ten),
        StandardCard::Clubs(StandardCardFace::Jack),
        StandardCard::Clubs(StandardCardFace::Queen),
        StandardCard::Clubs(StandardCardFace::King),
        StandardCard::Diamonds(StandardCardFace::Ace),
        StandardCard::Diamonds(StandardCardFace::Two),
        StandardCard::Diamonds(StandardCardFace::Three),
        StandardCard::Diamonds(StandardCardFace::Four),
        StandardCard::Diamonds(StandardCardFace::Five),
        StandardCard::Diamonds(StandardCardFace::Six),
        StandardCard::Diamonds(StandardCardFace::Seven),
        StandardCard::Diamonds(StandardCardFace::Eight),
        StandardCard::Diamonds(StandardCardFace::Nine),
        StandardCard::Diamonds(StandardCardFace::Ten),
        StandardCard::Diamonds(StandardCardFace::Jack),
        StandardCard::Diamonds(StandardCardFace::Queen),
        StandardCard::Diamonds(StandardCardFace::King),
    ];
    proof {
        assert(r@ =~= standard_deck());
    }
    r
}

/// The cards not yet dealt. A deck draws a card at random, or, where it is
/// stacked, always its last card, so that a game can be replayed.
pub struct Deck {
    pub cards: Vec<StandardCard>,
    pub stacked: bool,
}

impl Deck {
    /// The 52 standard cards in a random order.
    pub fn new() -> (r: Deck)
        ensures
            r.cards@.to_multiset() == standard_deck().to_multiset(),
            r.cards@.len() == 52,
            !r.stacked,
    {
        let mut cards = standard_cards();
        shuffle_cards(&mut cards);
        proof {
            assert(cards@.len() == cards@.to_multiset().len());
        }
        Deck { cards, stacked: false }
    }

    /// A deck that deals `cards` from the last one backwards.
    pub fn stacked(cards: Vec<StandardCard>) -> (r: Deck)
        ensures
            r.cards@ == cards@,
            r.stacked,
    {
        Deck { cards, stacked: true }
    }

    /// Takes out the card at position `i`, where there is one.
    pub fn draw_at(&mut self, i: usize) -> (r: Option<StandardCard>)
        ensures
            final(self).stacked == old(self).stacked,
            i < old(self).cards@.len() ==> r == Some(old(self).cards@[i as int])
                && final(self).cards@ == old(self).cards@.remove(i as int),
            i >= old(self).cards@.len() ==> r is None && final(self).cards@ == old(self).cards@,
    {
        if i < self.cards.len() {
            Some(self.cards.remove(i))
        } else {
            None
        }
    }

    /// Takes out one card: a random one, or the last one of a stacked deck.
    /// An empty deck gives none.
    pub fn draw(&mut self) -> (r: Option<StandardCard>)
        ensures
            final(self).stacked == old(self).stacked,
            r is None <==> old(self).cards@.len() == 0,
            r is None ==> final(self).cards@ == old(self).cards@,
            r matches Some(c) ==> drawn_from(old(self).cards@, final(self).cards@, c),
            r is Some && old(self).stacked ==> r == Some(old(self).cards@.last())
                && final(self).cards@ == old(self).cards@.drop_last(),
    {
        let n = self.cards.len();
        if n == 0 {
            return None;
        }
        let i = if self.stacked {
            n - 1
        } else {
            random_index(n)
        };
        let r = self.draw_at(i);
        proof {
            if self.stacked {
                assert(old(self).cards@.remove(i as int) =~= old(self).cards@.drop_last());
            }
        }
        r
    }

    /// The token of each remaining card, in order.
    pub fn export(&self) -> (r: Vec<String>)
        ensures
            texts(r@) == card_tokens(self.cards@),
    {
        export_cards(&self.cards)
    }

    /// A deck of the cards that the tokens name, in order, drawing at random.
    pub fn import(tokens: &Vec<String>) -> (r: Result<Deck, StandardCardParseError>)
        ensures
            match r {
                Ok(d) => read_tokens(texts(tokens@)) == Ok::<Seq<StandardCard>, StandardCardParseError>(d.cards@)
                    && !d.stacked,
                Err(e) => read_tokens(texts(tokens@)) == Err::<Seq<StandardCard>, StandardCardParseError>(e),
            },
    {
        match import_cards(tokens) {
            Ok(cards) => Ok(Deck { cards, stacked: false }),
            Err(e) => Err(e),
        }
    }
}

} // verus!
