use vstd::prelude::*;
use vstd::multiset::Multiset;
use crate::cards::{StandardCard, StandardCardParseError, card_tokens, texts, read_tokens, import_cards, export_cards, lemma_read_tokens_len, lemma_tokens_round_trip};
use crate::deck::{Deck, drawn_from, standard_deck, lemma_drawn_cards};
use crate::hand::{Hand, MAX_HAND_CARDS, hand_score};
use crate::models::BJSession;

verus! {

broadcast use vstd::seq_lib::group_to_multiset_ensures;

/// Where a game stands.
#[derive(Clone, Copy, Debug, PartialEq, Eq, Hash, Structural)]
pub enum GameState {
    InProgress,
    PlayerWon,
    PlayerLost,
}

/// Why a game operation failed.
#[derive(Debug)]
pub enum BlackJackError {
    /// A stored card token could not be read.
    CardParse(StandardCardParseError),
    DealerAlreadyLost,
    DealerAlreadyPressedStay,
    DealerAlreadyWon,
    /// The stored game holds no bet: its payout was claimed.
    GameOver,
    /// Not exactly one stored game was found for the player.
    InvalidResultCount(usize),
    /// The deck is empty.
    NoCard,
    PlayerAlreadyLost,
    PlayerAlreadyPressedStay,
    PlayerAlreadyWon,
    PlayerNotDoneYet,
    /// The record store failed; the message is its own.
    Storage(String),
}

impl BlackJackError {
    pub fn description(&self) -> (r: String) {
        match self {
            BlackJackError::CardParse(inner) => String::from_str(inner.description()),
            BlackJackError::DealerAlreadyLost => String::from_str("The dealer already lost"),
            BlackJackError::DealerAlreadyPressedStay => String::from_str("The dealer already pressed stay"),
            BlackJackError::DealerAlreadyWon => String::from_str("The dealer already won"),
            BlackJackError::GameOver => String::from_str("The game is over"),
            BlackJackError::InvalidResultCount(_) => String::from_str("More than or less than 1 game result found"),
            BlackJackError::NoCard => String::from_str("No card was able to be drawn"),
            BlackJackError::PlayerAlreadyLost => String::from_str("You already lost"),
            BlackJackError::PlayerAlreadyPressedStay => String::from_str("You already pressed stay"),
            BlackJackError::PlayerAlreadyWon => String::from_str("You already won"),
            BlackJackError::PlayerNotDoneYet => String::from_str("Player is not done yet"),
            BlackJackError::Storage(msg) => msg.clone(),
        }
    }
}

/// The outcome of a game, checked in this order: five cards in the player's
/// hand win for the player, and so do five in the dealer's; a player score of
/// 21 wins, then a dealer score of 21 loses; while neither party has stayed the
/// game goes on; after that a tie loses, a player over 21 loses, a dealer over
/// 21 wins, and otherwise the higher score wins.
pub open spec fn game_state(
    player: Seq<StandardCard>,
    dealer: Seq<StandardCard>,
    player_stay: bool,
    dealer_stay: bool,
) -> GameState {
    let ps = hand_score(player);
    let ds = hand_score(dealer);
    if player.len() == 5 {
        GameState::PlayerWon
    } else if dealer.len() == 5 {
        GameState::PlayerWon
    } else if ps == 21 {
        GameState::PlayerWon
    } else if ds == 21 {
        GameState::PlayerLost
    } else if !(player_stay || dealer_stay) {
        GameState::InProgress
    } else if ps == ds {
        GameState::PlayerLost
    } else if ps > 21 {
        GameState::PlayerLost
    } else if ds > 21 {
        GameState::PlayerWon
    } else if ps > ds {
        GameState::PlayerWon
    } else {
        GameState::PlayerLost
    }
}

/// A player at 21 has won, whatever the dealer holds and whoever has stayed:
/// the player's 21 is looked at before the dealer's.
pub proof fn lemma_player_21_wins(
    player: Seq<StandardCard>,
    dealer: Seq<StandardCard>,
    player_stay: bool,
    dealer_stay: bool,
)
    requires
        hand_score(player) == 21,
    ensures
        game_state(player, dealer, player_stay, dealer_stay) == GameState::PlayerWon,
{
}

/// `rec` is what `to_record` gives for `g`.
pub open spec fn record_of(g: BlackJack, rec: BJSession) -> bool {
    &&& rec.id == g.player_id as i64
    &&& g.state() == GameState::InProgress ==> rec.bet == Some(g.bet as i64) && rec.status is None
    &&& g.state() == GameState::PlayerWon ==> rec.bet is None && rec.status == Some(true)
    &&& g.state() == GameState::PlayerLost ==> rec.bet is None && rec.status == Some(false)
    &&& texts(rec.deck@) == card_tokens(g.deck.cards@)
    &&& texts(rec.player_hand@) == card_tokens(g.player.cards@)
    &&& texts(rec.dealer_hand@) == card_tokens(g.dealer.cards@)
    &&& rec.player_stay == g.player_stay_status
    &&& rec.dealer_stay == g.dealer_stay_status
    &&& rec.first_turn == g.first_turn
}

/// A game saved while in progress restores to the same game: the same hands,
/// deck, bet, player and flags, with nothing claimed.
pub proof fn lemma_saved_game_restores(g: BlackJack, rec: BJSession, r: Result<BlackJack, BlackJackError>)
    requires
        g.wf(),
        g.state() == GameState::InProgress,
        record_of(g, rec),
        restore_outcome(rec, r),
    ensures
        record_fits(rec),
        r matches Ok(e) && e.player.cards@ == g.player.cards@ && e.dealer.cards@ == g.dealer.cards@
            && e.deck.cards@ == g.deck.cards@ && e.bet == g.bet && e.player_id == g.player_id
            && e.player_stay_status == g.player_stay_status && e.dealer_stay_status == g.dealer_stay_status
            && e.first_turn == g.first_turn && !e.claimed && e.gain == 0,
{
    lemma_tokens_round_trip(g.player.cards@);
    lemma_tokens_round_trip(g.dealer.cards@);
    lemma_tokens_round_trip(g.deck.cards@);
    assert(rec.player_hand@.len() == texts(rec.player_hand@).len());
    assert(rec.dealer_hand@.len() == texts(rec.dealer_hand@).len());
    assert(rec.deck@.len() == texts(rec.deck@).len());
}

/// A stored game that a game can be rebuilt from: its id and bet are not
/// negative, and its cards are few enough for scores to fit.
pub open spec fn record_fits(rec: BJSession) -> bool {
    &&& rec.id >= 0
    &&& rec.bet matches Some(b) ==> b >= 0
    &&& rec.player_hand@.len() + rec.dealer_hand@.len() + rec.deck@.len() <= MAX_HAND_CARDS
}

/// What restoring from the one record found gives: `GameOver` without a bet,
/// the error of the first token that does not read (player's hand, dealer's
/// hand, deck), or else the game the record describes, unclaimed.
pub open spec fn restore_outcome(rec: BJSession, r: Result<BlackJack, BlackJackError>) -> bool {
    let p = read_tokens(texts(rec.player_hand@));
    let d = read_tokens(texts(rec.dealer_hand@));
    let k = read_tokens(texts(rec.deck@));
    if rec.bet is None {
        r == Err::<BlackJack, BlackJackError>(BlackJackError::GameOver)
    } else if p is Err {
        r == Err::<BlackJack, BlackJackError>(BlackJackError::CardParse(p->Err_0))
    } else if d is Err {
        r == Err::<BlackJack, BlackJackError>(BlackJackError::CardParse(d->Err_0))
    } else if k is Err {
        r == Err::<BlackJack, BlackJackError>(BlackJackError::CardParse(k->Err_0))
    } else {
        &&& r matches Ok(g)
        &&& g.wf()
        &&& g.player.cards@ == p->Ok_0
        &&& g.dealer.cards@ == d->Ok_0
        &&& g.deck.cards@ == k->Ok_0
        &&& !g.deck.stacked
        &&& g.player_id == rec.id as u64
        &&& g.bet == rec.bet->Some_0 as u64
        &&& g.first_turn == rec.first_turn
        &&& g.player_stay_status == rec.player_stay
        &&& g.dealer_stay_status == rec.dealer_stay
        &&& g.gain == 0
        &&& !g.claimed
    }
}

/// One player's game: the two hands, the deck, the bet and the turn flags.
pub struct BlackJack {
    pub player: Hand,
    pub player_id: u64,
    pub dealer: Hand,
    pub deck: Deck,
    pub bet: u64,
    pub first_turn: bool,
    pub player_stay_status: bool,
    pub dealer_stay_status: bool,
    /// What the claim settled: the bet won or, negated, lost.
    pub gain: i64,
    /// Set once the payout was claimed; the stored game is then to be removed.
    pub claimed: bool,
}

impl BlackJack {
    /// The game holds few enough cards for scores to fit, and a bet that the
    /// record can store.
    pub open spec fn wf(&self) -> bool {
        &&& self.player.cards@.len() + self.dealer.cards@.len() + self.deck.cards@.len() <= MAX_HAND_CARDS
        &&& self.bet <= i64::MAX
        &&& self.player_id <= i64::MAX
    }

    /// Every card of the game: both hands and the deck.
    pub open spec fn all_cards(&self) -> Multiset<StandardCard> {
        self.player.cards@.to_multiset().add(self.dealer.cards@.to_multiset()).add(self.deck.cards@.to_multiset())
    }

    pub open spec fn state(&self) -> GameState {
        game_state(self.player.cards@, self.dealer.cards@, self.player_stay_status, self.dealer_stay_status)
    }

    /// A game just dealt: two cards each, no stay, first turn, nothing claimed.
    pub open spec fn fresh_game(&self, player_id: u64, bet: u64) -> bool {
        &&& self.wf()
        &&& self.player_id == player_id
        &&& self.bet == bet
        &&& self.player.cards@.len() == 2
        &&& self.dealer.cards@.len() == 2
        &&& self.first_turn
        &&& !self.player_stay_status
        &&& !self.dealer_stay_status
        &&& self.gain == 0
        &&& !self.claimed
    }

    /// The player got the last two cards of `d`, the dealer the two before, and
    /// the rest stayed in the deck.
    pub open spec fn dealt_in_order(&self, d: Seq<StandardCard>) -> bool {
        let n = d.len() as int;
        &&& self.player.cards@ == seq![d[n - 1], d[n - 2]]
        &&& self.dealer.cards@ == seq![d[n - 3], d[n - 4]]
        &&& self.deck.cards@ == d.subrange(0, n - 4)
    }

    pub fn status(&self) -> (r: GameState)
        requires
            self.wf(),
        ensures
            r == self.state(),
    {
        let player_score = self.player.score();
        let dealer_score = self.dealer.score();
        if self.player.cards.len() == 5 {
            return GameState::PlayerWon;
        }
        if self.dealer.cards.len() == 5 {
            return GameState::PlayerWon;
        }
        if player_score == 21 {
            return GameState::PlayerWon;
        }
        if dealer_score == 21 {
            return GameState::PlayerLost;
        }
        if !(self.player_stay_status || self.dealer_stay_status) {
            return GameState::InProgress;
        }
        if player_score == dealer_score {
            return GameState::PlayerLost;
        }
        if player_score > 21 {
            return GameState::PlayerLost;
        }
        if dealer_score > 21 {
            return GameState::PlayerWon;
        }
        if player_score > dealer_score {
            return GameState::PlayerWon;
        }
        GameState::PlayerLost
    }
    /// Starts a game from `deck` for a player with `existing_records` stored
    /// games: none may exist, and the deck must hold the four cards dealt, two
    /// to the player and then two to the dealer.
    pub fn new_with_deck(player_id: u64, new_bet: u64, existing_records: i64, deck: Deck) -> (r: Option<BlackJack>)
        requires
            player_id <= i64::MAX,
            new_bet <= i64::MAX,
            deck.cards@.len() <= MAX_HAND_CARDS,
        ensures
            r is Some <==> existing_records == 0 && deck.cards@.len() >= 4,
            r matches Some(g) ==> g.fresh_game(player_id, new_bet),
            r matches Some(g) ==> g.deck.stacked == deck.stacked,
            r matches Some(g) ==> g.deck.cards@.len() == deck.cards@.len() - 4,
            r matches Some(g) ==> (deck.stacked ==> g.dealt_in_order(deck.cards@)),
            r matches Some(g) ==> g.all_cards() == deck.cards@.to_multiset(),
    {
        if existing_records != 0 {
            return None;
        }
        let mut new_deck = deck;
        if new_deck.cards.len() < 4 {
            return None;
        }
        let ghost d = deck.cards@;
        let ghost n = d.len() as int;
        let mut player = Hand::new();
        let mut dealer = Hand::new();
        let ghost d0 = new_deck.cards@;
        let c1 = new_deck.draw().unwrap();
        player.add_card(c1);
        let ghost d1 = new_deck.cards@;
        let c2 = new_deck.draw().unwrap();
        player.add_card(c2);
        let ghost d2 = new_deck.cards@;
        let c3 = new_deck.draw().unwrap();
        dealer.add_card(c3);
        let ghost d3 = new_deck.cards@;
        let c4 = new_deck.draw().unwrap();
        dealer.add_card(c4);
        proof {
            lemma_drawn_cards(d0, d1, c1);
            lemma_drawn_cards(d1, d2, c2);
            lemma_drawn_cards(d2, d3, c3);
            lemma_drawn_cards(d3, new_deck.cards@, c4);
            assert(player.cards@ =~= seq![c1, c2]);
            assert(dealer.cards@ =~= seq![c3, c4]);
            assert(seq![c1, c2].to_multiset() =~= Multiset::empty().insert(c1).insert(c2)) by {
                assert(seq![c1, c2] =~= seq![c1].push(c2));
                assert(seq![c1] =~= Seq::<StandardCard>::empty().push(c1));
            }
            assert(seq![c3, c4].to_multiset() =~= Multiset::empty().insert(c3).insert(c4)) by {
                assert(seq![c3, c4] =~= seq![c3].push(c4));
                assert(seq![c3] =~= Seq::<StandardCard>::empty().push(c3));
            }
            assert(d0.to_multiset() =~= seq![c1, c2].to_multiset().add(seq![c3, c4].to_multiset()).add(
                new_deck.cards@.to_multiset(),
            ));
            if deck.stacked {
                assert(player.cards@ =~= seq![d[n - 1], d[n - 2]]);
                assert(dealer.cards@ =~= seq![d[n - 3], d[n - 4]]);
                assert(new_deck.cards@ =~= d.subrange(0, n - 4));
            }
        }
        Some(BlackJack {
            player_id,
            player,
            dealer,
            deck: new_deck,
            bet: new_bet,
            first_turn: true,
            player_stay_status: false,
            dealer_stay_status: false,
            gain: 0,
            claimed: false,
        })
    }

    /// Starts a game from a freshly shuffled deck, where the player has no
    /// stored game (`existing_records` counts them).
    pub fn new(player_id: u64, new_bet: u64, existing_records: i64) -> (r: Option<BlackJack>)
        requires
            player_id <= i64::MAX,
            new_bet <= i64::MAX,
        ensures
            r is Some <==> existing_records == 0,
            existing_records != 0 ==> r is None,
            r matches Some(g) ==> g.fresh_game(player_id, new_bet),
            r matches Some(g) ==> !g.deck.stacked,
            r matches Some(g) ==> g.deck.cards@.len() == 48,
            r matches Some(g) ==> g.all_cards() == standard_deck().to_multiset(),
    {
        if existing_records != 0 {
            return None;
        }
        BlackJack::new_with_deck(player_id, new_bet, existing_records, Deck::new())
    }

    /// The player takes a card, while the game is in progress and the player has
    /// not stayed. The first turn is over even where the deck is empty.
    pub fn player_hit(&mut self) -> (r: Result<(), BlackJackError>)
        requires
            old(self).wf(),
        ensures
            final(self).wf(),
            old(self).state() == GameState::PlayerLost ==> r == Err::<(), BlackJackError>(
                BlackJackError::PlayerAlreadyLost,
            ) && *final(self) == *old(self),
            old(self).state() == GameState::PlayerWon ==> r == Err::<(), BlackJackError>(
                BlackJackError::PlayerAlreadyWon,
            ) && *final(self) == *old(self),
            old(self).state() == GameState::InProgress && old(self).player_stay_status ==> r == Err::<
                (),
                BlackJackError,
            >(BlackJackError::PlayerAlreadyPressedStay) && *final(self) == *old(self),
            old(self).state() == GameState::InProgress && !old(self).player_stay_status
                ==> final(self).drew(old(self), true, r),
    {
        match self.status() {
            GameState::InProgress => {
                if !self.player_stay_status {
                    self.first_turn = false;
                    match self.deck.draw() {
                        Some(card) => {
                            self.player.add_card(card);
                            proof {
                                assert(drawn_from(old(self).deck.cards@, self.deck.cards@, card));
                                lemma_drawn_cards(old(self).deck.cards@, self.deck.cards@, card);
                                assert(self.all_cards() =~= old(self).all_cards());
                            }
                            Ok(())
                        },
                        None => Err(BlackJackError::NoCard),
                    }
                } else {
                    Err(BlackJackError::PlayerAlreadyPressedStay)
                }
            },
            GameState::PlayerLost => Err(BlackJackError::PlayerAlreadyLost),
            GameState::PlayerWon => Err(BlackJackError::PlayerAlreadyWon),
        }
    }

    /// `self` is `before` after the player (or the dealer) was dealt a card from
    /// the deck, with the first turn over; or, where the deck was empty, after
    /// `NoCard` with nothing dealt.
    pub open spec fn drew(&self, before: &BlackJack, to_player: bool, r: Result<(), BlackJackError>) -> bool {
        &&& self.player_id == before.player_id
        &&& self.bet == before.bet
        &&& self.gain == before.gain
        &&& self.claimed == before.claimed
        &&& self.deck.stacked == before.deck.stacked
        &&& self.player_stay_status == before.player_stay_status
        &&& self.dealer_stay_status == before.dealer_stay_status
        &&& self.all_cards() == before.all_cards()
        &&& to_player ==> !self.first_turn
        &&& !to_player ==> self.first_turn == before.first_turn
        &&& (before.deck.cards@.len() == 0 <==> r is Err)
        &&& r is Err ==> r == Err::<(), BlackJackError>(BlackJackError::NoCard)
            && self.player.cards@ == before.player.cards@ && self.dealer.cards@ == before.dealer.cards@
            && self.deck.cards@ == before.deck.cards@
        &&& r is Ok ==> exists|c: StandardCard|
            {
                &&& #[trigger] drawn_from(before.deck.cards@, self.deck.cards@, c)
                &&& to_player ==> self.player.cards@ == before.player.cards@.push(c)
                    && self.dealer.cards@ == before.dealer.cards@
                &&& !to_player ==> self.dealer.cards@ == before.dealer.cards@.push(c)
                    && self.player.cards@ == before.player.cards@
                &&& before.deck.stacked ==> c == before.deck.cards@.last()
                    && self.deck.cards@ == before.deck.cards@.drop_last()
            }
    }

    fn dealer_hit(&mut self) -> (r: Result<(), BlackJackError>)
        requires
            old(self).wf(),
        ensures
            final(self).wf(),
            old(self).state() == GameState::PlayerWon ==> r == Err::<(), BlackJackError>(
                BlackJackError::DealerAlreadyLost,
            ) && *final(self) == *old(self),
            old(self).state() == GameState::PlayerLost ==> r == Err::<(), BlackJackError>(
                BlackJackError::DealerAlreadyWon,
            ) && *final(self) == *old(self),
            old(self).state() == GameState::InProgress && old(self).dealer_stay_status ==> r == Err::<
                (),
                BlackJackError,
            >(BlackJackError::DealerAlreadyPressedStay) && *final(self) == *old(self),
            old(self).state() == GameState::InProgress && !old(self).dealer_stay_status
                ==> final(self).drew(old(self), false, r),
    {
        match self.status() {
            GameState::InProgress => {
                if !self.dealer_stay_status {
                    match self.deck.draw() {
                        Some(card) => {
                            self.dealer.add_card(card);
                            proof {
                                assert(drawn_from(old(self).deck.cards@, self.deck.cards@, card));
                                lemma_drawn_cards(old(self).deck.cards@, self.deck.cards@, card);
                                assert(self.all_cards() =~= old(self).all_cards());
                            }
                            Ok(())
                        },
                        None => Err(BlackJackError::NoCard),
                    }
                } else {
                    Err(BlackJackError::DealerAlreadyPressedStay)
                }
            },
            GameState::PlayerWon => Err(BlackJackError::DealerAlreadyLost),
            GameState::PlayerLost => Err(BlackJackError::DealerAlreadyWon),
        }
    }

    fn dealer_stay(&mut self)
        ensures
            *final(self) == (BlackJack { dealer_stay_status: true, ..*old(self) }),
    {
        self.dealer_stay_status = true;
    }

    /// The dealer's turn, once the player has stayed: the dealer takes cards
    /// while the game is in progress and the dealer's score is under 17, then
    /// stays. Once the player has stayed the status rules already decide the
    /// game, so no card is taken and the call always succeeds.
    pub fn dealer_play(&mut self) -> (r: Result<(), BlackJackError>)
        requires
            old(self).wf(),
        ensures
            final(self).wf(),
            !old(self).player_stay_status ==> r == Err::<(), BlackJackError>(
                BlackJackError::PlayerNotDoneYet,
            ) && *final(self) == *old(self),
            old(self).player_stay_status ==> r is Ok,
            old(self).player_stay_status ==> *final(self) == (BlackJack {
                first_turn: false,
                dealer_stay_status: true,
                ..*old(self)
            }),
            r is Ok ==> final(self).dealer_stay_status,
            r is Ok && final(self).state() == GameState::InProgress ==> hand_score(final(self).dealer.cards@) >= 17,
    {
        if !self.player_stay_status {
            return Err(BlackJackError::PlayerNotDoneYet);
        }
        self.first_turn = false;
        let ghost start = *self;
        while self.status() == GameState::InProgress && self.dealer.score() < 17
            invariant
                self.wf(),
                self.player_stay_status,
                *self == start,
            decreases self.deck.cards@.len(),
        {
            self.dealer_hit()?;
        }
        self.dealer_stay();
        Ok(())
    }

    /// The player stays, and the dealer plays; staying again changes nothing.
    pub fn player_stay(&mut self) -> (r: Result<(), BlackJackError>)
        requires
            old(self).wf(),
        ensures
            final(self).wf(),
            r is Ok,
            old(self).player_stay_status ==> *final(self) == *old(self),
            !old(self).player_stay_status ==> *final(self) == (BlackJack {
                player_stay_status: true,
                first_turn: false,
                dealer_stay_status: true,
                ..*old(self)
            }),
    {
        if !self.player_stay_status {
            self.player_stay_status = true;
            self.dealer_play()?;
        }
        Ok(())
    }

    /// Settles a finished game: the bet is won or lost and the game is marked
    /// claimed. A game in progress is handed back unchanged.
    pub fn claim(self) -> (r: Result<BlackJack, BlackJack>)
        requires
            self.wf(),
        ensures
            self.state() == GameState::InProgress ==> r == Err::<BlackJack, BlackJack>(self),
            self.state() == GameState::PlayerWon ==> r == Ok::<BlackJack, BlackJack>(BlackJack {
                claimed: true,
                gain: self.bet as i64,
                ..self
            }),
            self.state() == GameState::PlayerLost ==> r == Ok::<BlackJack, BlackJack>(BlackJack {
                claimed: true,
                gain: -(self.bet as int) as i64,
                ..self
            }),
    {
        let mut game = self;
        match game.status() {
            GameState::InProgress => Err(game),
            GameState::PlayerLost => {
                game.claimed = true;
                game.gain = -(game.bet as i64);
                Ok(game)
            },
            GameState::PlayerWon => {
                game.claimed = true;
                game.gain = game.bet as i64;
                Ok(game)
            },
        }
    }

    /// The stored form of the game: a game in progress keeps its bet and no
    /// outcome; a finished one drops the bet and records whether the player won.
    pub fn to_record(&self) -> (r: BJSession)
        requires
            self.wf(),
        ensures
            record_of(*self, r),
    {
        let (status, bet): (Option<bool>, Option<i64>) = match self.status() {
            GameState::InProgress => (None, Some(self.bet as i64)),
            GameState::PlayerWon => (Some(true), None),
            GameState::PlayerLost => (Some(false), None),
        };
        BJSession {
            id: self.player_id as i64,
            bet,
            status,
            deck: self.deck.export(),
            player_hand: export_cards(&self.player.cards),
            dealer_hand: export_cards(&self.dealer.cards),
            player_stay: self.player_stay_status,
            dealer_stay: self.dealer_stay_status,
            first_turn: self.first_turn,
        }
    }

    /// Rebuilds the game from the records found for a player: exactly one must
    /// be found, it must hold a bet, and its tokens must read as cards (the
    /// player's hand first, then the dealer's, then the deck).
    pub fn restore(results: &Vec<BJSession>) -> (r: Result<BlackJack, BlackJackError>)
        requires
            results@.len() == 1 ==> record_fits(results@[0]),
        ensures
            results@.len() != 1 ==> r == Err::<BlackJack, BlackJackError>(
                BlackJackError::InvalidResultCount(results@.len() as usize),
            ),
            results@.len() == 1 ==> restore_outcome(results@[0], r),
    {
        let len = results.len();
        if len != 1 {
            return Err(BlackJackError::InvalidResultCount(len));
        }
        let session = &results[0];
        let player_bet = match session.bet {
            None => {
                return Err(BlackJackError::GameOver);
            },
            Some(b) => b,
        };
        let player_cards = match import_cards(&session.player_hand) {
            Ok(v) => v,
            Err(e) => {
                return Err(BlackJackError::CardParse(e));
            },
        };
        let dealer_cards = match import_cards(&session.dealer_hand) {
            Ok(v) => v,
            Err(e) => {
                return Err(BlackJackError::CardParse(e));
            },
        };
        let deck = match Deck::import(&session.deck) {
            Ok(d) => d,
            Err(e) => {
                return Err(BlackJackError::CardParse(e));
            },
        };
        proof {
            lemma_read_tokens_len(texts(session.player_hand@));
            lemma_read_tokens_len(texts(session.dealer_hand@));
            lemma_read_tokens_len(texts(session.deck@));
        }
        Ok(BlackJack {
            player: Hand { cards: player_cards },
            player_id: session.id as u64,
            dealer: Hand { cards: dealer_cards },
            deck,
            bet: player_bet as u64,
            first_turn: session.first_turn,
            player_stay_status: session.player_stay,
            dealer_stay_status: session.dealer_stay,
            gain: 0,
            claimed: false,
        })
    }
}

} // verus!
