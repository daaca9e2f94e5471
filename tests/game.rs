use games_microservice::cards::{StandardCard, StandardCardFace, StandardCardParseError};
use games_microservice::deck::Deck;
use games_microservice::game::{BlackJack, BlackJackError, GameState};
use games_microservice::hand::Hand;
use games_microservice::models::BJSession;

fn card(f: StandardCardFace) -> StandardCard {
    StandardCard::Hearts(f)
}

fn hand_of(faces: &[StandardCardFace]) -> Hand {
    let mut h = Hand::new();
    for f in faces {
        h.add_card(card(*f));
    }
    h
}

fn game_with(player: &[StandardCardFace], dealer: &[StandardCardFace], deck: Vec<StandardCard>) -> BlackJack {
    BlackJack {
        player: hand_of(player),
        player_id: 7,
        dealer: hand_of(dealer),
        deck: Deck::stacked(deck),
        bet: 30,
        first_turn: true,
        player_stay_status: false,
        dealer_stay_status: false,
        gain: 0,
        claimed: false,
    }
}

use StandardCardFace::{Ace, Eight, Five, Four, Jack, King, Nine, Seven, Six, Ten, Three, Two};

fn record(bet: Option<i64>, player: &[&str]) -> BJSession {
    BJSession {
        id: 3,
        bet,
        status: None,
        deck: vec!["CLUBS:TWO".to_string()],
        player_hand: player.iter().map(|s| s.to_string()).collect(),
        dealer_hand: vec!["SPADES:TEN".to_string(), "spades:six".to_string()],
        player_stay: false,
        dealer_stay: false,
        first_turn: true,
    }
}

#[test]
fn fresh_game_is_dealt_two_cards_each() {
    let g = BlackJack::new(1, 50, 0).unwrap();
    assert_eq!(g.player.cards.len(), 2);
    assert_eq!(g.dealer.cards.len(), 2);
    assert_eq!(g.deck.cards.len(), 48);
    assert!(g.first_turn && !g.player_stay_status && !g.dealer_stay_status && !g.claimed);
    assert_eq!((g.player_id, g.bet, g.gain), (1, 50, 0));
}

#[test]
fn create_refuses_an_existing_game() {
    assert!(BlackJack::new(1, 50, 1).is_none());
    let deck = vec![card(Two); 10];
    assert!(BlackJack::new_with_deck(1, 50, 2, Deck::stacked(deck)).is_none());
}

#[test]
fn create_needs_four_cards() {
    assert!(BlackJack::new_with_deck(1, 50, 0, Deck::stacked(vec![card(Two); 3])).is_none());
    assert!(BlackJack::new_with_deck(1, 50, 0, Deck::stacked(vec![card(Two); 4])).is_some());
}

#[test]
fn stacked_deal_order() {
    let deck = vec![card(Two), card(Three), card(Four), card(Five), card(Six)];
    let g = BlackJack::new_with_deck(1, 50, 0, Deck::stacked(deck)).unwrap();
    assert_eq!(g.player.cards, vec![card(Six), card(Five)]);
    assert_eq!(g.dealer.cards, vec![card(Four), card(Three)]);
    assert_eq!(g.deck.cards, vec![card(Two)]);
}

#[test]
fn status_in_progress_until_someone_stays() {
    assert_eq!(game_with(&[Ten, Five], &[Nine, Seven], vec![]).status(), GameState::InProgress);
}

#[test]
fn five_cards_win_for_the_player() {
    let g = game_with(&[Two, Two, Two, Two, Three], &[Ten, Jack, Ace], vec![]);
    assert_eq!(g.status(), GameState::PlayerWon);
    let g = game_with(&[Ten, Five], &[Two, Two, Two, Two, Three], vec![]);
    assert_eq!(g.status(), GameState::PlayerWon);
}

#[test]
fn player_21_is_looked_at_before_dealer_21() {
    let mut g = game_with(&[Ace, King], &[Ace, Ten], vec![]);
    assert_eq!(g.status(), GameState::PlayerWon);
    g.player_stay_status = true;
    g.dealer_stay_status = true;
    assert_eq!(g.status(), GameState::PlayerWon);
    assert_eq!(game_with(&[Ten, Five], &[Ace, Ten], vec![]).status(), GameState::PlayerLost);
}

#[test]
fn outcomes_after_staying() {
    let mut tie = game_with(&[Ten, Seven], &[Nine, Eight], vec![]);
    tie.player_stay_status = true;
    assert_eq!(tie.status(), GameState::PlayerLost);
    let mut bust = game_with(&[Ten, Nine, Five], &[Ten, Two, King], vec![]);
    bust.player_stay_status = true;
    assert_eq!(bust.status(), GameState::PlayerLost);
    let mut dealer_bust = game_with(&[Ten, Five], &[Ten, Two, King], vec![]);
    dealer_bust.dealer_stay_status = true;
    assert_eq!(dealer_bust.status(), GameState::PlayerWon);
    let mut higher = game_with(&[Ten, Nine], &[Ten, Seven], vec![]);
    higher.player_stay_status = true;
    assert_eq!(higher.status(), GameState::PlayerWon);
    let mut lower = game_with(&[Ten, Six], &[Ten, Seven], vec![]);
    lower.player_stay_status = true;
    assert_eq!(lower.status(), GameState::PlayerLost);
}

#[test]
fn hit_deals_to_the_player() {
    let mut g = game_with(&[Ten, Two], &[Nine, Seven], vec![card(Three), card(Four)]);
    assert!(g.player_hit().is_ok());
    assert_eq!(g.player.cards.len(), 3);
    assert_eq!(g.player.score(), 16);
    assert!(!g.first_turn);
    assert_eq!(g.deck.cards, vec![card(Three)]);
}

#[test]
fn hit_after_a_stay_goes_by_the_outcome() {
    let mut g = game_with(&[Ten, Two], &[Nine, Seven], vec![card(Three)]);
    g.dealer_stay_status = true;
    g.player_stay_status = false;
    // the dealer's stay ends the game, so the status decides first
    assert!(matches!(g.player_hit(), Err(BlackJackError::PlayerAlreadyLost)));
}

#[test]
fn hit_on_finished_games_is_refused() {
    let mut won = game_with(&[Ace, King], &[Nine, Seven], vec![card(Three)]);
    assert!(matches!(won.player_hit(), Err(BlackJackError::PlayerAlreadyWon)));
    assert!(won.player.cards.len() == 2 && won.first_turn);
    let mut lost = game_with(&[Ten, Two], &[Ace, Jack], vec![card(Three)]);
    assert!(matches!(lost.player_hit(), Err(BlackJackError::PlayerAlreadyLost)));
    assert_eq!(lost.player.cards.len(), 2);
}

#[test]
fn hit_on_an_empty_deck_gives_no_card() {
    let mut g = game_with(&[Ten, Two], &[Nine, Seven], vec![]);
    assert!(matches!(g.player_hit(), Err(BlackJackError::NoCard)));
    assert_eq!(g.player.cards.len(), 2);
    assert!(!g.first_turn);
}

#[test]
fn dealer_play_needs_the_player_to_stay() {
    let mut g = game_with(&[Ten, Two], &[Nine, Two], vec![card(Ten)]);
    assert!(matches!(g.dealer_play(), Err(BlackJackError::PlayerNotDoneYet)));
    assert!(!g.dealer_stay_status);
    assert!(g.first_turn);
}

#[test]
fn staying_ends_with_the_dealer_staying() {
    let mut g = game_with(&[Ten, Two], &[Nine, Two], vec![card(Ten)]);
    assert!(g.player_stay().is_ok());
    assert!(g.player_stay_status && g.dealer_stay_status && !g.first_turn);
    assert!(g.status() != GameState::InProgress);
    assert_eq!(g.dealer.cards.len(), 2);
    assert!(g.player_stay().is_ok());
    assert_eq!(g.dealer.cards.len(), 2);
}

#[test]
fn claim_in_progress_hands_the_game_back() {
    let g = game_with(&[Ten, Two], &[Nine, Seven], vec![]);
    let back = g.claim().err().unwrap();
    assert!(!back.claimed);
    assert_eq!(back.gain, 0);
    assert_eq!(back.player.cards.len(), 2);
}

#[test]
fn claim_settles_a_win_and_a_loss() {
    let won = game_with(&[Ace, King], &[Nine, Seven], vec![]).claim().ok().unwrap();
    assert!(won.claimed);
    assert_eq!(won.gain, 30);
    let lost = game_with(&[Ten, Two], &[Ace, Jack], vec![]).claim().ok().unwrap();
    assert!(lost.claimed);
    assert_eq!(lost.gain, -30);
}

#[test]
fn record_of_a_game_in_progress_keeps_the_bet() {
    let g = game_with(&[Ten, Two], &[Nine, Seven], vec![card(Three)]);
    let r = g.to_record();
    assert_eq!((r.id, r.bet, r.status), (7, Some(30), None));
    assert_eq!(r.player_hand, vec!["HEARTS:TEN".to_string(), "HEARTS:TWO".to_string()]);
    assert_eq!(r.deck, vec!["HEARTS:THREE".to_string()]);
    assert!(r.first_turn && !r.player_stay && !r.dealer_stay);
}

#[test]
fn record_of_a_finished_game_keeps_the_outcome() {
    let won = game_with(&[Ace, King], &[Nine, Seven], vec![]).to_record();
    assert_eq!((won.bet, won.status), (None, Some(true)));
    let lost = game_with(&[Ten, Two], &[Ace, Jack], vec![]).to_record();
    assert_eq!((lost.bet, lost.status), (None, Some(false)));
}

#[test]
fn restore_needs_exactly_one_record() {
    assert!(matches!(BlackJack::restore(&vec![]), Err(BlackJackError::InvalidResultCount(0))));
    let two = vec![record(Some(5), &["HEARTS:ACE"]), record(Some(5), &["HEARTS:ACE"])];
    assert!(matches!(BlackJack::restore(&two), Err(BlackJackError::InvalidResultCount(2))));
}

#[test]
fn restore_without_bet_is_game_over() {
    assert!(matches!(BlackJack::restore(&vec![record(None, &["HEARTS:ACE"])]), Err(BlackJackError::GameOver)));
}

#[test]
fn restore_reports_a_bad_token() {
    let r = BlackJack::restore(&vec![record(Some(5), &["HEARTS:ACE", "NOPE"])]);
    assert!(matches!(r, Err(BlackJackError::CardParse(StandardCardParseError::NoCaptureGroup))));
}

#[test]
fn restore_rebuilds_the_game() {
    let g = BlackJack::restore(&vec![record(Some(5), &["HEARTS:ACE", "clubs:nine"])]).unwrap();
    assert_eq!(g.player_id, 3);
    assert_eq!(g.bet, 5);
    assert_eq!(g.player.cards, vec![card(Ace), StandardCard::Clubs(Nine)]);
    assert_eq!(g.dealer.cards, vec![StandardCard::Spades(Ten), StandardCard::Spades(Six)]);
    assert_eq!(g.deck.cards, vec![StandardCard::Clubs(Two)]);
    assert!(!g.claimed && g.gain == 0 && g.first_turn);
}

#[test]
fn saved_game_restores_to_itself() {
    let g = game_with(&[Ten, Two], &[Nine, Seven], vec![card(Three)]);
    let back = BlackJack::restore(&vec![g.to_record()]).unwrap();
    assert_eq!(back.player.cards, g.player.cards);
    assert_eq!(back.dealer.cards, g.dealer.cards);
    assert_eq!(back.deck.cards, g.deck.cards);
    assert_eq!((back.player_id, back.bet), (7, 30));
}

#[test]
fn claimed_game_cannot_be_restored_again() {
    let won = game_with(&[Ace, King], &[Nine, Seven], vec![]).claim().ok().unwrap();
    assert_eq!(won.gain, 30);
    // the claimed game's record is removed: nothing is found for the player
    assert!(matches!(BlackJack::restore(&vec![]), Err(BlackJackError::InvalidResultCount(0))));
    // a record saved after the win holds no bet
    assert!(matches!(BlackJack::restore(&vec![won.to_record()]), Err(BlackJackError::GameOver)));
}

#[test]
fn whole_game_with_a_stacked_deck() {
    // dealt from the end: player ten and four, dealer five and five, then a five
    let deck = vec![
        StandardCard::Clubs(Two),
        StandardCard::Hearts(Five),
        StandardCard::Spades(Five),
        StandardCard::Clubs(Five),
        StandardCard::Hearts(Four),
        StandardCard::Hearts(Ten),
    ];
    let mut g = BlackJack::new_with_deck(1, 50, 0, Deck::stacked(deck)).unwrap();
    assert_eq!((g.player.score(), g.dealer.score()), (14, 10));
    assert!(g.player_hit().is_ok());
    assert!(g.player_stay().is_ok());
    assert_eq!((g.player.score(), g.dealer.score()), (19, 10));
    assert_eq!(g.status(), GameState::PlayerWon);
    let done = g.claim().ok().unwrap();
    assert_eq!(done.gain, 50);
    assert!(done.claimed);
}

#[test]
fn error_descriptions() {
    assert_eq!(BlackJackError::GameOver.description(), "The game is over");
    assert_eq!(BlackJackError::CardParse(StandardCardParseError::NoSymbol).description(), "No matching symbol found");
    assert_eq!(BlackJackError::Storage("down".to_string()).description(), "down");
}

#[test]
fn stacked_hit_takes_the_last_card() {
    let mut g = game_with(&[Ten, Two], &[Nine, Seven], vec![card(Three), card(Four), card(Five)]);
    assert!(g.player_hit().is_ok());
    assert_eq!(g.player.cards[2], card(Five));
    assert_eq!(g.deck.cards, vec![card(Three), card(Four)]);
}

#[test]
fn saved_game_keeps_flags_through_restore() {
    let mut g = game_with(&[Ten, Two], &[Nine, Seven], vec![card(Three)]);
    g.first_turn = false;
    let back = BlackJack::restore(&vec![g.to_record()]).unwrap();
    assert!(!back.first_turn && !back.player_stay_status && !back.dealer_stay_status);
    assert!(!back.claimed && back.gain == 0);
}
