use games_microservice::cards::{StandardCard, StandardCardFace, StandardCardParseError};
use games_microservice::deck::standard_cards;

const FACES: [StandardCardFace; 14] = [
    StandardCardFace::Ace,
    StandardCardFace::Two,
    StandardCardFace::Three,
    StandardCardFace::Four,
    StandardCardFace::Five,
    StandardCardFace::Six,
    StandardCardFace::Seven,
    StandardCardFace::Eight,
    StandardCardFace::Nine,
    StandardCardFace::Ten,
    StandardCardFace::Jack,
    StandardCardFace::King,
    StandardCardFace::Queen,
    StandardCardFace::Joker,
];

fn every_card() -> Vec<StandardCard> {
    let mut all = Vec::new();
    for f in FACES.iter() {
        all.push(StandardCard::Hearts(*f));
        all.push(StandardCard::Spades(*f));
        all.push(StandardCard::Clubs(*f));
        all.push(StandardCard::Diamonds(*f));
    }
    all
}

#[test]
fn every_card_reads_back_from_its_token() {
    for c in every_card() {
        assert_eq!(StandardCard::parse(&c.to_string()), Ok(c));
    }
    assert_eq!(every_card().len(), 56);
}

#[test]
fn tokens_are_upper_case() {
    assert_eq!(StandardCard::Hearts(StandardCardFace::Eight).to_string(), "HEARTS:EIGHT");
    assert_eq!(StandardCard::Diamonds(StandardCardFace::Queen).to_string(), "DIAMONDS:QUEEN");
    assert_eq!(StandardCard::Clubs(StandardCardFace::Joker).to_string(), "CLUBS:JOKER");
}

#[test]
fn parsing_ignores_case() {
    assert_eq!(StandardCard::parse("hearts:ace"), Ok(StandardCard::Hearts(StandardCardFace::Ace)));
    assert_eq!(StandardCard::parse("SpAdEs:TeN"), Ok(StandardCard::Spades(StandardCardFace::Ten)));
    let c: StandardCard = "clubs:king".parse().unwrap();
    assert_eq!(c, StandardCard::Clubs(StandardCardFace::King));
}

#[test]
fn upper_case_reader_takes_only_upper_case() {
    assert_eq!(StandardCard::parse_upper("HEARTS:ACE"), Ok(StandardCard::Hearts(StandardCardFace::Ace)));
    assert_eq!(StandardCard::parse_upper("hearts:ace"), Err(StandardCardParseError::InvalidCard));
}

#[test]
fn token_without_separator_is_refused() {
    assert_eq!(StandardCard::parse("HEARTSACE"), Err(StandardCardParseError::NoCaptureGroup));
    assert_eq!(StandardCard::parse(""), Err(StandardCardParseError::NoCaptureGroup));
}

#[test]
fn unknown_face_is_refused() {
    assert_eq!(StandardCard::parse("HEARTS:ONE"), Err(StandardCardParseError::InvalidCard));
    assert_eq!(StandardCard::parse("HEARTS:"), Err(StandardCardParseError::InvalidCard));
}

#[test]
fn unknown_suit_is_refused() {
    assert_eq!(StandardCard::parse("STARS:ACE"), Err(StandardCardParseError::NoSymbol));
    assert_eq!(StandardCard::parse(":ACE"), Err(StandardCardParseError::NoSymbol));
}

#[test]
fn face_is_checked_before_suit() {
    assert_eq!(StandardCard::parse("STARS:ONE"), Err(StandardCardParseError::InvalidCard));
}

#[test]
fn the_last_separator_splits_the_token() {
    assert_eq!(StandardCard::parse("HEARTS:ACE:ACE"), Err(StandardCardParseError::NoSymbol));
    assert_eq!(StandardCard::parse("HEARTS::ACE"), Err(StandardCardParseError::NoSymbol));
}

#[test]
fn face_values() {
    let expected: [u8; 14] = [11, 2, 3, 4, 5, 6, 7, 8, 9, 10, 10, 10, 10, 10];
    for (f, v) in FACES.iter().zip(expected.iter()) {
        assert_eq!(f.value(), *v);
        assert_eq!(u8::from(*f), *v);
    }
    assert_eq!(u8::from(StandardCard::Spades(StandardCardFace::Seven)), 7);
    assert_eq!(u64::from(StandardCard::Spades(StandardCardFace::Ace)), 11);
}

#[test]
fn card_names() {
    let c = StandardCard::Diamonds(StandardCardFace::Nine);
    assert_eq!(c.face(), StandardCardFace::Nine);
    assert_eq!(StandardCardFace::from(c), StandardCardFace::Nine);
    assert_eq!(c.suite_string(), "Diamonds");
    assert_eq!(StandardCard::Hearts(StandardCardFace::Two).suite_string(), "Hearts");
    assert_eq!(c.face_as_string(), "NINE");
    assert_eq!(c.suit_str(), "DIAMONDS");
}

#[test]
fn parse_error_descriptions() {
    assert_eq!(StandardCardParseError::InvalidCard.description(), "Invalid card given");
    assert_eq!(StandardCardParseError::NoSymbol.description(), "No matching symbol found");
}

#[test]
fn standard_cards_are_fifty_two_without_jokers() {
    let cards = standard_cards();
    assert_eq!(cards.len(), 52);
    assert_eq!(cards[0], StandardCard::Hearts(StandardCardFace::Ace));
    assert_eq!(cards[51], StandardCard::Diamonds(StandardCardFace::King));
    assert!(cards.iter().all(|c| c.face() != StandardCardFace::Joker));
}

#[test]
fn mixed_case_token_is_upper_cased_before_reading() {
    assert_eq!(StandardCard::parse("Diamonds:Jack"), Ok(StandardCard::Diamonds(StandardCardFace::Jack)));
    assert_eq!(StandardCard::parse("hearts:one"), Err(StandardCardParseError::InvalidCard));
    assert_eq!(StandardCard::parse("stars:ace"), Err(StandardCardParseError::NoSymbol));
}
