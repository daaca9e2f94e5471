use vstd::prelude::*;

verus! {

/// The face of a playing card.
#[derive(Clone, Copy, Debug, PartialEq, Eq, Structural)]
pub enum StandardCardFace {
    Ace,
    Two,
    Three,
    Four,
    Five,
    Six,
    Seven,
    Eight,
    Nine,
    Ten,
    Jack,
    King,
    Queen,
    Joker,
}

/// Blackjack point value of a face: an ace counts 11, number cards their number,
/// the court cards and the joker 10.
pub open spec fn face_value(f: StandardCardFace) -> nat {
    match f {
        StandardCardFace::Ace => 11,
        StandardCardFace::Two => 2,
        StandardCardFace::Three => 3,
        StandardCardFace::Four => 4,
        StandardCardFace::Five => 5,
        StandardCardFace::Six => 6,
        StandardCardFace::Seven => 7,
        StandardCardFace::Eight => 8,
        StandardCardFace::Nine => 9,
        _ => 10,
    }
}

/// Upper-case text of a face.
pub open spec fn face_token(f: StandardCardFace) -> Seq<char> {
    match f {
        StandardCardFace::Ace => seq!['A', 'C', 'E'],
        StandardCardFace::Two => seq!['T', 'W', 'O'],
        StandardCardFace::Three => seq!['T', 'H', 'R', 'E', 'E'],
        StandardCardFace::Four => seq!['F', 'O', 'U', 'R'],
        StandardCardFace::Five => seq!['F', 'I', 'V', 'E'],
        StandardCardFace::Six => seq!['S', 'I', 'X'],
        StandardCardFace::Seven => seq!['S', 'E', 'V', 'E', 'N'],
        StandardCardFace::Eight => seq!['E', 'I', 'G', 'H', 'T'],
        StandardCardFace::Nine => seq!['N', 'I', 'N', 'E'],
        StandardCardFace::Ten => seq!['T', 'E', 'N'],
        StandardCardFace::Jack => seq!['J', 'A', 'C', 'K'],
        StandardCardFace::King => seq!['K', 'I', 'N', 'G'],
        StandardCardFace::Queen => seq!['Q', 'U', 'E', 'E', 'N'],
        StandardCardFace::Joker => seq!['J', 'O', 'K', 'E', 'R'],
    }
}

impl StandardCardFace {
    /// Returns the numerical value of a face by blackjack standards.
    /// An ace counts 11 here; the hand decides when it counts 1.
    pub fn value(&self) -> (r: u8)
        ensures
            r as nat == face_value(*self),
    {
        match self {
            StandardCardFace::Ace => 11,
            StandardCardFace::Two => 2,
            StandardCardFace::Three => 3,
            StandardCardFace::Four => 4,
            StandardCardFace::Five => 5,
            StandardCardFace::Six => 6,
            StandardCardFace::Seven => 7,
            StandardCardFace::Eight => 8,
            StandardCardFace::Nine => 9,
            _ => 10,
        }
    }

    /// The face's upper-case text, as it stands in a card token.
    pub fn as_str(&self) -> (r: &'static str)
        ensures
            r@ == face_token(*self),
    {
        match self {
            StandardCardFace::Ace => {
                proof { reveal_strlit("ACE"); assert("ACE"@ =~= face_token(*self)); }
                "ACE"
            },
            StandardCardFace::Two => {
                proof { reveal_strlit("TWO"); assert("TWO"@ =~= face_token(*self)); }
                "TWO"
            },
            StandardCardFace::Three => {
                proof { reveal_strlit("THREE"); assert("THREE"@ =~= face_token(*self)); }
                "THREE"
            },
            StandardCardFace::Four => {
                proof { reveal_strlit("FOUR"); assert("FOUR"@ =~= face_token(*self)); }
                "FOUR"
            },
            StandardCardFace::Five => {
                proof { reveal_strlit("FIVE"); assert("FIVE"@ =~= face_token(*self)); }
                "FIVE"
            },
            StandardCardFace::Six => {
                proof { reveal_strlit("SIX"); assert("SIX"@ =~= face_token(*self)); }
                "SIX"
            },
            StandardCardFace::Seven => {
                proof { reveal_strlit("SEVEN"); assert("SEVEN"@ =~= face_token(*self)); }
                "SEVEN"
            },
            StandardCardFace::Eight => {
                proof { reveal_strlit("EIGHT"); assert("EIGHT"@ =~= face_token(*self)); }
                "EIGHT"
            },
            StandardCardFace::Nine => {
                proof { reveal_strlit("NINE"); assert("NINE"@ =~= face_token(*self)); }
                "NINE"
            },
            StandardCardFace::Ten => {
                proof { reveal_strlit("TEN"); assert("TEN"@ =~= face_token(*self)); }
                "TEN"
            },
            StandardCardFace::Jack => {
                proof { reveal_strlit("JACK"); assert("JACK"@ =~= face_token(*self)); }
                "JACK"
            },
            StandardCardFace::King => {
                proof { reveal_strlit("KING"); assert("KING"@ =~= face_token(*self)); }
                "KING"
            },
            StandardCardFace::Queen => {
                proof { reveal_strlit("QUEEN"); assert("QUEEN"@ =~= face_token(*self)); }
                "QUEEN"
            },
            StandardCardFace::Joker => {
                proof { reveal_strlit("JOKER"); assert("JOKER"@ =~= face_token(*self)); }
                "JOKER"
            },
        }
    }
}

/// A playing card: a suit holding a face.
#[derive(Clone, Copy, Debug, PartialEq, Eq, Structural)]
pub enum StandardCard {
    Hearts(StandardCardFace),
    Spades(StandardCardFace),
    Clubs(StandardCardFace),
    Diamonds(StandardCardFace),
}

/// Why a card token could not be read.
#[derive(Clone, Copy, Debug, PartialEq, Eq, Structural)]
pub enum StandardCardParseError {
    /// The face part names no face.
    InvalidCard,
    /// The token holds no `:` between suit and face.
    NoCaptureGroup,
    /// The suit part names no suit.
    NoSymbol,
}

pub open spec fn card_face(c: StandardCard) -> StandardCardFace {
    match c {
        StandardCard::Hearts(f) => f,
        StandardCard::Spades(f) => f,
        StandardCard::Clubs(f) => f,
        StandardCard::Diamonds(f) => f,
    }
}

/// Upper-case text of a card's suit.
pub open spec fn suit_token(c: StandardCard) -> Seq<char> {
    match c {
        StandardCard::Hearts(_) => seq!['H', 'E', 'A', 'R', 'T', 'S'],
        StandardCard::Spades(_) => seq!['S', 'P', 'A', 'D', 'E', 'S'],
        StandardCard::Clubs(_) => seq!['C', 'L', 'U', 'B', 'S'],
        StandardCard::Diamonds(_) => seq!['D', 'I', 'A', 'M', 'O', 'N', 'D', 'S'],
    }
}

/// Name of a card's suit, capitalised.
pub open spec fn suit_name(c: StandardCard) -> Seq<char> {
    match c {
        StandardCard::Hearts(_) => seq!['H', 'e', 'a', 'r', 't', 's'],
        StandardCard::Spades(_) => seq!['S', 'p', 'a', 'd', 'e', 's'],
        StandardCard::Clubs(_) => seq!['C', 'l', 'u', 'b', 's'],
        StandardCard::Diamonds(_) => seq!['D', 'i', 'a', 'm', 'o', 'n', 'd', 's'],
    }
}

/// The token of a card: `SUIT:FACE`, upper case.
pub open spec fn card_token(c: StandardCard) -> Seq<char> {
    suit_token(c) + seq![':'] + face_token(card_face(c))
}

/// The face that an upper-case text names, if any.
pub open spec fn face_of_token(t: Seq<char>) -> Option<StandardCardFace> {
    if t == face_token(StandardCardFace::Ace) {
        Some(StandardCardFace::Ace)
    } else if t == face_token(StandardCardFace::Two) {
        Some(StandardCardFace::Two)
    } else if t == face_token(StandardCardFace::Three) {
        Some(StandardCardFace::Three)
    } else if t == face_token(StandardCardFace::Four) {
        Some(StandardCardFace::Four)
    } else if t == face_token(StandardCardFace::Five) {
        Some(StandardCardFace::Five)
    } else if t == face_token(StandardCardFace::Six) {
        Some(StandardCardFace::Six)
    } else if t == face_token(StandardCardFace::Seven) {
        Some(StandardCardFace::Seven)
    } else if t == face_token(StandardCardFace::Eight) {
        Some(StandardCardFace::Eight)
    } else if t == face_token(StandardCardFace::Nine) {
        Some(StandardCardFace::Nine)
    } else if t == face_token(StandardCardFace::Ten) {
        Some(StandardCardFace::Ten)
    } else if t == face_token(StandardCardFace::Jack) {
        Some(StandardCardFace::Jack)
    } else if t == face_token(StandardCardFace::King) {
        Some(StandardCardFace::King)
    } else if t == face_token(StandardCardFace::Queen) {
        Some(StandardCardFace::Queen)
    } else if t == face_token(StandardCardFace::Joker) {
        Some(StandardCardFace::Joker)
    } else {
        None
    }
}

/// The card of the suit that an upper-case text names, holding face `f`, if any.
pub open spec fn card_of_suit(t: Seq<char>, f: StandardCardFace) -> Option<StandardCard> {
    if t == seq!['H', 'E', 'A', 'R', 'T', 'S'] {
        Some(StandardCard::Hearts(f))
    } else if t == seq!['S', 'P', 'A', 'D', 'E', 'S'] {
        Some(StandardCard::Spades(f))
    } else if t == seq!['C', 'L', 'U', 'B', 'S'] {
        Some(StandardCard::Clubs(f))
    } else if t == seq!['D', 'I', 'A', 'M', 'O', 'N', 'D', 'S'] {
        Some(StandardCard::Diamonds(f))
    } else {
        None
    }
}

/// Index of the last `c` in `t`, or -1 where `t` holds none.
pub open spec fn last_index_of(t: Seq<char>, c: char) -> int
    decreases t.len(),
{
    if t.len() == 0 {
        -1
    } else if t.last() == c {
        t.len() - 1
    } else {
        last_index_of(t.drop_last(), c)
    }
}

/// Reading an upper-case token: the text before its last `:` names the suit, the
/// text after it the face. A missing `:` is reported first, then a bad face,
/// then a bad suit.
pub open spec fn parse_token(t: Seq<char>) -> Result<StandardCard, StandardCardParseError> {
    let k = last_index_of(t, ':');
    if k < 0 {
        Err(StandardCardParseError::NoCaptureGroup)
    } else {
        match face_of_token(t.subrange(k + 1, t.len() as int)) {
            None => Err(StandardCardParseError::InvalidCard),
            Some(f) => match card_of_suit(t.subrange(0, k), f) {
                None => Err(StandardCardParseError::NoSymbol),
                Some(c) => Ok(c),
            },
        }
    }
}

/// Text made of upper-case ASCII letters and `:` only.
pub open spec fn is_upper_token(t: Seq<char>) -> bool {
    forall|i: int| 0 <= i < t.len() ==> (('A' <= #[trigger] t[i] && t[i] <= 'Z') || t[i] == ':')
}

proof fn lemma_last_index_past(p: Seq<char>, f: Seq<char>, c: char)
    requires
        forall|i: int| 0 <= i < f.len() ==> f[i] != c,
    ensures
        last_index_of(p + seq![c] + f, c) == p.len(),
    decreases f.len(),
{
    let t = p + seq![c] + f;
    if f.len() == 0 {
        assert(t.last() == c);
    } else {
        assert(t.last() == f.last());
        assert(t.drop_last() =~= p + seq![c] + f.drop_last());
        lemma_last_index_past(p, f.drop_last(), c);
    }
}

proof fn lemma_face_token_read(f: StandardCardFace)
    ensures
        face_of_token(face_token(f)) == Some(f),
        forall|i: int| 0 <= i < face_token(f).len() ==> face_token(f)[i] != ':',
{
}

proof fn lemma_suit_token_read(c: StandardCard)
    ensures
        card_of_suit(suit_token(c), card_face(c)) == Some(c),
{
}

/// Reading the token of any card gives that card back, and the token is all
/// upper case, so reading it case-insensitively changes nothing.
pub proof fn lemma_token_round_trip(c: StandardCard)
    ensures
        parse_token(card_token(c)) == Ok::<StandardCard, StandardCardParseError>(c),
        is_upper_token(card_token(c)),
{
    let t = card_token(c);
    let p = suit_token(c);
    let f = face_token(card_face(c));
    lemma_face_token_read(card_face(c));
    lemma_suit_token_read(c);
    lemma_last_index_past(p, f, ':');
    assert(t.subrange(p.len() + 1 as int, t.len() as int) =~= f);
    assert(t.subrange(0, p.len() as int) =~= p);
}

/// Reading a token, ignoring case: a token already in upper case is read as
/// it stands, any other after upper-casing.
pub open spec fn parse_text(t: Seq<char>) -> Result<StandardCard, StandardCardParseError> {
    if is_upper_token(t) {
        parse_token(t)
    } else {
        parse_token(upper_of(t))
    }
}

/// Whether `s` holds only upper-case ASCII letters and `:`.
fn is_upper_text(s: &str) -> (r: bool)
    ensures
        r == is_upper_token(s@),
{
    let n = s.unicode_len();
    let mut i: usize = 0;
    while i < n
        invariant
            i <= n,
            n == s@.len(),
            forall|j: int| 0 <= j < i ==> (('A' <= #[trigger] s@[j] && s@[j] <= 'Z') || s@[j] == ':'),
        decreases n - i,
    {
        let c = s.get_char(i);
        if !(('A' <= c && c <= 'Z') || c == ':') {
            return false;
        }
        i += 1;
    }
    true
}

/// What `str::to_uppercase` makes of a text.
pub uninterp spec fn upper_of(s: Seq<char>) -> Seq<char>;

/// Relies on `str::to_uppercase`: the result depends on the text alone.
#[verifier::external_body]
fn to_upper(s: &str) -> (r: String)
    ensures
        r@ == upper_of(s@),
{
    s.to_uppercase()
}

/// Whether `t[lo..hi]` is the text `lit`.
fn text_is(t: &str, lo: usize, hi: usize, lit: &str) -> (r: bool)
    requires
        lo <= hi <= t@.len(),
    ensures
        r == (t@.subrange(lo as int, hi as int) == lit@),
{
    let m = lit.unicode_len();
    if hi - lo != m {
        return false;
    }
    let mut j: usize = 0;
    while j < m
        invariant
            j <= m,
            m == lit@.len(),
            hi - lo == m,
            lo <= hi <= t@.len(),
            forall|q: int| 0 <= q < j ==> t@[lo + q] == lit@[q],
        decreases m - j,
    {
        if t.get_char(lo + j) != lit.get_char(j) {
            proof {
                assert(t@.subrange(lo as int, hi as int)[j as int] != lit@[j as int]);
            }
            return false;
        }
        j += 1;
    }
    proof {
        assert(t@.subrange(lo as int, hi as int) =~= lit@);
    }
    true
}

/// The face that `t[lo..hi]` names, if any.
fn face_in(t: &str, lo: usize, hi: usize) -> (r: Option<StandardCardFace>)
    requires
        lo <= hi <= t@.len(),
    ensures
        r == face_of_token(t@.subrange(lo as int, hi as int)),
{
    if text_is(t, lo, hi, StandardCardFace::Ace.as_str()) {
        Some(StandardCardFace::Ace)
    } else if text_is(t, lo, hi, StandardCardFace::Two.as_str()) {
        Some(StandardCardFace::Two)
    } else if text_is(t, lo, hi, StandardCardFace::Three.as_str()) {
        Some(StandardCardFace::Three)
    } else if text_is(t, lo, hi, StandardCardFace::Four.as_str()) {
        Some(StandardCardFace::Four)
    } else if text_is(t, lo, hi, StandardCardFace::Five.as_str()) {
        Some(StandardCardFace::Five)
    } else if text_is(t, lo, hi, StandardCardFace::Six.as_str()) {
        Some(StandardCardFace::Six)
    } else if text_is(t, lo, hi, StandardCardFace::Seven.as_str()) {
        Some(StandardCardFace::Seven)
    } else if text_is(t, lo, hi, StandardCardFace::Eight.as_str()) {
        Some(StandardCardFace::Eight)
    } else if text_is(t, lo, hi, StandardCardFace::Nine.as_str()) {
        Some(StandardCardFace::Nine)
    } else if text_is(t, lo, hi, StandardCardFace::Ten.as_str()) {
        Some(StandardCardFace::Ten)
    } else if text_is(t, lo, hi, StandardCardFace::Jack.as_str()) {
        Some(StandardCardFace::Jack)
    } else if text_is(t, lo, hi, StandardCardFace::King.as_str()) {
        Some(StandardCardFace::King)
    } else if text_is(t, lo, hi, StandardCardFace::Queen.as_str()) {
        Some(StandardCardFace::Queen)
    } else if text_is(t, lo, hi, StandardCardFace::Joker.as_str()) {
        Some(StandardCardFace::Joker)
    } else {
        None
    }
}

/// The card of the suit that `t[lo..hi]` names, holding `f`, if any.
fn card_in(t: &str, lo: usize, hi: usize, f: StandardCardFace) -> (r: Option<StandardCard>)
    requires
        lo <= hi <= t@.len(),
    ensures
        r == card_of_suit(t@.subrange(lo as int, hi as int), f),
{
    if text_is(t, lo, hi, StandardCard::Hearts(f).suit_str()) {
        Some(StandardCard::Hearts(f))
    } else if text_is(t, lo, hi, StandardCard::Spades(f).suit_str()) {
        Some(StandardCard::Spades(f))
    } else if text_is(t, lo, hi, StandardCard::Clubs(f).suit_str()) {
        Some(StandardCard::Clubs(f))
    } else if text_is(t, lo, hi, StandardCard::Diamonds(f).suit_str()) {
        Some(StandardCard::Diamonds(f))
    } else {
        None
    }
}

impl StandardCard {
    pub fn face(&self) -> (r: StandardCardFace)
        ensures
            r == card_face(*self),
    {
        match self {
            StandardCard::Hearts(f) => *f,
            StandardCard::Spades(f) => *f,
            StandardCard::Clubs(f) => *f,
            StandardCard::Diamonds(f) => *f,
        }
    }

    /// The suit's upper-case text, as it stands in a card token.
    pub fn suit_str(&self) -> (r: &'static str)
        ensures
            r@ == suit_token(*self),
    {
        match self {
            StandardCard::Hearts(_) => {
                proof { reveal_strlit("HEARTS"); assert("HEARTS"@ =~= suit_token(*self)); }
                "HEARTS"
            },
            StandardCard::Spades(_) => {
                proof { reveal_strlit("SPADES"); assert("SPADES"@ =~= suit_token(*self)); }
                "SPADES"
            },
            StandardCard::Clubs(_) => {
                proof { reveal_strlit("CLUBS"); assert("CLUBS"@ =~= suit_token(*self)); }
                "CLUBS"
            },
            StandardCard::Diamonds(_) => {
                proof { reveal_strlit("DIAMONDS"); assert("DIAMONDS"@ =~= suit_token(*self)); }
                "DIAMONDS"
            },
        }
    }

    /// The suit's name, capitalised.
    pub fn suite_string(&self) -> (r: String)
        ensures
            r@ == suit_name(*self),
    {
        let name: &str = match self {
            StandardCard::Hearts(_) => {
                proof { reveal_strlit("Hearts"); assert("Hearts"@ =~= suit_name(*self)); }
                "Hearts"
            },
            StandardCard::Spades(_) => {
                proof { reveal_strlit("Spades"); assert("Spades"@ =~= suit_name(*self)); }
                "Spades"
            },
            StandardCard::Clubs(_) => {
                proof { reveal_strlit("Clubs"); assert("Clubs"@ =~= suit_name(*self)); }
                "Clubs"
            },
            StandardCard::Diamonds(_) => {
                proof { reveal_strlit("Diamonds"); assert("Diamonds"@ =~= suit_name(*self)); }
                "Diamonds"
            },
        };
        String::from_str(name)
    }

    /// The face's upper-case text.
    pub fn face_as_string(&self) -> (r: String)
        ensures
            r@ == face_token(card_face(*self)),
    {
        String::from_str(self.face().as_str())
    }

    /// The card's token, `SUIT:FACE` in upper case.
    pub fn to_string(&self) -> (r: String)
        ensures
            r@ == card_token(*self),
    {
        let mut r = String::from_str(self.suit_str());
        r.append(":");
        proof {
            reveal_strlit(":");
        }
        r.append(self.face().as_str());
        proof {
            assert(r@ =~= card_token(*self));
        }
        r
    }

    /// Reads a token that is already upper case.
    pub fn parse_upper(t: &str) -> (r: Result<StandardCard, StandardCardParseError>)
        ensures
            r == parse_token(t@),
    {
        let n = t.unicode_len();
        let mut i: usize = n;
        proof {
            assert(t@.subrange(0, n as int) =~= t@);
        }
        loop
            invariant
                i <= n,
                n == t@.len(),
                last_index_of(t@, ':') == last_index_of(t@.subrange(0, i as int), ':'),
            ensures
                0 < i <= n,
                t@[i - 1] == ':',
                last_index_of(t@, ':') == last_index_of(t@.subrange(0, i as int), ':'),
            decreases i,
        {
            if i == 0 {
                proof {
                    assert(t@.subrange(0, 0) =~= Seq::<char>::empty());
                }
                return Err(StandardCardParseError::NoCaptureGroup);
            }
            if t.get_char(i - 1) == ':' {
                break;
            }
            proof {
                assert(t@.subrange(0, i - 1) =~= t@.subrange(0, i as int).drop_last());
            }
            i -= 1;
        }
        let k = i - 1;
        proof {
            assert(t@.subrange(0, i as int).last() == ':');
        }
        match face_in(t, k + 1, n) {
            None => Err(StandardCardParseError::InvalidCard),
            Some(f) => match card_in(t, 0, k, f) {
                None => Err(StandardCardParseError::NoSymbol),
                Some(c) => Ok(c),
            },
        }
    }

    /// Reads a token, ignoring case.
    pub fn parse(s: &str) -> (r: Result<StandardCard, StandardCardParseError>)
        ensures
            r == parse_text(s@),
    {
        if is_upper_text(s) {
            StandardCard::parse_upper(s)
        } else {
            let u = to_upper(s);
            StandardCard::parse_upper(u.as_str())
        }
    }
}

impl StandardCardParseError {
    pub fn description(&self) -> (r: &'static str) {
        match self {
            StandardCardParseError::InvalidCard => "Invalid card given",
            StandardCardParseError::NoCaptureGroup => "No regex capture group matched",
            StandardCardParseError::NoSymbol => "No matching symbol found",
        }
    }
}

/// The texts of a list of strings.
pub open spec fn texts(v: Seq<String>) -> Seq<Seq<char>> {
    v.map_values(|s: String| s@)
}

/// The tokens of a list of cards.
pub open spec fn card_tokens(cards: Seq<StandardCard>) -> Seq<Seq<char>> {
    cards.map_values(|c: StandardCard| card_token(c))
}

/// Reading a list of tokens, ignoring case: the cards in order, or the error of
/// the first token that cannot be read.
pub open spec fn read_tokens(ts: Seq<Seq<char>>) -> Result<Seq<StandardCard>, StandardCardParseError>
    decreases ts.len(),
{
    if ts.len() == 0 {
        Ok(Seq::empty())
    } else {
        match read_tokens(ts.drop_last()) {
            Err(e) => Err(e),
            Ok(cs) => match parse_text(ts.last()) {
                Err(e) => Err(e),
                Ok(c) => Ok(cs.push(c)),
            },
        }
    }
}

/// The token of each card, in order.
pub fn export_cards(cards: &Vec<StandardCard>) -> (r: Vec<String>)
    ensures
        texts(r@) == card_tokens(cards@),
{
    let mut r: Vec<String> = Vec::new();
    let mut i: usize = 0;
    while i < cards.len()
        invariant
            i <= cards@.len(),
            r@.len() == i,
            texts(r@) == card_tokens(cards@.subrange(0, i as int)),
        decreases cards@.len() - i,
    {
        let ghost before = r@;
        let tok = cards[i].to_string();
        r.push(tok);
        proof {
            assert forall|j: int| 0 <= j < i implies texts(r@)[j] == card_tokens(
                cards@.subrange(0, i + 1),
            )[j] by {
                assert(texts(before)[j] == card_tokens(cards@.subrange(0, i as int))[j]);
            }
            assert(texts(r@)[i as int] == tok@);
            assert(texts(r@) =~= card_tokens(cards@.subrange(0, i + 1)));
        }
        i += 1;
    }
    proof {
        assert(cards@.subrange(0, i as int) =~= cards@);
    }
    r
}

/// Reads each token, ignoring case, stopping at the first that cannot be read.
pub fn import_cards(tokens: &Vec<String>) -> (r: Result<Vec<StandardCard>, StandardCardParseError>)
    ensures
        match r {
            Ok(v) => read_tokens(texts(tokens@)) == Ok::<Seq<StandardCard>, StandardCardParseError>(v@),
            Err(e) => read_tokens(texts(tokens@)) == Err::<Seq<StandardCard>, StandardCardParseError>(e),
        },
{
    let mut out: Vec<StandardCard> = Vec::new();
    let mut i: usize = 0;
    proof {
        assert(texts(tokens@).subrange(0, 0) =~= Seq::<Seq<char>>::empty());
    }
    while i < tokens.len()
        invariant
            i <= tokens@.len(),
            read_tokens(texts(tokens@).subrange(0, i as int)) == Ok::<Seq<StandardCard>, StandardCardParseError>(out@),
        decreases tokens@.len() - i,
    {
        let ghost pre = texts(tokens@).subrange(0, i as int);
        let ghost cur = texts(tokens@).subrange(0, i + 1);
        proof {
            assert(cur.drop_last() =~= pre);
            assert(cur.last() == tokens@[i as int]@);
        }
        match StandardCard::parse(tokens[i].as_str()) {
            Err(e) => {
                proof {
                    lemma_read_error_stays(texts(tokens@), i as int + 1);
                }
                return Err(e);
            },
            Ok(c) => {
                out.push(c);
            },
        }
        i += 1;
    }
    proof {
        assert(texts(tokens@).subrange(0, i as int) =~= texts(tokens@));
    }
    Ok(out)
}

/// Once a prefix of the tokens fails to read, the whole list fails with the
/// same error.
proof fn lemma_read_error_stays(ts: Seq<Seq<char>>, k: int)
    requires
        0 <= k <= ts.len(),
        read_tokens(ts.subrange(0, k)) is Err,
    ensures
        read_tokens(ts) == read_tokens(ts.subrange(0, k)),
    decreases ts.len() - k,
{
    if k == ts.len() {
        assert(ts.subrange(0, k) =~= ts);
    } else {
        let next = ts.subrange(0, k + 1);
        assert(next.drop_last() =~= ts.subrange(0, k));
        lemma_read_error_stays(ts, k + 1);
    }
}

/// A list of tokens that reads gives one card per token.
pub proof fn lemma_read_tokens_len(ts: Seq<Seq<char>>)
    ensures
        read_tokens(ts) matches Ok(cs) ==> cs.len() == ts.len(),
    decreases ts.len(),
{
    if ts.len() > 0 {
        lemma_read_tokens_len(ts.drop_last());
    }
}

impl From<StandardCard> for StandardCardFace {
    fn from(card: StandardCard) -> (r: StandardCardFace) {
        card.face()
    }
}

impl vstd::std_specs::convert::FromSpecImpl<StandardCard> for StandardCardFace {
    open spec fn obeys_from_spec() -> bool {
        true
    }

    open spec fn from_spec(v: StandardCard) -> StandardCardFace {
        card_face(v)
    }
}

impl From<StandardCardFace> for u8 {
    fn from(face: StandardCardFace) -> (r: u8) {
        face.value()
    }
}

impl vstd::std_specs::convert::FromSpecImpl<StandardCardFace> for u8 {
    open spec fn obeys_from_spec() -> bool {
        true
    }

    open spec fn from_spec(v: StandardCardFace) -> u8 {
        face_value(v) as u8
    }
}

impl From<StandardCard> for u8 {
    fn from(card: StandardCard) -> (r: u8) {
        u8::from(StandardCardFace::from(card))
    }
}

impl vstd::std_specs::convert::FromSpecImpl<StandardCard> for u8 {
    open spec fn obeys_from_spec() -> bool {
        true
    }

    open spec fn from_spec(v: StandardCard) -> u8 {
        face_value(card_face(v)) as u8
    }
}

impl From<StandardCard> for u64 {
    fn from(card: StandardCard) -> (r: u64) {
        u8::from(card) as u64
    }
}

impl vstd::std_specs::convert::FromSpecImpl<StandardCard> for u64 {
    open spec fn obeys_from_spec() -> bool {
        true
    }

    open spec fn from_spec(v: StandardCard) -> u64 {
        face_value(card_face(v)) as u64
    }
}

impl std::str::FromStr for StandardCard {
    type Err = StandardCardParseError;

    fn from_str(s: &str) -> Result<StandardCard, StandardCardParseError> {
        StandardCard::parse(s)
    }
}

/// The tokens of any list of cards read back as those cards.
pub proof fn lemma_tokens_round_trip(cs: Seq<StandardCard>)
    ensures
        read_tokens(card_tokens(cs)) == Ok::<Seq<StandardCard>, StandardCardParseError>(cs),
    decreases cs.len(),
{
    if cs.len() > 0 {
        let ts = card_tokens(cs);
        lemma_tokens_round_trip(cs.drop_last());
        assert(ts.drop_last() =~= card_tokens(cs.drop_last()));
        lemma_token_round_trip(cs.last());
        assert(ts.last() == card_token(cs.last()));
        assert(parse_text(ts.last()) == Ok::<StandardCard, StandardCardParseError>(cs.last()));
        assert(cs.drop_last().push(cs.last()) =~= cs);
        assert(ts.len() > 0);
    } else {
        assert(card_tokens(cs).len() == 0);
        assert(cs =~= Seq::<StandardCard>::empty());
    }
}

} // verus!
