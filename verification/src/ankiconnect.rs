//! Framing for the remote card service's JSON-over-HTTP protocol.
//!
//! Requests are strings the library composes exactly; responses arrive as
//! the plain structures below, handed in from outside.  An error string in
//! a response is surfaced as a failure, never ignored.

use vstd::prelude::*;
use vstd::string::StringExecFns;
use crate::kanji::char_to_string;
use crate::CliError;

verus! {

/// Response of the deck-listing action: the configured deck names.
#[derive(Debug)]
pub struct GetDecksResult {
    pub result: Vec<String>,
}

/// Response of the card-search action: matching card identifiers, or an
/// error string.
#[derive(Debug)]
pub struct GetCardsResult {
    pub result: Vec<u64>,
    pub err: Option<String>,
}

/// One named field of a card, with its display order.
#[derive(Debug)]
pub struct Field {
    pub name: String,
    pub value: String,
    pub order: u8,
}

/// One card's content: its identifier, review interval in days, and named
/// fields.
#[derive(Debug)]
pub struct CardContent {
    pub card_id: u64,
    pub interval: u16,
    pub fields: Vec<Field>,
}

/// Response of the card-content action: the fetched cards, or an error
/// string.
#[derive(Debug)]
pub struct GetCardsContentResult {
    pub result: Vec<CardContent>,
    pub err: Option<String>,
}

/// The body of the deck-listing request.
pub open spec fn deck_names_request_spec() -> Seq<char> {
    "{\"action\":\"deckNames\",\"version\":6}"@
}

/// Composes the deck-listing request body.
pub fn deck_names_request() -> (s: String)
    ensures
        s@ == deck_names_request_spec(),
{
    String::from_str("{\"action\":\"deckNames\",\"version\":6}")
}

/// The body of the request for all cards of one deck.
pub open spec fn find_cards_request_spec(deck: Seq<char>) -> Seq<char> {
    "{\"action\":\"findCards\",\"version\":6,\"params\":{\"query\":\"deck:\\\""@ + deck
        + "\\\"\"}}"@
}

/// Composes the search request for every card of the deck.
pub fn find_cards_request(deck: &str) -> (s: String)
    ensures
        s@ == find_cards_request_spec(deck@),
{
    let s = String::from_str(
        "{\"action\":\"findCards\",\"version\":6,\"params\":{\"query\":\"deck:\\\"",
    ).concat(deck).concat("\\\"\"}}");
    proof {
        assert(s@ =~= find_cards_request_spec(deck@));
    }
    s
}

/// The body of the candidate search: deck name exact match, and the named
/// field wildcard-contains the kanji.
pub open spec fn find_cards_in_deck_request_spec(
    deck: Seq<char>,
    field: Seq<char>,
    kanji: char,
) -> Seq<char> {
    "{\"action\":\"findCards\",\"version\":6,\"params\":{\"query\":\"deck:\\\""@ + deck + "\\\" "@
        + field + ":*"@ + seq![kanji] + "*\"}}"@
}

/// Composes the candidate search request: cards of `deck` whose `field`
/// contains `kanji`.
pub fn find_cards_in_deck_request(deck: &str, field: &str, kanji: char) -> (s: String)
    ensures
        s@ == find_cards_in_deck_request_spec(deck@, field@, kanji),
{
    let k = char_to_string(kanji);
    let s = String::from_str(
        "{\"action\":\"findCards\",\"version\":6,\"params\":{\"query\":\"deck:\\\"",
    ).concat(deck).concat("\\\" ").concat(field).concat(":*").concat(k.as_str()).concat("*\"}}");
    proof {
        assert(s@ =~= find_cards_in_deck_request_spec(deck@, field@, kanji));
    }
    s
}

/// The digit character of a value below ten.
pub open spec fn digit_char(d: u64) -> char {
    if d == 0 {
        '0'
    } else if d == 1 {
        '1'
    } else if d == 2 {
        '2'
    } else if d == 3 {
        '3'
    } else if d == 4 {
        '4'
    } else if d == 5 {
        '5'
    } else if d == 6 {
        '6'
    } else if d == 7 {
        '7'
    } else if d == 8 {
        '8'
    } else {
        '9'
    }
}

/// The decimal rendering of an unsigned value, most significant digit
/// first, without leading zeroes (a lone zero for zero).
pub open spec fn dec_rep(n: u64) -> Seq<char>
    decreases n,
{
    if n < 10 {
        seq![digit_char(n)]
    } else {
        dec_rep(n / 10) + seq![digit_char(n % 10)]
    }
}

/// The one-character string of a digit.
fn digit_str(d: u64) -> (s: &'static str)
    requires
        d < 10,
    ensures
        s@ =~= seq![digit_char(d)],
{
    proof {
        reveal_strlit("0");
        reveal_strlit("1");
        reveal_strlit("2");
        reveal_strlit("3");
        reveal_strlit("4");
        reveal_strlit("5");
        reveal_strlit("6");
        reveal_strlit("7");
        reveal_strlit("8");
        reveal_strlit("9");
    }
    match d {
        0 => "0",
        1 => "1",
        2 => "2",
        3 => "3",
        4 => "4",
        5 => "5",
        6 => "6",
        7 => "7",
        8 => "8",
        _ => "9",
    }
}

/// Renders a card identifier in decimal.
pub fn u64_to_string(n: u64) -> (s: String)
    ensures
        s@ == dec_rep(n),
    decreases n,
{
    if n < 10 {
        digit_str(n).to_owned()
    } else {
        let mut s = u64_to_string(n / 10);
        s.append(digit_str(n % 10));
        s
    }
}

/// The comma-separated decimal list of card identifiers.
pub open spec fn ids_csv(ids: Seq<u64>) -> Seq<char>
    decreases ids.len(),
{
    if ids.len() == 0 {
        Seq::empty()
    } else if ids.len() == 1 {
        dec_rep(ids[0])
    } else {
        ids_csv(ids.drop_last()) + ","@ + dec_rep(ids.last())
    }
}

/// The body of the card-content request for the given identifiers.
pub open spec fn cards_info_request_spec(ids: Seq<u64>) -> Seq<char> {
    "{\"action\":\"cardsInfo\",\"version\":6,\"params\":{\"cards\":["@ + ids_csv(ids) + "]}}"@
}

/// Composes the card-content request for the given card identifiers.
pub fn cards_info_request(ids: &Vec<u64>) -> (s: String)
    ensures
        s@ == cards_info_request_spec(ids@),
{
    let mut csv = String::new();
    let n = ids.len();
    let mut i: usize = 0;
    proof {
        assert(ids@.take(0) =~= Seq::<u64>::empty());
    }
    while i < n
        invariant
            n == ids@.len(),
            i <= n,
            csv@ =~= ids_csv(ids@.take(i as int)),
        decreases n - i,
    {
        if i > 0 {
            csv.append(",");
        }
        let d = u64_to_string(ids[i]);
        csv.append(d.as_str());
        proof {
            let t = ids@.take(i as int + 1);
            assert(t.drop_last() =~= ids@.take(i as int));
            assert(t.last() == ids@[i as int]);
            if i == 0 {
                assert(csv@ =~= ids_csv(t));
            } else {
                assert(csv@ =~= ids_csv(t));
            }
        }
        i = i + 1;
    }
    proof {
        assert(ids@.take(n as int) =~= ids@);
    }
    let s = String::from_str("{\"action\":\"cardsInfo\",\"version\":6,\"params\":{\"cards\":[")
        .concat(csv.as_str()).concat("]}}");
    proof {
        assert(s@ =~= cards_info_request_spec(ids@));
    }
    s
}

/// Surfaces the card-search response: the identifiers on success, the
/// service's error string as a remote failure otherwise.
pub fn cards_result_ids(r: GetCardsResult) -> (out: Result<Vec<u64>, CliError>)
    ensures
        r.err matches Some(m) ==> out == Err::<Vec<u64>, CliError>(CliError::Remote(m)),
        r.err is None ==> (out matches Ok(v) && v == r.result),
{
    let GetCardsResult { result, err } = r;
    match err {
        Some(m) => Err(CliError::Remote(m)),
        None => Ok(result),
    }
}

/// Surfaces the card-content response: the cards on success, the service's
/// error string as a remote failure otherwise.
pub fn card_content_result(r: GetCardsContentResult) -> (out: Result<
    Vec<CardContent>,
    CliError,
>)
    ensures
        r.err matches Some(m) ==> out == Err::<Vec<CardContent>, CliError>(CliError::Remote(m)),
        r.err is None ==> (out matches Ok(v) && v == r.result),
{
    let GetCardsContentResult { result, err } = r;
    match err {
        Some(m) => Err(CliError::Remote(m)),
        None => Ok(result),
    }
}

/// The first field of that name, if any.
pub open spec fn field_lookup(fields: Seq<Field>, name: Seq<char>) -> Option<Field>
    decreases fields.len(),
{
    if fields.len() == 0 {
        None
    } else if fields[0].name@ == name {
        Some(fields[0])
    } else {
        field_lookup(fields.drop_first(), name)
    }
}

/// Looks the named field up on a card.
pub fn field_value<'a>(card: &'a CardContent, name: &String) -> (r: Option<&'a String>)
    ensures
        r is Some <==> field_lookup(card.fields@, name@) is Some,
        r matches Some(v) ==> field_lookup(card.fields@, name@) matches Some(f) && v@ == f.value@,
{
    let n = card.fields.len();
    let mut i: usize = 0;
    proof {
        assert(card.fields@.skip(0) =~= card.fields@);
    }
    while i < n
        invariant
            n == card.fields@.len(),
            i <= n,
            field_lookup(card.fields@, name@) == field_lookup(card.fields@.skip(i as int), name@),
        decreases n - i,
    {
        proof {
            assert(card.fields@.skip(i as int).drop_first() =~= card.fields@.skip(i as int + 1));
            assert(card.fields@.skip(i as int)[0] == card.fields@[i as int]);
        }
        if card.fields[i].name == *name {
            return Some(&card.fields[i].value);
        }
        i = i + 1;
    }
    proof {
        assert(card.fields@.skip(n as int) =~= Seq::<Field>::empty());
    }
    None
}

} // verus!
