//! Boards, the lists on a board and the cards in a list, with their text
//! renderings and the records that bundle them for the views.

use vstd::prelude::*;
use vstd::string::*;
use crate::text::{
    decimal, is_numeral, lemma_decimal_is_numeral, lemma_framed_decimal_injective, numeral_value,
    u64_to_decimal,
};

verus! {

/// A board: a named collection of lists.
#[derive(Debug, Clone)]
pub struct Board {
    pub id: u64,
    pub name: String,
}

/// A card within a list; `sort_order` places it among its siblings.
#[derive(Debug, Clone)]
pub struct Card {
    pub id: u64,
    pub list_id: u64,
    pub title: String,
    pub description: Option<String>,
    pub sort_order: Option<i64>,
}

/// A list on a board, with the cards it holds.
#[derive(Debug, Clone)]
pub struct List {
    pub id: u64,
    pub board_id: u64,
    pub name: String,
    pub cards: Vec<Card>,
}

/// A user known to the application, by the identity provider that vouched
/// for them.
#[derive(Debug, Clone)]
pub struct User {
    pub user_id: i64,
    pub source: String,
    pub oauth_login: String,
    pub display_name: Option<String>,
    pub avatar_url: Option<String>,
}

/// A card that moved to another list, as broadcast to open boards.
#[derive(Debug, Clone)]
pub struct CardMoveEvent {
    pub card_id: u64,
    pub to_list_id: u64,
    pub card: Card,
    pub csrf_token: String,
}

/// The lists whose cards were reordered, as broadcast to open boards.
#[derive(Debug, Clone)]
pub struct CardSortUpdate {
    pub list_ids: Vec<u64>,
}

/// A board with the ids of its lists, in ascending order.
pub struct BoardWithListIds {
    pub board: Board,
    pub list_ids: Vec<u64>,
}

/// A board with its lists.
pub struct BoardWithCards {
    pub board: Board,
    pub lists: Vec<List>,
}

/// A list header with the list's cards.
pub struct ListWithCards {
    pub list: List,
    pub cards: Vec<Card>,
}

/// The line that shows a card: its id in brackets, then its title.
pub open spec fn card_line(id: u64, title: Seq<char>) -> Seq<char> {
    "    ["@ + decimal(id as nat) + "] "@ + title
}

/// The lines of a sequence of cards, each ended by a newline.
pub open spec fn card_lines(cards: Seq<Card>) -> Seq<char>
    decreases cards.len(),
{
    if cards.len() == 0 {
        Seq::empty()
    } else {
        card_lines(cards.drop_last()) + card_line(cards.last().id, cards.last().title@) + "\n"@
    }
}

/// The text that shows a list: a header line, then one line per card.
pub open spec fn list_text(id: u64, name: Seq<char>, cards: Seq<Card>) -> Seq<char> {
    "List: "@ + name + " (id: "@ + decimal(id as nat) + ")\n"@ + card_lines(cards)
}

impl Card {
    /// The card as a line of text: `    [id] title`.
    pub fn to_string(&self) -> (text: String)
        ensures
            text@ == card_line(self.id, self.title@),
    {
        let digits = u64_to_decimal(self.id);
        String::from_str("    [").concat(digits.as_str()).concat("] ").concat(self.title.as_str())
    }
}

impl List {
    /// The list as text: `List: name (id: id)` on a line of its own, then the
    /// line of each card.
    pub fn to_string(&self) -> (text: String)
        ensures
            text@ == list_text(self.id, self.name@, self.cards@),
    {
        let digits = u64_to_decimal(self.id);
        let mut text = String::from_str("List: ").concat(self.name.as_str()).concat(" (id: ").concat(
            digits.as_str(),
        ).concat(")\n");
        let ghost header = text@;
        let mut i: usize = 0;
        while i < self.cards.len()
            invariant
                i <= self.cards@.len(),
                header == "List: "@ + self.name@ + " (id: "@ + decimal(self.id as nat) + ")\n"@,
                text@ == header + card_lines(self.cards@.subrange(0, i as int)),
            decreases self.cards@.len() - i,
        {
            let line = self.cards[i].to_string();
            text.append(line.as_str());
            text.append("\n");
            proof {
                let s = self.cards@.subrange(0, i + 1);
                assert(s.drop_last() =~= self.cards@.subrange(0, i as int));
                assert(s.last() == self.cards@[i as int]);
            }
            i = i + 1;
        }
        assert(self.cards@.subrange(0, self.cards@.len() as int) =~= self.cards@);
        text
    }

    /// The list that a failed rename shows again: the given id and name, no
    /// board and no cards.
    pub fn renamed(id: u64, name: String) -> (list: List)
        ensures
            list.id == id,
            list.board_id == 0,
            list.name == name,
            list.cards@.len() == 0,
    {
        List { id, board_id: 0, name, cards: Vec::new() }
    }
}

impl CardMoveEvent {
    /// The event for `card`, now in list `to_list_id`.
    pub fn new(card_id: u64, to_list_id: u64, card: Card, csrf_token: String) -> (event: CardMoveEvent)
        ensures
            event.card_id == card_id,
            event.to_list_id == to_list_id,
            event.card == card,
            event.csrf_token == csrf_token,
    {
        CardMoveEvent { card_id, to_list_id, card, csrf_token }
    }
}

/// A card's line shows the canonical numeral of its id in brackets, then its
/// title.
pub proof fn lemma_card_line_shows_card(id: u64, title: Seq<char>)
    ensures
        exists|n: Seq<char>|
            #![trigger numeral_value(n)]
            is_numeral(n) && numeral_value(n) == id && card_line(id, title) == "    ["@ + n + "] "@
                + title,
{
    lemma_decimal_is_numeral(id as nat);
    let n = decimal(id as nat);
    assert(numeral_value(n) == id);
}

/// Cards with the same title but different ids have different lines.
pub proof fn lemma_card_line_distinct(a: u64, b: u64, title: Seq<char>)
    requires
        card_line(a, title) == card_line(b, title),
    ensures
        a == b,
{
    assert(card_line(a, title) =~= "    ["@ + decimal(a as nat) + ("] "@ + title));
    assert(card_line(b, title) =~= "    ["@ + decimal(b as nat) + ("] "@ + title));
    lemma_framed_decimal_injective("    ["@, "] "@ + title, a as nat, b as nat);
}

} // verus!
