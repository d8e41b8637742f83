//! Reading cards and choices from text.
//!
//! A deck source is plain text with the value of one card on each line. A
//! value is written as an integer in decimal: an optional sign, then one or
//! more digits, and nothing else. A line ends at a line feed; a carriage
//! return just before the line feed belongs to the line ending. The last
//! line may go without a line ending.

use vstd::prelude::*;
use crate::cards::Card;
use crate::deck::Deck;
use crate::error::GameError;
use crate::text::{digit_char, integer_text, number_text};
use crate::turn::Action;

verus! {

/// `c` is one of the ten decimal digits.
pub open spec fn is_digit(c: char) -> bool {
    '0' <= c <= '9'
}

/// The value of a decimal digit.
pub open spec fn digit_value(c: char) -> nat {
    (c as int - '0' as int) as nat
}

/// The number that a run of digits writes in decimal.
pub open spec fn decimal(digits: Seq<char>) -> nat
    decreases digits.len(),
{
    if digits.len() == 0 {
        0
    } else {
        decimal(digits.drop_last()) * 10 + digit_value(digits.last())
    }
}

/// `digits` is a run of one or more decimal digits.
pub open spec fn is_number(digits: Seq<char>) -> bool {
    digits.len() > 0 && forall|i: int| 0 <= i < digits.len() ==> is_digit(#[trigger] digits[i])
}

/// The number that `digits` writes, if it is a run of digits and the number
/// is at most `limit`.
pub open spec fn number_up_to(digits: Seq<char>, limit: nat) -> Option<nat> {
    if is_number(digits) && decimal(digits) <= limit {
        Some(decimal(digits))
    } else {
        None
    }
}

/// The integer that `text` writes: a run of digits, with a plus sign before
/// it or none, or, where `signed`, a minus sign.
pub open spec fn integer(text: Seq<char>, signed: bool) -> Option<int> {
    if text.len() > 0 && text[0] == '+' {
        if is_number(text.skip(1)) {
            Some(decimal(text.skip(1)) as int)
        } else {
            None
        }
    } else if signed && text.len() > 0 && text[0] == '-' {
        if is_number(text.skip(1)) {
            Some(-(decimal(text.skip(1)) as int))
        } else {
            None
        }
    } else if is_number(text) {
        Some(decimal(text) as int)
    } else {
        None
    }
}

/// The card value that a line writes: an integer that a card can hold.
pub open spec fn card_value(line: Seq<char>) -> Option<i8> {
    match integer(line, true) {
        Some(value) => if i8::MIN <= value <= i8::MAX {
            Some(value as i8)
        } else {
            None
        },
        None => None,
    }
}

/// The hand index that a token writes: an integer without a minus sign
/// that is small enough to index a hand.
pub open spec fn card_index(token: Seq<char>) -> Option<usize> {
    match integer(token, false) {
        Some(value) => if value <= usize::MAX {
            Some(value as usize)
        } else {
            None
        },
        None => None,
    }
}

/// The action that a token names. Tokens are matched as they are, letter
/// for letter.
pub open spec fn action_of_token(token: Seq<char>) -> Option<Action> {
    if token == "stand"@ {
        Some(Action::Stand)
    } else if token == "play"@ {
        Some(Action::Play)
    } else if token == "end"@ {
        Some(Action::EndTurn)
    } else {
        None
    }
}

/// The place of the first line feed in `text`, or the length of `text` if
/// it has none.
pub open spec fn line_end(text: Seq<char>) -> int
    decreases text.len(),
{
    if text.len() == 0 || text[0] == '\n' {
        0
    } else {
        1 + line_end(text.skip(1))
    }
}

/// The first line of `text`, without its line ending.
pub open spec fn first_line(text: Seq<char>) -> Seq<char> {
    let end = line_end(text);
    if 0 < end < text.len() && text[end - 1] == '\r' {
        text.take(end - 1)
    } else {
        text.take(end)
    }
}

/// What follows the first line of `text` and its line ending.
pub open spec fn after_first_line(text: Seq<char>) -> Seq<char> {
    if line_end(text) < text.len() {
        text.skip(line_end(text) + 1)
    } else {
        Seq::empty()
    }
}

/// The lines of `text`, without their line endings.
pub open spec fn source_lines(text: Seq<char>) -> Seq<Seq<char>>
    decreases text.len(),
{
    if text.len() == 0 {
        Seq::empty()
    } else {
        proof {
            lemma_line_end_within(text);
        }
        seq![first_line(text)] + source_lines(after_first_line(text))
    }
}

/// The cards that a deck source lists, in its order: one card for each
/// line, provided every line writes a card value.
pub open spec fn deck_of_source(text: Seq<char>) -> Option<Seq<Card>> {
    let lines = source_lines(text);
    if forall|i: int| 0 <= i < lines.len() ==> card_value(#[trigger] lines[i]) is Some {
        Some(
            Seq::new(
                lines.len(),
                |i: int| Card { value: card_value(lines[i])->0, special_type: None },
            ),
        )
    } else {
        None
    }
}

/// The first line ends within the text.
pub proof fn lemma_line_end_within(text: Seq<char>)
    ensures
        0 <= line_end(text) <= text.len(),
    decreases text.len(),
{
    if text.len() > 0 && text[0] != '\n' {
        lemma_line_end_within(text.skip(1));
    }
}

/// The first line ends at `end` if there is a line feed at `end`, or the
/// text ends there, and there is no line feed before.
pub proof fn lemma_line_end_is(text: Seq<char>, end: int)
    requires
        0 <= end <= text.len(),
        forall|k: int| 0 <= k < end ==> text[k] != '\n',
        end == text.len() || text[end] == '\n',
    ensures
        line_end(text) == end,
    decreases text.len(),
{
    if end > 0 {
        lemma_line_end_is(text.skip(1), end - 1);
    }
}

/// More digits never write a smaller number.
pub proof fn lemma_decimal_grows(digits: Seq<char>, k: int)
    requires
        0 <= k <= digits.len(),
    ensures
        decimal(digits.take(k)) <= decimal(digits),
    decreases digits.len(),
{
    if k == digits.len() {
        assert(digits.take(k) =~= digits);
    } else {
        lemma_decimal_grows(digits.drop_last(), k);
        assert(digits.drop_last().take(k) =~= digits.take(k));
    }
}

/// A number written in decimal reads back as itself.
pub proof fn lemma_number_reads_back(n: nat)
    ensures
        is_number(number_text(n)),
        decimal(number_text(n)) == n,
        is_digit(number_text(n)[0]),
    decreases n,
{
    let last = n % 10;
    assert(digit_value(digit_char(last)) == last && is_digit(digit_char(last)));
    assert(number_text(n).last() == digit_char(last));
    if n >= 10 {
        lemma_number_reads_back(n / 10);
        assert(number_text(n).drop_last() =~= number_text(n / 10));
        assert(decimal(number_text(n)) == decimal(number_text(n / 10)) * 10 + last);
    } else {
        assert(number_text(n).drop_last() =~= Seq::<char>::empty());
        assert(decimal(number_text(n)) == decimal(Seq::<char>::empty()) * 10 + last);
    }
}

/// What a card shows as its value reads back as that value: the value of
/// any card, written out, is a line of a deck source for the same value.
pub proof fn lemma_card_value_reads_back(value: i8)
    ensures
        card_value(integer_text(value as int)) == Some(value),
{
    let text = integer_text(value as int);
    if value < 0 {
        lemma_number_reads_back((-value) as nat);
        assert(text.skip(1) =~= number_text((-value) as nat));
    } else {
        lemma_number_reads_back(value as nat);
    }
}

/// The characters of `text`, in order.
fn chars_of(text: &str) -> (chars: Vec<char>)
    ensures
        chars@ == text@,
{
    let mut chars: Vec<char> = Vec::new();
    for c in it: text.chars()
        invariant
            it.seq() == text@,
            chars@ == it.seq().take(it.index() as int),
    {
        chars.push(c);
        proof {
            assert(it.seq().take(it.index() + 1) =~= it.seq().take(it.index() as int).push(c));
        }
    }
    proof {
        assert(text@.take(text@.len() as int) =~= text@);
    }
    chars
}

/// Reads the number written by the characters from `from` up to `to`.
fn read_number(chars: &Vec<char>, from: usize, to: usize, limit: u64) -> (value: Option<u64>)
    requires
        from <= to <= chars@.len(),
    ensures
        value.is_some() == number_up_to(chars@.subrange(from as int, to as int), limit as nat).is_some(),
        value matches Some(n) ==> number_up_to(chars@.subrange(from as int, to as int), limit as nat)
            == Some(n as nat),
{
    let ghost digits = chars@.subrange(from as int, to as int);
    if from == to {
        return None;
    }
    let mut value: u64 = 0;
    let mut i: usize = from;
    while i < to
        invariant
            from <= i <= to <= chars@.len(),
            digits == chars@.subrange(from as int, to as int),
            forall|k: int| 0 <= k < i - from ==> is_digit(#[trigger] digits[k]),
            value == decimal(digits.take(i - from)),
            value <= limit,
        decreases to - i,
    {
        let c = chars[i];
        if !('0' <= c && c <= '9') {
            proof {
                assert(!is_digit(digits[i - from]));
            }
            return None;
        }
        let digit: u128 = (c as u8 - '0' as u8) as u128;
        let next: u128 = value as u128 * 10 + digit;
        proof {
            assert(digits.take(i - from + 1).drop_last() =~= digits.take(i - from));
            assert(digits.take(i - from + 1).last() == c);
            assert(next == decimal(digits.take(i - from + 1)));
        }
        if next > limit as u128 {
            proof {
                lemma_decimal_grows(digits, i - from + 1);
            }
            return None;
        }
        value = next as u64;
        i = i + 1;
    }
    proof {
        assert(digits.take(to - from) =~= digits);
    }
    Some(value)
}

/// Reads the card value written by the characters from `from` up to `to`.
fn read_card_value(chars: &Vec<char>, from: usize, to: usize) -> (value: Option<i8>)
    requires
        from <= to <= chars@.len(),
    ensures
        value == card_value(chars@.subrange(from as int, to as int)),
{
    let ghost line = chars@.subrange(from as int, to as int);
    if from < to && chars[from] == '+' {
        proof {
            assert(line.skip(1) =~= chars@.subrange(from + 1, to as int));
        }
        match read_number(chars, from + 1, to, 127) {
            Some(n) => Some(n as i8),
            None => None,
        }
    } else if from < to && chars[from] == '-' {
        proof {
            assert(line.skip(1) =~= chars@.subrange(from + 1, to as int));
        }
        match read_number(chars, from + 1, to, 128) {
            Some(n) => Some((0 - n as i16) as i8),
            None => None,
        }
    } else {
        match read_number(chars, from, to, 127) {
            Some(n) => Some(n as i8),
            None => None,
        }
    }
}

/// Reads the value of a card from a line of a deck source.
pub fn parse_card_value(line: &str) -> (value: Option<i8>)
    ensures
        value == card_value(line@),
{
    let chars = chars_of(line);
    proof {
        assert(chars@.subrange(0, chars@.len() as int) =~= line@);
    }
    read_card_value(&chars, 0, chars.len())
}

/// Reads the index of a card of the hand from what a player typed.
pub fn parse_card_index(token: &str) -> (index: Option<usize>)
    ensures
        index == card_index(token@),
{
    let chars = chars_of(token);
    let to: usize = chars.len();
    proof {
        assert(chars@.subrange(0, to as int) =~= token@);
        assert(chars@.subrange(0, to as int).skip(1) =~= chars@.subrange(1, to as int));
    }
    let from: usize = if 0 < to && chars[0] == '+' {
        1
    } else {
        0
    };
    match read_number(&chars, from, to, usize::MAX as u64) {
        Some(n) => Some(n as usize),
        None => None,
    }
}

impl Action {
    /// The action that a token names, if it names one.
    pub fn from_token(token: &str) -> (action: Option<Action>)
        ensures
            action == action_of_token(token@),
    {
        let token = token.to_owned();
        if token == "stand".to_owned() {
            Some(Action::Stand)
        } else if token == "play".to_owned() {
            Some(Action::Play)
        } else if token == "end".to_owned() {
            Some(Action::EndTurn)
        } else {
            None
        }
    }
}

impl Deck {
    /// Reads a deck from its source. The cards come in the order of the
    /// lines, so the card of the last line is drawn first. A source with a
    /// line that writes no card value is turned down as a whole.
    pub fn from_source(source: &str) -> (deck: Result<Deck, GameError>)
        ensures
            deck is Ok == deck_of_source(source@) is Some,
            deck matches Ok(read) ==> deck_of_source(source@) == Some(read@),
            deck matches Err(error) ==> error == GameError::InvalidCardValue,
    {
        let chars = chars_of(source);
        let n: usize = chars.len();
        let mut cards: Vec<Card> = Vec::new();
        let mut pos: usize = 0;
        let ghost mut done: Seq<Seq<char>> = Seq::empty();
        proof {
            assert(chars@.skip(0) =~= chars@);
        }
        while pos < n
            invariant
                pos <= n,
                n == chars@.len(),
                chars@ == source@,
                source_lines(chars@) == done + source_lines(chars@.skip(pos as int)),
                cards@.len() == done.len(),
                forall|i: int|
                    0 <= i < done.len() ==> card_value(#[trigger] done[i]) == Some(cards@[i].value)
                        && cards@[i].special_type is None,
            decreases n - pos,
        {
            let ghost rest = chars@.skip(pos as int);
            let mut end: usize = pos;
            while end < n && chars[end] != '\n'
                invariant
                    pos <= end <= n,
                    n == chars@.len(),
                    forall|k: int| pos <= k < end ==> chars@[k] != '\n',
                decreases n - end,
            {
                end = end + 1;
            }
            let terminated = end < n;
            let stop: usize = if terminated && pos < end && chars[end - 1] == '\r' {
                (end - 1) as usize
            } else {
                end
            };
            let next: usize = if terminated {
                end + 1
            } else {
                n
            };
            proof {
                lemma_line_end_is(rest, end - pos);
                assert(first_line(rest) =~= chars@.subrange(pos as int, stop as int));
                assert(after_first_line(rest) =~= chars@.skip(next as int));
                assert(done + (seq![first_line(rest)] + source_lines(after_first_line(rest)))
                    =~= done.push(first_line(rest)) + source_lines(after_first_line(rest)));
            }
            match read_card_value(&chars, pos, stop) {
                Some(value) => {
                    cards.push(Card::new(value));
                },
                None => {
                    proof {
                        let lines = source_lines(chars@);
                        assert(lines[done.len() as int] == first_line(rest));
                    }
                    return Err(GameError::InvalidCardValue);
                },
            }
            proof {
                done = done.push(first_line(rest));
            }
            pos = next;
        }
        proof {
            assert(chars@.skip(pos as int) =~= Seq::<char>::empty());
            assert(source_lines(chars@) =~= done);
            assert(cards@ =~= deck_of_source(source@)->0);
        }
        Ok(Deck { cards })
    }
}

} // verus!
