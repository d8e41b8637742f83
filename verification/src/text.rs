//! Writing numbers and lists as text.

use vstd::prelude::*;
use vstd::string::*;

verus! {

/// The character of a decimal digit.
pub open spec fn digit_char(digit: nat) -> char {
    (digit + '0' as nat) as char
}

/// A number in decimal, with no more digits than it needs.
pub open spec fn number_text(n: nat) -> Seq<char>
    decreases n,
{
    if n < 10 {
        seq![digit_char(n)]
    } else {
        number_text(n / 10).push(digit_char(n % 10))
    }
}

/// An integer in decimal, with a minus sign before it if it is negative.
pub open spec fn integer_text(value: int) -> Seq<char> {
    if value < 0 {
        seq!['-'] + number_text((-value) as nat)
    } else {
        number_text(value as nat)
    }
}

/// The parts of a list, with a comma and a space between one and the next.
pub open spec fn joined(parts: Seq<Seq<char>>) -> Seq<char>
    decreases parts.len(),
{
    if parts.len() == 0 {
        Seq::empty()
    } else if parts.len() == 1 {
        parts[0]
    } else {
        joined(parts.drop_last()) + seq![',', ' '] + parts.last()
    }
}

/// The text of each string of a list.
pub open spec fn texts(parts: Seq<String>) -> Seq<Seq<char>> {
    parts.map_values(|part: String| part@)
}

/// The text of one decimal digit.
fn digit_str(digit: u8) -> (text: &'static str)
    requires
        digit < 10,
    ensures
        text@ == seq![digit_char(digit as nat)],
{
    proof {
        reveal_strlit("0");
        reveal_strlit("1");
        reveal_strlit("2");
        reveal_strlit("3");
        reveal_strlit("4");
        reveal_strlit("5");
        reveal_strlit("6");
        reveal_strlit("7");
        reveal_strlit("8");
        reveal_strlit("9");
    }
    let text = match digit {
        0 => "0",
        1 => "1",
        2 => "2",
        3 => "3",
        4 => "4",
        5 => "5",
        6 => "6",
        7 => "7",
        8 => "8",
        _ => "9",
    };
    proof {
        assert(text@ =~= seq![digit_char(digit as nat)]);
    }
    text
}

/// Writes `n` in decimal at the end of `text`.
fn push_number(text: &mut String, n: u128)
    ensures
        final(text)@ == old(text)@ + number_text(n as nat),
    decreases n,
{
    if n >= 10 {
        push_number(text, n / 10);
    }
    text.append(digit_str((n % 10) as u8));
    proof {
        assert(text@ =~= old(text)@ + number_text(n as nat));
    }
}

/// Writes an integer in decimal.
pub fn integer_string(value: i128) -> (text: String)
    ensures
        text@ == integer_text(value as int),
{
    let mut text = String::new();
    if value < 0 {
        proof {
            reveal_strlit("-");
        }
        text.append("-");
        let magnitude: u128 = (-(value + 1)) as u128 + 1;
        push_number(&mut text, magnitude);
        proof {
            assert(text@ =~= integer_text(value as int));
        }
    } else {
        push_number(&mut text, value as u128);
        proof {
            assert(text@ =~= integer_text(value as int));
        }
    }
    text
}

/// Writes the parts of a list with a comma and a space between one and the
/// next.
pub fn join(parts: &Vec<String>) -> (text: String)
    ensures
        text@ == joined(texts(parts@)),
{
    let mut text = String::new();
    let mut i: usize = 0;
    while i < parts.len()
        invariant
            i <= parts@.len(),
            text@ == joined(texts(parts@).take(i as int)),
        decreases parts@.len() - i,
    {
        proof {
            reveal_strlit(", ");
            assert(texts(parts@).take(i + 1).drop_last() =~= texts(parts@).take(i as int));
            assert(", "@ =~= seq![',', ' ']);
        }
        if i > 0 {
            text.append(", ");
        }
        text.append(parts[i].as_str());
        proof {
            assert(text@ =~= joined(texts(parts@).take(i + 1)));
        }
        i = i + 1;
    }
    proof {
        assert(texts(parts@).take(i as int) =~= texts(parts@));
    }
    text
}

} // verus!
