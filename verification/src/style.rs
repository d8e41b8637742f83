//! Terminal styling of what the engine writes for a terminal.

use vstd::prelude::*;
use crossterm::style::Stylize;

verus! {

/// `text` stands in `styled` as one unbroken run.
pub open spec fn encloses(styled: Seq<char>, text: Seq<char>) -> bool {
    exists|start: int|
        0 <= start && start + text.len() <= styled.len() && #[trigger] styled.subrange(
            start,
            start + text.len(),
        ) == text
}

/// `styled` is what a terminal style makes of `text`: the text as it is,
/// with whatever switches the style on before it and whatever switches it
/// off after it, or nothing at all.
pub open spec fn shows(styled: Seq<char>, text: Seq<char>) -> bool {
    styled.len() == 0 || encloses(styled, text)
}

/// Styles `text` yellow and italic with the methods `yellow` and `italic` of
/// `crossterm::style::Stylize` and renders it through the `Display` impl of
/// `crossterm::style::StyledContent`. That impl writes the escape sequences
/// that switch the style on, then the content as it is, then the sequence
/// that resets the style. Which sequences are written depends on the
/// process: colours can be switched off from outside, and on a console that
/// takes no escape sequences nothing is written at all. So the contract
/// states only that the result is empty or holds the text unbroken.
#[verifier::external_body]
pub(crate) fn yellow_italic(text: &str) -> (styled: String)
    ensures
        shows(styled@, text@),
{
    text.yellow().italic().to_string()
}

/// Colours `text` dark green with `crossterm::style::Stylize::dark_green`
/// and renders it through the `Display` impl of
/// `crossterm::style::StyledContent`, which writes the text between the
/// sequence that sets the colour and the one that resets it, or, on a
/// console that takes no escape sequences, nothing.
#[verifier::external_body]
pub(crate) fn dark_green(text: &str) -> (styled: String)
    ensures
        shows(styled@, text@),
{
    text.dark_green().to_string()
}

/// Colours `text` dark red with `crossterm::style::Stylize::dark_red`;
/// rendered as in [`dark_green`], with the same claim.
#[verifier::external_body]
pub(crate) fn dark_red(text: &str) -> (styled: String)
    ensures
        shows(styled@, text@),
{
    text.dark_red().to_string()
}

/// Colours `text` blue with `crossterm::style::Stylize::blue`; rendered as
/// in [`dark_green`], with the same claim.
#[verifier::external_body]
pub(crate) fn blue(text: &str) -> (styled: String)
    ensures
        shows(styled@, text@),
{
    text.blue().to_string()
}

/// Colours `text` green with `crossterm::style::Stylize::green`; rendered
/// as in [`dark_green`], with the same claim.
#[verifier::external_body]
pub(crate) fn green(text: &str) -> (styled: String)
    ensures
        shows(styled@, text@),
{
    text.green().to_string()
}

/// Colours `text` red with `crossterm::style::Stylize::red`; rendered as in
/// [`dark_green`], with the same claim.
#[verifier::external_body]
pub(crate) fn red(text: &str) -> (styled: String)
    ensures
        shows(styled@, text@),
{
    text.red().to_string()
}

} // verus!
