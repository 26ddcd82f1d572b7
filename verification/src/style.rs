//! Terminal styling of text through ANSI SGR escape sequences.
//!
//! The escape sequences are produced by the `owo_colors` crate. Each function
//! here formats one piece of text with one style, and its contract states the
//! bytes that `owo_colors` puts before and after the text. These contracts are
//! taken on trust from that crate's source.

use owo_colors::OwoColorize;
use owo_colors::XtermColors;
use vstd::prelude::*;

use crate::text::decimal;

verus! {

/// `s` between the SGR sequences that switch faint text on and all styles off.
pub open spec fn dimmed_text(s: Seq<char>) -> Seq<char> {
    "\x1b[2m"@ + s + "\x1b[0m"@
}

/// `s` between the SGR sequences for a red and for the default foreground.
pub open spec fn red_text(s: Seq<char>) -> Seq<char> {
    "\x1b[31m"@ + s + "\x1b[39m"@
}

/// `s` between the SGR sequences for a cyan and for the default foreground.
pub open spec fn cyan_text(s: Seq<char>) -> Seq<char> {
    "\x1b[36m"@ + s + "\x1b[39m"@
}

/// `s` between the SGR sequence that selects entry `color` of the xterm
/// 256-colour palette as foreground and the one for the default foreground.
pub open spec fn colored_text(s: Seq<char>, color: u8) -> Seq<char> {
    "\x1b[38;5;"@ + decimal(color as nat) + "m"@ + s + "\x1b[39m"@
}

/// Formats `text.dimmed()` of `owo_colors::OwoColorize` with `{}`.
///
/// Trusted: `DimDisplay` writes `ESC[2m`, the text as it is, then `ESC[0m`.
#[verifier::external_body]
pub(crate) fn dimmed(text: &str) -> (r: String)
    ensures
        r@ == dimmed_text(text@),
{
    format!("{}", text.dimmed())
}

/// Formats `text.red()` of `owo_colors::OwoColorize` with `{}`.
///
/// Trusted: `FgColorDisplay` writes the foreground code of `colors::Red`,
/// `ESC[31m`, the text as it is, then `ESC[39m`.
#[verifier::external_body]
pub(crate) fn red(text: &str) -> (r: String)
    ensures
        r@ == red_text(text@),
{
    format!("{}", text.red())
}

/// Formats `text.cyan()` of `owo_colors::OwoColorize` with `{}`.
///
/// Trusted: `FgColorDisplay` writes the foreground code of `colors::Cyan`,
/// `ESC[36m`, the text as it is, then `ESC[39m`.
#[verifier::external_body]
pub(crate) fn cyan(text: &str) -> (r: String)
    ensures
        r@ == cyan_text(text@),
{
    format!("{}", text.cyan())
}

/// Formats `text.color(c)` of `owo_colors::OwoColorize` with `{}`, where `c`
/// is the `XtermColors` entry with index `color`.
///
/// Trusted: `XtermColors::from(n)` is the entry numbered `n`, for which
/// `FgDynColorDisplay` writes `ESC[38;5;` followed by `n` in decimal and `m`,
/// the text as it is, then `ESC[39m`.
#[verifier::external_body]
pub(crate) fn colored(text: &str, color: u8) -> (r: String)
    ensures
        r@ == colored_text(text@, color),
{
    format!("{}", text.color(XtermColors::from(color)))
}

} // verus!
