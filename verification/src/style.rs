//! Terminal styling, done by the `colored` crate. Whether a styled text is
//! written out with escape sequences around it or as it stands is decided
//! by that crate from the process's surroundings, so what is claimed here
//! holds either way: a text without an escape character of its own comes
//! out in one piece, with whatever styling puts in front of it and behind
//! it, which may be nothing.

use colored::Colorize;
use vstd::prelude::*;

verus! {

/// Whether styling leaves `text` in one piece: it does where the text holds
/// no escape character, and so nothing that ends a styling of its own.
pub open spec fn is_inert(text: Seq<char>) -> bool {
    !text.contains('\u{1b}')
}

/// Whether `shown` is `text` with something in front of it and something
/// behind it, either of which may be nothing.
pub open spec fn frames(shown: Seq<char>, text: Seq<char>) -> bool {
    exists|before: Seq<char>, after: Seq<char>| shown == before + text + after
}

/// `Colorize::green` of `colored`, written out through the crate's
/// `Display` impl: the text as shown in green. Claimed: a text without an
/// escape character comes out in one piece, with or without escape
/// sequences around it.
#[verifier::external_body]
pub(crate) fn in_green(text: &str) -> (shown: String)
    ensures
        is_inert(text@) ==> frames(shown@, text@),
{
    text.green().to_string()
}

/// `Colorize::red` of `colored`, written out through the crate's `Display`
/// impl: the text as shown in red. Claimed: a text without an escape
/// character comes out in one piece, with or without escape sequences
/// around it.
#[verifier::external_body]
pub(crate) fn in_red(text: &str) -> (shown: String)
    ensures
        is_inert(text@) ==> frames(shown@, text@),
{
    text.red().to_string()
}

/// `Colorize::underline` of `colored`, written out through the crate's
/// `Display` impl: the text as shown underlined. Claimed: a text without an
/// escape character comes out in one piece, with or without escape
/// sequences around it.
#[verifier::external_body]
pub(crate) fn underlined(text: &str) -> (shown: String)
    ensures
        is_inert(text@) ==> frames(shown@, text@),
{
    text.underline().to_string()
}

/// `Colorize::dimmed` and, on what it gives, `Colorize::strikethrough` of
/// `colored`, written out through the crate's `Display` impl: the text as
/// shown dimmed and struck through. Claimed: a text without an escape
/// character comes out in one piece, with or without escape sequences
/// around it.
#[verifier::external_body]
pub(crate) fn dimmed_struck(text: &str) -> (shown: String)
    ensures
        is_inert(text@) ==> frames(shown@, text@),
{
    text.dimmed().strikethrough().to_string()
}

/// `Colorize::bold` and, on what it gives, `Colorize::red` of `colored`,
/// written out through the crate's `Display` impl: the text as shown in
/// bold red. Claimed: a text without an escape character comes out in one
/// piece, with or without escape sequences around it.
#[verifier::external_body]
pub(crate) fn in_bold_red(text: &str) -> (shown: String)
    ensures
        is_inert(text@) ==> frames(shown@, text@),
{
    text.bold().red().to_string()
}

} // verus!
