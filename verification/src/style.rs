//! Coloured text for messages to the user.

use vstd::prelude::*;
use vstd::string::StringExecFns;

verus! {

/// The colours that messages use.
#[derive(Clone, Copy, PartialEq, Eq, Debug, Structural)]
pub enum Tint {
    Red,
    DarkGray,
    LightGray,
}

/// The number of a foreground colour in an SGR sequence.
pub open spec fn tint_code(tint: Tint) -> Seq<char> {
    match tint {
        Tint::Red => "31"@,
        Tint::DarkGray => "90"@,
        Tint::LightGray => "97"@,
    }
}

/// `text` between the SGR sequence that selects the colour, and italics
/// where asked for, and the sequence that resets all attributes.
pub open spec fn painted(tint: Tint, italic: bool, text: Seq<char>) -> Seq<char> {
    let attributes = if italic {
        "3;"@
    } else {
        Seq::empty()
    };
    "\x1b["@ + attributes + tint_code(tint) + "m"@ + text + "\x1b[0m"@
}

/// Calls `nu_ansi_term`: `Color::normal`, `Style::paint` and the painted
/// string's `to_string`. The contract states the escape sequences that the
/// crate writes for a plain foreground colour; they are taken on trust.
#[verifier::external_body]
fn paint_normal(tint: Tint, text: &str) -> (s: String)
    ensures
        s@ == painted(tint, false, text@),
{
    let color = match tint {
        Tint::Red => nu_ansi_term::Color::Red,
        Tint::DarkGray => nu_ansi_term::Color::DarkGray,
        Tint::LightGray => nu_ansi_term::Color::LightGray,
    };
    color.normal().paint(text).to_string()
}

/// Calls `nu_ansi_term`: `Color::italic`, `Style::paint` and the painted
/// string's `to_string`. The contract states the escape sequences that the
/// crate writes for an italic foreground colour; they are taken on trust.
#[verifier::external_body]
fn paint_italic(tint: Tint, text: &str) -> (s: String)
    ensures
        s@ == painted(tint, true, text@),
{
    let color = match tint {
        Tint::Red => nu_ansi_term::Color::Red,
        Tint::DarkGray => nu_ansi_term::Color::DarkGray,
        Tint::LightGray => nu_ansi_term::Color::LightGray,
    };
    color.italic().paint(text).to_string()
}

/// The text of an error as it is shown: in red where highlighting is on,
/// as it is where not.
pub fn render_error(message: &str, highlight: bool) -> (shown: String)
    ensures
        shown@ == if highlight {
            painted(Tint::Red, false, message@)
        } else {
            message@
        },
{
    if highlight {
        paint_normal(Tint::Red, message)
    } else {
        String::from_str(message)
    }
}

/// The colour of notices: light gray on a light theme, dark gray
/// otherwise.
pub open spec fn notice_tint(light_theme: bool) -> Tint {
    if light_theme {
        Tint::LightGray
    } else {
        Tint::DarkGray
    }
}

/// The notice that a session is being compressed.
pub open spec fn compression_notice_spec(light_theme: bool) -> Seq<char> {
    let tint = notice_tint(light_theme);
    "\n📢 "@ + painted(
        tint,
        false,
        "Session compression is being activated because the current tokens exceed `"@,
    ) + painted(tint, true, "compress_threshold"@) + painted(tint, false, "`."@) + "\n"@
}

/// The notice that a session is being compressed, in the colour of the
/// theme.
pub fn compression_notice(light_theme: bool) -> (notice: String)
    ensures
        notice@ == compression_notice_spec(light_theme),
{
    let tint = if light_theme {
        Tint::LightGray
    } else {
        Tint::DarkGray
    };
    let mut notice = String::from_str("\n📢 ");
    let head = paint_normal(
        tint,
        "Session compression is being activated because the current tokens exceed `",
    );
    notice.append(head.as_str());
    let key = paint_italic(tint, "compress_threshold");
    notice.append(key.as_str());
    let tail = paint_normal(tint, "`.");
    notice.append(tail.as_str());
    notice.append("\n");
    notice
}

} // verus!
