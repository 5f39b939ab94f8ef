//! The status-bar tip about the setup check, in three lengths: styled text
//! plus its visible width, the command name emphasised.

use vstd::prelude::*;
use vstd::string::StringExecFns;
use crate::text::dec_str;

verus! {

/// One piece of a status line: styled text and its visible width.
pub struct LinePart {
    pub part: String,
    pub len: usize,
}

/// The emphasis colour a tip paints its command in, as the host's palette
/// names it: a 256-colour index or a true-colour triple.
#[derive(Clone, Copy, Debug, PartialEq, Eq, Structural)]
pub enum TipColor {
    Fixed(u8),
    Rgb(u8, u8, u8),
}

/// Bold text on a 256-colour-indexed foreground, as its escape codes spell
/// it: select-graphic-rendition for bold and the indexed colour, the text,
/// then the reset.
pub open spec fn spec_bold_fixed(color: u8, text: Seq<char>) -> Seq<char> {
    "\u{1b}[1;38;5;"@ + dec_str(color as nat) + "m"@ + text + "\u{1b}[0m"@
}

/// Bold text on a true-colour foreground.
pub open spec fn spec_bold_rgb(rr: u8, gg: u8, bb: u8, text: Seq<char>) -> Seq<char> {
    "\u{1b}[1;38;2;"@ + dec_str(rr as nat) + ";"@ + dec_str(gg as nat) + ";"@ + dec_str(
        bb as nat,
    ) + "m"@ + text + "\u{1b}[0m"@
}

/// Bold text on whichever foreground the palette named.
pub open spec fn spec_bold(color: TipColor, text: Seq<char>) -> Seq<char> {
    match color {
        TipColor::Fixed(n) => spec_bold_fixed(n, text),
        TipColor::Rgb(rr, gg, bb) => spec_bold_rgb(rr, gg, bb, text),
    }
}

/// Relies on ansi_term's `Style::paint` and display: an empty style writes
/// no codes before or after the text, so the text alone comes back.
#[verifier::external_body]
fn paint_plain(text: &str) -> (r: String)
    ensures
        r@ == text@,
{
    ansi_term::Style::new().paint(text).to_string()
}

/// Relies on ansi_term's `Style::paint` and display: a bold style with a
/// fixed-palette foreground writes `ESC [ 1 ; 38 ; 5 ; <n> m` before the
/// text and the reset code after it.
#[verifier::external_body]
fn paint_bold_fixed(color: u8, text: &str) -> (r: String)
    ensures
        r@ == spec_bold_fixed(color, text@),
{
    ansi_term::Style::new().fg(ansi_term::Colour::Fixed(color)).bold().paint(text).to_string()
}

/// Relies on ansi_term's `Style::paint` and display: a bold style with a
/// true-colour foreground writes `ESC [ 1 ; 38 ; 2 ; <r> ; <g> ; <b> m`
/// before the text and the reset code after it.
#[verifier::external_body]
fn paint_bold_rgb(rr: u8, gg: u8, bb: u8, text: &str) -> (r: String)
    ensures
        r@ == spec_bold_rgb(rr, gg, bb, text@),
{
    ansi_term::Style::new().fg(ansi_term::Colour::RGB(rr, gg, bb)).bold().paint(text).to_string()
}

/// Bold text on whichever foreground the palette named.
fn paint_bold(color: TipColor, text: &str) -> (r: String)
    ensures
        r@ == spec_bold(color, text@),
{
    match color {
        TipColor::Fixed(n) => paint_bold_fixed(n, text),
        TipColor::Rgb(rr, gg, bb) => paint_bold_rgb(rr, gg, bb, text),
    }
}

/// The full-length tip: plain words around the emphasised command; its
/// visible width counts the words alone, none of the escape codes.
pub fn swarm_setup_check_full(emphasis: TipColor) -> (r: LinePart)
    ensures
        r.part@ == " Tip: "@ + "Having issues with Swarm? Try running "@ + spec_bold(
            emphasis,
            "swarm setup --check"@,
        ),
        r.len == " Tip: "@.len() + "Having issues with Swarm? Try running "@.len()
            + "swarm setup --check"@.len(),
{
    let lead = " Tip: ";
    let words = "Having issues with Swarm? Try running ";
    let command = "swarm setup --check";
    proof {
        reveal_strlit(" Tip: ");
        reveal_strlit("Having issues with Swarm? Try running ");
        reveal_strlit("swarm setup --check");
    }
    let mut part = paint_plain(lead);
    let painted_words = paint_plain(words);
    part.append(painted_words.as_str());
    let painted_command = paint_bold(emphasis, command);
    part.append(painted_command.as_str());
    let len = lead.unicode_len() + words.unicode_len() + command.unicode_len();
    LinePart { part, len }
}

/// The medium-length tip.
pub fn swarm_setup_check_medium(emphasis: TipColor) -> (r: LinePart)
    ensures
        r.part@ == " Tip: "@ + "Run "@ + spec_bold(emphasis, "swarm setup --check"@)
            + " to find issues"@,
        r.len == " Tip: "@.len() + "Run "@.len() + "swarm setup --check"@.len()
            + " to find issues"@.len(),
{
    let lead = " Tip: ";
    let words = "Run ";
    let command = "swarm setup --check";
    let tail = " to find issues";
    proof {
        reveal_strlit(" Tip: ");
        reveal_strlit("Run ");
        reveal_strlit("swarm setup --check");
        reveal_strlit(" to find issues");
    }
    let mut part = paint_plain(lead);
    let painted_words = paint_plain(words);
    part.append(painted_words.as_str());
    let painted_command = paint_bold(emphasis, command);
    part.append(painted_command.as_str());
    let painted_tail = paint_plain(tail);
    part.append(painted_tail.as_str());
    let len = lead.unicode_len() + words.unicode_len() + command.unicode_len()
        + tail.unicode_len();
    LinePart { part, len }
}

/// The short tip.
pub fn swarm_setup_check_short(emphasis: TipColor) -> (r: LinePart)
    ensures
        r.part@ == " Run "@ + spec_bold(emphasis, "swarm setup --check"@) + " to find issues"@,
        r.len == " Run "@.len() + "swarm setup --check"@.len() + " to find issues"@.len(),
{
    let lead = " Run ";
    let command = "swarm setup --check";
    let tail = " to find issues";
    proof {
        reveal_strlit(" Run ");
        reveal_strlit("swarm setup --check");
        reveal_strlit(" to find issues");
    }
    let mut part = paint_plain(lead);
    let painted_command = paint_bold(emphasis, command);
    part.append(painted_command.as_str());
    let painted_tail = paint_plain(tail);
    part.append(painted_tail.as_str());
    let len = lead.unicode_len() + command.unicode_len() + tail.unicode_len();
    LinePart { part, len }
}

} // verus!
