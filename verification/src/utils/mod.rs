//! Helpers shared by the tasks: command lines, paths for display, and the
//! coloured cards that announce each stage.
pub mod cmd;

pub use self::cmd::{CommandSpec, CommandSpecView, format_arg, format_cmd, shown_arg, shown_command, spaced};
pub use crate::paths::rel;

use owo_colors::OwoColorize;
use vstd::prelude::*;

use crate::text::{decimal, push_char, push_decimal};

verus! {

/// The escape that sets a 24-bit foreground colour, as owo-colors writes it.
pub open spec fn fg_rgb(r: u8, g: u8, b: u8) -> Seq<char> {
    seq!['\u{1b}', '[', '3', '8', ';', '2', ';'] + decimal(r as nat) + seq![';'] + decimal(
        g as nat,
    ) + seq![';'] + decimal(b as nat) + seq!['m']
}

/// The escape that restores the default foreground colour.
pub open spec fn fg_default() -> Seq<char> {
    seq!['\u{1b}', '[', '3', '9', 'm']
}

/// The escape that turns bold on.
pub open spec fn bold_on() -> Seq<char> {
    seq!['\u{1b}', '[', '1', 'm']
}

/// The escape that resets all attributes.
pub open spec fn reset_all() -> Seq<char> {
    seq!['\u{1b}', '[', '0', 'm']
}

/// `text` in the colour `(r, g, b)`.
pub open spec fn colored(text: Seq<char>, r: u8, g: u8, b: u8) -> Seq<char> {
    fg_rgb(r, g, b) + text + fg_default()
}

/// `text` in bold and in the colour `(r, g, b)`.
pub open spec fn bold_colored(text: Seq<char>, r: u8, g: u8, b: u8) -> Seq<char> {
    fg_rgb(r, g, b) + bold_on() + text + reset_all() + fg_default()
}

/// Trusted wrapper around owo-colors' `truecolor`, displayed: the text between
/// the escape that sets the colour and the one that restores the default.
#[verifier::external_body]
pub(crate) fn paint(text: &str, r: u8, g: u8, b: u8) -> (s: String)
    ensures
        s@ == colored(text@, r, g, b),
{
    format!("{}", text.truecolor(r, g, b))
}

/// Trusted wrapper around owo-colors' `bold` then `truecolor`, displayed: the
/// colour escape, then the text between the bold escape and the reset, then the
/// escape that restores the default colour.
#[verifier::external_body]
pub(crate) fn paint_bold(text: &str, r: u8, g: u8, b: u8) -> (s: String)
    ensures
        s@ == bold_colored(text@, r, g, b),
{
    format!("{}", text.bold().truecolor(r, g, b))
}

/// `step/total` in decimal.
pub open spec fn step_count(step: usize, total: usize) -> Seq<char> {
    decimal(step as nat) + seq!['/'] + decimal(total as nat)
}

/// `step/total` in decimal.
pub fn format_step_count(step: usize, total: usize) -> (s: String)
    ensures
        s@ == step_count(step, total),
{
    let mut s = String::new();
    push_decimal(&mut s, step);
    push_char(&mut s, '/');
    push_decimal(&mut s, total);
    s
}

/// A card `label count :: title`, each part painted.
pub open spec fn card(label: Seq<char>, count: Seq<char>, title: Seq<char>) -> Seq<char> {
    label + seq![' '] + count + seq![' ', ':', ':', ' '] + title
}

/// Joins the painted parts of a card.
pub fn join_card(label: String, count: String, title: String) -> (s: String)
    ensures
        s@ == card(label@, count@, title@),
{
    let mut s = label;
    push_char(&mut s, ' ');
    s.append(count.as_str());
    push_char(&mut s, ' ');
    push_char(&mut s, ':');
    push_char(&mut s, ':');
    push_char(&mut s, ' ');
    s.append(title.as_str());
    s
}

/// The card that announces a build stage: `BUILD step/total :: title`.
pub fn stage_card(step: usize, total: usize, title: &str) -> (s: String)
    ensures
        s@ == card(
            bold_colored("BUILD"@, 255, 190, 120),
            colored(step_count(step, total), 255, 215, 168),
            bold_colored(title@, 255, 245, 232),
        ),
{
    let build = paint_bold("BUILD", 255, 190, 120);
    let title = paint_bold(title, 255, 245, 232);
    let count = format_step_count(step, total);
    let count = paint(count.as_str(), 255, 215, 168);
    join_card(build, count, title)
}

/// The card that announces the end of a task: `[DONE]`.
pub fn done_card() -> (s: String)
    ensures
        s@ == bold_colored("[DONE]"@, 120, 236, 160),
{
    paint_bold("[DONE]", 120, 236, 160)
}

} // verus!
