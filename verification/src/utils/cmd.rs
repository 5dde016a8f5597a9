//! A command to run, as plain values, and how it is shown in the log.
use vstd::prelude::*;

use crate::paths::{is_absolute, path_is_absolute, path_strip_prefix, strip_path_prefix};
use crate::text::{copy_str, joined, push_char, string_views};

verus! {

/// A program and its arguments.
#[derive(Clone, Debug)]
pub struct CommandSpec {
    pub program: String,
    pub args: Vec<String>,
}

/// The view of a command: the program and its arguments.
pub struct CommandSpecView {
    pub program: Seq<char>,
    pub args: Seq<Seq<char>>,
}

impl View for CommandSpec {
    type V = CommandSpecView;

    open spec fn view(&self) -> CommandSpecView {
        CommandSpecView { program: self.program@, args: string_views(self.args@) }
    }
}

impl CommandSpec {
    /// The program with no arguments yet.
    pub fn new(program: String) -> (c: CommandSpec)
        ensures
            c@.program == program@,
            c@.args == Seq::<Seq<char>>::empty(),
    {
        let c = CommandSpec { program, args: Vec::new() };
        assert(c@.args =~= Seq::<Seq<char>>::empty());
        c
    }

    /// Adds one argument.
    pub fn arg(&mut self, a: String)
        ensures
            final(self)@.program == old(self)@.program,
            final(self)@.args == old(self)@.args.push(a@),
    {
        let ghost before = self.args@;
        self.args.push(a);
        assert(string_views(self.args@) =~= string_views(before).push(a@));
    }

    /// Adds one argument given as a string slice.
    pub fn arg_str(&mut self, a: &str)
        ensures
            final(self)@.program == old(self)@.program,
            final(self)@.args == old(self)@.args.push(a@),
    {
        self.arg(copy_str(a));
    }
}

/// An argument as the log shows it: an absolute path under `cwd` is shown
/// relative to it, anything else as it is.
pub open spec fn shown_arg(value: Seq<char>, cwd: Seq<char>) -> Seq<char> {
    if !is_absolute(value) {
        value
    } else {
        match path_strip_prefix(value, cwd) {
            Some(r) => r,
            None => value,
        }
    }
}

/// Words joined by single spaces.
pub open spec fn spaced(words: Seq<Seq<char>>) -> Seq<char> {
    joined(words, ' ')
}

/// A command as the log shows it: program and arguments, each shown as
/// `shown_arg` shows it, joined by single spaces.
pub open spec fn shown_command(cmd: CommandSpecView, cwd: Seq<char>) -> Seq<char> {
    spaced(
        seq![shown_arg(cmd.program, cwd)] + cmd.args.map_values(|a: Seq<char>| shown_arg(a, cwd)),
    )
}

/// An argument as the log shows it.
pub fn format_arg(value: &str, cwd: &str) -> (res: String)
    ensures
        res@ == shown_arg(value@, cwd@),
{
    if !path_is_absolute(value) {
        return copy_str(value);
    }
    match strip_path_prefix(value, cwd) {
        Some(r) => r,
        None => copy_str(value),
    }
}

/// A command as the log shows it.
pub fn format_cmd(cmd: &CommandSpec, cwd: &str) -> (res: String)
    ensures
        res@ == shown_command(cmd@, cwd@),
{
    let ghost words = seq![shown_arg(cmd@.program, cwd@)] + cmd@.args.map_values(
        |a: Seq<char>| shown_arg(a, cwd@),
    );
    let mut out = format_arg(cmd.program.as_str(), cwd);
    assert(words.take(1) =~= seq![words[0]]);
    let n = cmd.args.len();
    let mut i: usize = 0;
    while i < n
        invariant
            n == cmd.args@.len(),
            n == cmd@.args.len(),
            i <= n,
            words.len() == n + 1,
            out@ == spaced(words.take(i + 1)),
            words == seq![shown_arg(cmd@.program, cwd@)] + cmd@.args.map_values(
                |a: Seq<char>| shown_arg(a, cwd@),
            ),
        decreases n - i,
    {
        let a = format_arg(cmd.args[i].as_str(), cwd);
        assert(cmd@.args[i as int] == cmd.args@[i as int]@);
        assert(words[i + 1] == a@);
        assert(words.take(i + 2).drop_last() =~= words.take(i + 1));
        push_char(&mut out, ' ');
        out.append(a.as_str());
        i = i + 1;
    }
    assert(words.take(n + 1) =~= words);
    out
}

} // verus!
