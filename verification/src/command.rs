//! The commands that members type into a conversation.

use crate::text::{
    chars_of, is_space, is_space_char, parse_unsigned, same_as_str, string_of, trim, trimmed,
    unsigned_of,
};
use vstd::prelude::*;

verus! {

/// A command read from the body of a message.
#[derive(Clone, Debug, PartialEq, Eq)]
pub enum ControlCommand {
    /// `!all`: replay the history of this conversation.
    TriggerBackfill,
    /// `!start`: replay the history, where the mapping allows replays on demand.
    AutoBackfill,
    /// `!thread2channel <destination_id> [all]`: map this conversation to a destination.
    Bind { destination_id: u64, backfill_on_demand: bool },
    /// `!set_webhook <url>`: impersonate the authors of this conversation through `url`.
    SetTransport { endpoint: String },
}

/// What a command says.
pub enum CommandView {
    TriggerBackfill,
    AutoBackfill,
    Bind { destination_id: u64, backfill_on_demand: bool },
    SetTransport { endpoint: Seq<char> },
}

impl View for ControlCommand {
    type V = CommandView;

    open spec fn view(&self) -> CommandView {
        match *self {
            ControlCommand::TriggerBackfill => CommandView::TriggerBackfill,
            ControlCommand::AutoBackfill => CommandView::AutoBackfill,
            ControlCommand::Bind { destination_id, backfill_on_demand } => CommandView::Bind {
                destination_id,
                backfill_on_demand,
            },
            ControlCommand::SetTransport { endpoint } => CommandView::SetTransport {
                endpoint: endpoint@,
            },
        }
    }
}

/// What an optional command says.
pub open spec fn opt_command(c: Option<ControlCommand>) -> Option<CommandView> {
    match c {
        Some(c) => Some(c@),
        None => None,
    }
}

/// How many characters stand before the first white space of `s`.
pub open spec fn word_len(s: Seq<char>) -> nat
    decreases s.len(),
{
    if s.len() == 0 || is_space(s[0]) {
        0
    } else {
        1 + word_len(s.drop_first())
    }
}

/// The first word of `s`: what stands before the first white space.
pub open spec fn first_word(s: Seq<char>) -> Seq<char> {
    s.take(word_len(s) as int)
}

/// What follows the first word of `s`, trimmed.
pub open spec fn after_first_word(s: Seq<char>) -> Seq<char> {
    trimmed(s.skip(word_len(s) as int))
}

/// The binding that the arguments of `!thread2channel` ask for: a
/// destination, and after it nothing or the word `all`.
pub open spec fn bind_of(arguments: Seq<char>) -> Option<CommandView> {
    let tail = after_first_word(arguments);
    match unsigned_of(first_word(arguments)) {
        Some(destination_id) => if tail.len() == 0 {
            Some(CommandView::Bind { destination_id, backfill_on_demand: false })
        } else if tail == "all"@ {
            Some(CommandView::Bind { destination_id, backfill_on_demand: true })
        } else {
            None
        },
        None => None,
    }
}

/// The command that a message body is, if it is one.
///
/// White space around the body does not count. `!all` and `!start` stand
/// alone. `!thread2channel` and `!set_webhook` are followed by white space and
/// their arguments; the argument of `!set_webhook` is a single word.
pub open spec fn command_of(body: Seq<char>) -> Option<CommandView> {
    let line = trimmed(body);
    let keyword = first_word(line);
    let arguments = after_first_word(line);
    if line == "!all"@ {
        Some(CommandView::TriggerBackfill)
    } else if line == "!start"@ {
        Some(CommandView::AutoBackfill)
    } else if keyword == "!thread2channel"@ {
        bind_of(arguments)
    } else if keyword == "!set_webhook"@ {
        if arguments.len() > 0 && word_len(arguments) == arguments.len() {
            Some(CommandView::SetTransport { endpoint: arguments })
        } else {
            None
        }
    } else {
        None
    }
}

/// Where the first word of `chars` ends.
fn word_end(chars: &[char]) -> (end: usize)
    ensures
        end == word_len(chars@),
        end <= chars.len(),
{
    let mut end: usize = 0;
    assert(chars@.skip(0) == chars@);
    while end < chars.len() && !is_space_char(chars[end])
        invariant
            end <= chars.len(),
            word_len(chars@) == end + word_len(chars@.skip(end as int)),
        decreases chars.len() - end,
    {
        assert(chars@.skip(end as int).drop_first() == chars@.skip(end as int + 1));
        end = end + 1;
    }
    end
}

fn parse_bind(arguments: &[char]) -> (command: Option<ControlCommand>)
    ensures
        opt_command(command) == bind_of(arguments@),
{
    let end: usize = word_end(arguments);
    let word = vstd::slice::slice_subrange(arguments, 0, end);
    let tail = trim(vstd::slice::slice_subrange(arguments, end, arguments.len()));
    match parse_unsigned(word) {
        Some(destination_id) => {
            if tail.len() == 0 {
                Some(ControlCommand::Bind { destination_id, backfill_on_demand: false })
            } else if same_as_str(tail, "all") {
                Some(ControlCommand::Bind { destination_id, backfill_on_demand: true })
            } else {
                None
            }
        },
        None => None,
    }
}

/// Reads a message body as a command.
pub fn parse_command(body: &str) -> (command: Option<ControlCommand>)
    ensures
        opt_command(command) == command_of(body@),
{
    let chars = chars_of(body);
    let line = trim(chars.as_slice());
    if same_as_str(line, "!all") {
        return Some(ControlCommand::TriggerBackfill);
    }
    if same_as_str(line, "!start") {
        return Some(ControlCommand::AutoBackfill);
    }
    let end: usize = word_end(line);
    let keyword = vstd::slice::slice_subrange(line, 0, end);
    let arguments = trim(vstd::slice::slice_subrange(line, end, line.len()));
    if same_as_str(keyword, "!thread2channel") {
        parse_bind(arguments)
    } else if same_as_str(keyword, "!set_webhook") {
        if arguments.len() > 0 && word_end(arguments) == arguments.len() {
            Some(ControlCommand::SetTransport { endpoint: string_of(arguments) })
        } else {
            None
        }
    } else {
        None
    }
}

} // verus!
