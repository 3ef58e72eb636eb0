//! The commands that are answered with a fixed text, and where a message
//! goes.

use crate::decimal::decimal;
use crate::decimal::format_u64;
use crate::ledger::Ledger;
use crate::ledger::UserPresenceRecord;
use crate::notice::user_mention;
use crate::text::same_text;
use crate::text::starts_with;
use vstd::prelude::*;
use vstd::string::StringExecFns;

verus! {

/// The word that opens a vote.
pub open spec fn vote_command() -> Seq<char> {
    "!timeout"@
}

/// One line of the statistics: a user and their accumulated seconds.
pub open spec fn stats_line(record: UserPresenceRecord) -> Seq<char> {
    user_mention(record.user_id) + ": "@ + decimal(record.accumulated_seconds as nat) + "s\n"@
}

/// The lines of the statistics, one per record, in the records' order.
pub open spec fn stats_lines(records: Seq<UserPresenceRecord>) -> Seq<char>
    decreases records.len(),
{
    if records.len() == 0 {
        Seq::empty()
    } else {
        stats_lines(records.drop_last()) + stats_line(records.last())
    }
}

/// The answer to `!users`.
pub open spec fn users_stats(records: Seq<UserPresenceRecord>) -> Seq<char> {
    "User time spent in voice channels:\n"@ + stats_lines(records)
}

/// The answer to `!help`: the other commands, one per line.
pub open spec fn help_text() -> Seq<char> {
    "Other commands:\n"@ + "- "@ + "!w2g"@ + "\n"@ + "- "@ + "!test"@ + "\n"@ + "- "@ + "!users"@
        + "\n"@
}

/// The commands that are answered with a fixed text, and their answers.
pub open spec fn command_table(records: Seq<UserPresenceRecord>) -> Seq<(Seq<char>, Seq<char>)> {
    seq![
        ("!w2g"@, "https://w2g.tv/?r=lg383dt10ofhepndm5"@),
        ("!test"@, "This is a test"@),
        ("!users"@, users_stats(records)),
        ("!help"@, help_text()),
    ]
}

/// Where a message goes.
#[derive(Clone, Copy, Debug, PartialEq, Eq)]
pub enum MessageRoute {
    /// The message is the command at `index` of the table: post its answer.
    Reply { index: usize },
    /// The message is a vote command: hand it to the vote coordinator.
    VoteCommand,
    /// The message is nothing to the engine.
    Ignore,
}

fn users_stats_text(records: &Vec<UserPresenceRecord>) -> (text: String)
    ensures
        text@ == users_stats(records@),
{
    let mut text = String::from_str("User time spent in voice channels:\n");
    let mut i: usize = 0;
    while i < records.len()
        invariant
            i <= records.len(),
            text@ == users_stats(records@.take(i as int)),
        decreases records.len() - i,
    {
        let ghost before = text@;
        text.append("<@");
        text.append(format_u64(records[i].user_id).as_str());
        text.append(">");
        text.append(": ");
        text.append(format_u64(records[i].accumulated_seconds).as_str());
        text.append("s\n");
        proof {
            let next = records@.take(i + 1);
            assert(next.drop_last() =~= records@.take(i as int));
            assert(next.last() == records@[i as int]);
            assert(text@ =~= before + stats_line(records@[i as int]));
            assert(text@ =~= users_stats(next));
        }
        i += 1;
    }
    proof {
        assert(records@.take(records.len() as int) =~= records@);
    }
    text
}

/// The table of fixed-text commands, given the ledger whose statistics
/// `!users` reports.
pub fn get_commands(users: &Ledger) -> (commands: Vec<(String, String)>)
    ensures
        commands.deep_view() == command_table(users.records()),
{
    let records = users.entries();
    let mut help = String::from_str("Other commands:\n");
    help.append("- ");
    help.append("!w2g");
    help.append("\n");
    help.append("- ");
    help.append("!test");
    help.append("\n");
    help.append("- ");
    help.append("!users");
    help.append("\n");
    let mut commands: Vec<(String, String)> = Vec::new();
    commands.push(
        (String::from_str("!w2g"), String::from_str("https://w2g.tv/?r=lg383dt10ofhepndm5")),
    );
    commands.push((String::from_str("!test"), String::from_str("This is a test")));
    commands.push((String::from_str("!users"), users_stats_text(&records)));
    commands.push((String::from_str("!help"), help));
    proof {
        assert(commands@[3].1@ =~= help_text());
        assert(commands.deep_view() =~= command_table(users.records()));
    }
    commands
}

/// Routes a message with the text `text`: to the first command of the table
/// that it names, else to the vote coordinator if it begins with the vote
/// command, else nowhere.
pub fn route_message(commands: &Vec<(String, String)>, text: &str) -> (route: MessageRoute)
    ensures
        match route {
            MessageRoute::Reply { index } => {
                &&& index < commands.len()
                &&& commands@[index as int].0@ == text@
                &&& forall|k: int| 0 <= k < index ==> commands@[k].0@ != text@
            },
            MessageRoute::VoteCommand => {
                &&& forall|k: int| 0 <= k < commands.len() ==> commands@[k].0@ != text@
                &&& vote_command().is_prefix_of(text@)
            },
            MessageRoute::Ignore => {
                &&& forall|k: int| 0 <= k < commands.len() ==> commands@[k].0@ != text@
                &&& !vote_command().is_prefix_of(text@)
            },
        },
{
    let mut i: usize = 0;
    while i < commands.len()
        invariant
            i <= commands.len(),
            forall|k: int| 0 <= k < i ==> commands@[k].0@ != text@,
        decreases commands.len() - i,
    {
        if same_text(commands[i].0.as_str(), text) {
            return MessageRoute::Reply { index: i };
        }
        i += 1;
    }
    if starts_with(text, "!timeout") {
        MessageRoute::VoteCommand
    } else {
        MessageRoute::Ignore
    }
}

} // verus!
