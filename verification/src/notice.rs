//! The messages that the engine asks the dispatcher to post.

use crate::decimal::decimal;
use crate::decimal::format_u64;
use vstd::prelude::*;
use vstd::string::StringExecFns;

verus! {

/// What the engine has to say to a channel. The dispatcher posts the text of
/// a notice; the engine never sends anything itself.
#[derive(Clone, Copy, Debug, PartialEq, Eq)]
pub enum Notice {
    /// A vote command named nobody.
    Usage,
    /// A vote on `target` is open; reactions to this message are its votes.
    Announcement { target: u64 },
    /// The vote on `target` passed and the restriction was applied.
    Muted { target: u64 },
    /// `user` entered the voice channel `channel`.
    JoinedVoice { user: u64, channel: u64 },
    /// `user` left voice.
    LeftVoice { user: u64 },
    /// `user` moved from the voice channel `from` to the voice channel `to`.
    SwitchedVoice { user: u64, from: u64, to: u64 },
}

/// `<@id>`: how a message names a user.
pub open spec fn user_mention(id: u64) -> Seq<char> {
    "<@"@ + decimal(id as nat) + ">"@
}

/// `<#id>`: how a message names a channel.
pub open spec fn channel_mention(id: u64) -> Seq<char> {
    "<#"@ + decimal(id as nat) + ">"@
}

/// The text of each notice.
pub open spec fn notice_text(notice: Notice) -> Seq<char> {
    match notice {
        Notice::Usage => "Please add mention user and retry."@,
        Notice::Announcement { target } => "Timeout: "@ + user_mention(target)
            + " for 1 min.\n Please vote with a \u{2705} on this message."@,
        Notice::Muted { target } => user_mention(target) + " has been muted for 1 minute."@,
        Notice::JoinedVoice { user, channel } => "User "@ + user_mention(user)
            + " joined voice channel "@ + channel_mention(channel),
        Notice::LeftVoice { user } => "User "@ + user_mention(user) + " left voice channel"@,
        Notice::SwitchedVoice { user, from, to } => "User "@ + user_mention(user)
            + " switched voice channel from "@ + channel_mention(from) + " to "@ + channel_mention(
            to,
        ),
    }
}

fn append_user(text: &mut String, id: u64)
    ensures
        final(text)@ == old(text)@ + user_mention(id),
{
    text.append("<@");
    text.append(format_u64(id).as_str());
    text.append(">");
    assert(text@ =~= old(text)@ + user_mention(id));
}

fn append_channel(text: &mut String, id: u64)
    ensures
        final(text)@ == old(text)@ + channel_mention(id),
{
    text.append("<#");
    text.append(format_u64(id).as_str());
    text.append(">");
    assert(text@ =~= old(text)@ + channel_mention(id));
}

impl Notice {
    /// Writes the notice out as the message to post.
    pub fn text(&self) -> (text: String)
        ensures
            text@ == notice_text(*self),
    {
        let mut text = String::new();
        match *self {
            Notice::Usage => {
                text.append("Please add mention user and retry.");
            },
            Notice::Announcement { target } => {
                text.append("Timeout: ");
                append_user(&mut text, target);
                text.append(" for 1 min.\n Please vote with a \u{2705} on this message.");
            },
            Notice::Muted { target } => {
                append_user(&mut text, target);
                text.append(" has been muted for 1 minute.");
            },
            Notice::JoinedVoice { user, channel } => {
                text.append("User ");
                append_user(&mut text, user);
                text.append(" joined voice channel ");
                append_channel(&mut text, channel);
            },
            Notice::LeftVoice { user } => {
                text.append("User ");
                append_user(&mut text, user);
                text.append(" left voice channel");
            },
            Notice::SwitchedVoice { user, from, to } => {
                text.append("User ");
                append_user(&mut text, user);
                text.append(" switched voice channel from ");
                append_channel(&mut text, from);
                text.append(" to ");
                append_channel(&mut text, to);
            },
        }
        assert(text@ =~= notice_text(*self));
        text
    }
}

} // verus!
