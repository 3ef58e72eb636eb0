//! The vote coordinator: from vote commands and reactions to proposals,
//! counted votes and moderation.

use crate::notice::Notice;
use crate::tally::vote_step;
use crate::tally::PendingProposal;
use crate::tally::TallyModel;
use crate::tally::VoteOutcome;
use crate::tally::VoteTallyStore;
use crate::tally::bind_step;
use crate::tally::expire_step;
use crate::text::count_words;
use crate::text::same_text;
use crate::text::word_count;
use vstd::prelude::*;

verus! {

/// For how long a user is restricted when a vote against them passes.
pub const TIMEOUT_SECONDS: u64 = 60;

/// The reaction that counts as an affirmative vote.
pub open spec fn vote_emoji() -> Seq<char> {
    "\u{2705}"@
}

/// What to do about a vote command.
#[derive(Clone, Copy, Debug, PartialEq, Eq)]
pub enum InitDecision {
    /// The command names nobody: answer with `Notice::Usage`, change nothing.
    UsageError,
    /// Post `Notice::Announcement` for the target, and bind `pending` to the
    /// identity of the posted message. If the post fails, drop `pending`.
    Announce { pending: PendingProposal },
}

/// What to do about a reaction.
#[derive(Clone, Copy, Debug, PartialEq, Eq)]
pub enum VoteDecision {
    /// Another emoji, or the coordinator's own reaction: no vote.
    NotAVote,
    /// The message is no open proposal: nothing to do.
    UnknownProposal,
    /// This user's vote on this proposal was counted before: nothing to do.
    AlreadyCounted,
    /// The vote was counted; the proposal stays open with this many votes.
    Counted(u64),
    /// The proposal is resolved: restrict `target` in `guild` for `seconds`.
    Moderate { guild: u64, target: u64, seconds: u64 },
    /// The proposal is resolved, but the reaction came from outside any
    /// guild, so there is nowhere to restrict `target`.
    NoGuild { target: u64 },
}

/// The moderation action against `target_user_id` failed after the vote had
/// passed. The proposal stays resolved.
#[derive(Clone, Copy, Debug, PartialEq, Eq)]
pub struct ActionError {
    pub target_user_id: u64,
}

/// What a coordinator is, mathematically: its tally and, once the dispatcher
/// has said so, the identity under which the coordinator itself posts.
#[verifier::ext_equal]
pub struct CoordinatorModel {
    pub tally: TallyModel,
    pub bot_identity: Option<u64>,
}

/// The decision on a vote command with the text `text` that mentions the
/// users `mentions`, received at `at`: it needs a second word and a mention,
/// and targets the first user mentioned.
pub open spec fn init_decision(text: Seq<char>, mentions: Seq<u64>, at: i64) -> InitDecision {
    if word_count(text) < 2 || mentions.len() == 0 {
        InitDecision::UsageError
    } else {
        InitDecision::Announce {
            pending: PendingProposal { target_user_id: mentions[0], created_at: at },
        }
    }
}

/// Whether a reaction with `emoji` by `user` is a vote: it is the vote emoji,
/// and it is not the coordinator reacting to its own announcement.
pub open spec fn is_vote(m: CoordinatorModel, emoji: Seq<char>, user: u64) -> bool {
    emoji == vote_emoji() && m.bot_identity != Some(user)
}

/// The coordinator after a reaction, and the decision on it.
pub open spec fn reaction_step(
    m: CoordinatorModel,
    message_id: u64,
    guild: Option<u64>,
    emoji: Seq<char>,
    user: u64,
) -> (CoordinatorModel, VoteDecision) {
    if !is_vote(m, emoji, user) {
        (m, VoteDecision::NotAVote)
    } else {
        let (tally, outcome) = vote_step(m.tally, message_id, user);
        let decision = match outcome {
            VoteOutcome::Unknown => VoteDecision::UnknownProposal,
            VoteOutcome::AlreadyCounted => VoteDecision::AlreadyCounted,
            VoteOutcome::Counted(count) => VoteDecision::Counted(count),
            VoteOutcome::ThresholdReached => {
                let target = m.tally.open[message_id].target_user_id;
                match guild {
                    Some(guild) => VoteDecision::Moderate {
                        guild,
                        target,
                        seconds: TIMEOUT_SECONDS,
                    },
                    None => VoteDecision::NoGuild { target },
                }
            },
        };
        (CoordinatorModel { tally, ..m }, decision)
    }
}

/// Decides what follows from commands and reactions. The dispatcher does the
/// posting and the moderating, and reports back what came of it.
pub struct VoteCoordinator {
    store: VoteTallyStore,
    bot_identity: Option<u64>,
}

impl View for VoteCoordinator {
    type V = CoordinatorModel;

    closed spec fn view(&self) -> CoordinatorModel {
        CoordinatorModel { tally: self.store@, bot_identity: self.bot_identity }
    }
}

impl VoteCoordinator {
    /// A coordinator with no open proposal, which resolves a proposal at
    /// `threshold` distinct votes and does not know its own identity yet.
    pub fn new(threshold: u64) -> (coordinator: VoteCoordinator)
        ensures
            coordinator@ == (CoordinatorModel {
                tally: TallyModel::empty(threshold),
                bot_identity: None,
            }),
            coordinator@.tally.wf(),
    {
        VoteCoordinator { store: VoteTallyStore::new(threshold), bot_identity: None }
    }

    /// The tally of the open proposals.
    pub fn store(&self) -> (store: &VoteTallyStore)
        ensures
            store@ == self@.tally,
    {
        &self.store
    }

    /// The dispatcher is connected and posts as `bot_identity`.
    pub fn on_ready(&mut self, bot_identity: u64)
        ensures
            final(self)@ == (CoordinatorModel {
                bot_identity: Some(bot_identity),
                ..old(self)@
            }),
    {
        self.bot_identity = Some(bot_identity);
    }

    /// A vote command arrived at `at`, with the text `text`, mentioning the
    /// users `mentions`. Nothing is stored until the announcement is posted.
    pub fn votekick_init(&self, text: &str, mentions: &Vec<u64>, at: i64) -> (decision:
        InitDecision)
        ensures
            decision == init_decision(text@, mentions@, at),
    {
        if count_words(text) < 2 || mentions.len() == 0 {
            InitDecision::UsageError
        } else {
            InitDecision::Announce { pending: self.store.open(mentions[0], at) }
        }
    }

    /// The announcement for `pending` was posted as the message
    /// `message_id`: the proposal is open from now on.
    pub fn announcement_posted(&mut self, pending: PendingProposal, message_id: u64)
        ensures
            final(self)@ == (CoordinatorModel {
                tally: bind_step(
                    old(self)@.tally,
                    message_id,
                    pending.target_user_id,
                    pending.created_at,
                ),
                ..old(self)@
            }),
            final(self)@.tally.wf(),
    {
        self.store.bind(pending, message_id);
    }

    /// The proposal announced as `message_id` has run out of time: it leaves
    /// the open set and no action follows. Returns whether it was open.
    pub fn expire(&mut self, message_id: u64) -> (was_open: bool)
        ensures
            final(self)@ == (CoordinatorModel {
                tally: expire_step(old(self)@.tally, message_id),
                ..old(self)@
            }),
            was_open == old(self)@.tally.open.contains_key(message_id),
            final(self)@.tally.wf(),
    {
        self.store.expire(message_id)
    }

    /// `user` added the reaction `emoji` to the message `message_id`, in
    /// `guild` if in any.
    pub fn votekick_vote(
        &mut self,
        message_id: u64,
        guild: Option<u64>,
        emoji: &str,
        user: u64,
    ) -> (decision: VoteDecision)
        ensures
            (final(self)@, decision) == reaction_step(old(self)@, message_id, guild, emoji@, user),
            old(self)@.tally.wf() ==> final(self)@.tally.wf(),
    {
        let own = match self.bot_identity {
            Some(id) => id == user,
            None => false,
        };
        if own || !same_text(emoji, "\u{2705}") {
            return VoteDecision::NotAVote;
        }
        let proposal = self.store.proposal(message_id);
        match self.store.record_vote(message_id, user) {
            VoteOutcome::Unknown => VoteDecision::UnknownProposal,
            VoteOutcome::AlreadyCounted => VoteDecision::AlreadyCounted,
            VoteOutcome::Counted(count) => VoteDecision::Counted(count),
            VoteOutcome::ThresholdReached => {
                let target = proposal.unwrap().target_user_id;
                match guild {
                    Some(guild) => VoteDecision::Moderate {
                        guild,
                        target,
                        seconds: TIMEOUT_SECONDS,
                    },
                    None => VoteDecision::NoGuild { target },
                }
            },
        }
    }

    /// The dispatcher tried to restrict `target` and says whether that
    /// worked: either the confirmation to post, or the error to report.
    pub fn moderation_done(target: u64, applied: bool) -> (result: Result<Notice, ActionError>)
        ensures
            result == (if applied {
                Ok::<Notice, ActionError>(Notice::Muted { target })
            } else {
                Err::<Notice, ActionError>(ActionError { target_user_id: target })
            }),
    {
        if applied {
            Ok(Notice::Muted { target })
        } else {
            Err(ActionError { target_user_id: target })
        }
    }
}

impl Default for VoteCoordinator {
    /// A coordinator that resolves a proposal on its first vote.
    fn default() -> (coordinator: VoteCoordinator)
        ensures
            coordinator@ == (CoordinatorModel {
                tally: TallyModel::empty(1),
                bot_identity: None,
            }),
            coordinator@.tally.wf(),
    {
        VoteCoordinator::new(1)
    }
}

} // verus!
