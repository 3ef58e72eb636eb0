//! The presence tracker: from changes of voice presence to ledger updates
//! and notices.

use crate::ledger::fits;
use crate::ledger::ledger_step;
use crate::ledger::records_map;
use crate::ledger::user_ids;
use crate::ledger::Ledger;
use crate::ledger::PresenceEvent;
use crate::ledger::PresenceState;
use crate::ledger::UserPresenceRecord;
use crate::notice::Notice;
use crate::storage::encoded;
use crate::storage::rendered_users;
use crate::storage::set_users;
use crate::storage::PersistenceError;
use vstd::prelude::*;

verus! {

/// What a change of voice presence amounts to.
#[derive(Clone, Copy, Debug, PartialEq, Eq)]
pub enum Transition {
    /// The user was in no channel and is now in `channel`.
    Joined { channel: u64 },
    /// The user is now in no channel.
    Left,
    /// The user was in `from` and is now in `to`, another channel.
    Switched { from: u64, to: u64 },
    /// The user is in the channel they were in.
    Unchanged,
}

/// Classifies a change from `previous_channel` to `new_channel`.
pub open spec fn classify(previous_channel: Option<u64>, new_channel: Option<u64>) -> Transition {
    match (previous_channel, new_channel) {
        (_, None) => Transition::Left,
        (None, Some(channel)) => Transition::Joined { channel },
        (Some(from), Some(to)) => if from != to {
            Transition::Switched { from, to }
        } else {
            Transition::Unchanged
        },
    }
}

/// What a transition of `user` at time `at` makes of the ledger. A switch
/// closes the open session and opens a new one at the same instant.
pub open spec fn presence_step(
    m: Map<u64, PresenceState>,
    user: u64,
    transition: Transition,
    at: int,
) -> Map<u64, PresenceState> {
    match transition {
        Transition::Joined { .. } => ledger_step(m, user, PresenceEvent::Joined, at),
        Transition::Left => ledger_step(m, user, PresenceEvent::Left, at),
        Transition::Switched { .. } => ledger_step(
            ledger_step(m, user, PresenceEvent::Left, at),
            user,
            PresenceEvent::Joined,
            at,
        ),
        Transition::Unchanged => m,
    }
}

/// Whether the ledger can take the transition: the session it closes, if it
/// closes one, leaves accumulated seconds that fit in 64 bits.
pub open spec fn presence_fits(
    m: Map<u64, PresenceState>,
    user: u64,
    transition: Transition,
    at: int,
) -> bool {
    match transition {
        Transition::Left | Transition::Switched { .. } => fits(m, user, PresenceEvent::Left, at),
        _ => true,
    }
}

/// The one notice that a transition of `user` calls for; none where nothing
/// happened.
pub open spec fn presence_notice(user: u64, transition: Transition) -> Option<Notice> {
    match transition {
        Transition::Joined { channel } => Some(Notice::JoinedVoice { user, channel }),
        Transition::Left => Some(Notice::LeftVoice { user }),
        Transition::Switched { from, to } => Some(Notice::SwitchedVoice { user, from, to }),
        Transition::Unchanged => None,
    }
}

/// What a presence tracker is, mathematically: the records of its ledger,
/// and whether they hold a change that durable storage does not have yet.
pub struct TrackerModel {
    pub records: Seq<UserPresenceRecord>,
    pub unsaved: bool,
}

/// Follows voice presence: keeps the ledger, says what to announce, and
/// knows whether the ledger still has to be stored.
pub struct PresenceTracker {
    ledger: Ledger,
    unsaved: bool,
}

impl View for PresenceTracker {
    type V = TrackerModel;

    closed spec fn view(&self) -> TrackerModel {
        TrackerModel { records: self.ledger.records(), unsaved: self.unsaved }
    }
}

/// Decides `classify`.
pub fn classify_change(previous_channel: Option<u64>, new_channel: Option<u64>) -> (transition:
    Transition)
    ensures
        transition == classify(previous_channel, new_channel),
{
    match (previous_channel, new_channel) {
        (_, None) => Transition::Left,
        (None, Some(channel)) => Transition::Joined { channel },
        (Some(from), Some(to)) => if from != to {
            Transition::Switched { from, to }
        } else {
            Transition::Unchanged
        },
    }
}

impl PresenceTracker {
    /// A tracker that starts from `ledger`, as loaded from durable storage.
    pub fn new(ledger: Ledger) -> (tracker: PresenceTracker)
        ensures
            tracker@ == (TrackerModel { records: ledger.records(), unsaved: false }),
    {
        PresenceTracker { ledger, unsaved: false }
    }

    /// The ledger as it is now.
    pub fn ledger(&self) -> (ledger: &Ledger)
        ensures
            ledger.records() == self@.records,
    {
        &self.ledger
    }

    /// Whether the ledger holds a change that has not been stored.
    pub fn needs_save(&self) -> (unsaved: bool)
        ensures
            unsaved == self@.unsaved,
    {
        self.unsaved
    }

    /// Decides `presence_fits`: whether `on_presence_change` can take this
    /// change.
    pub fn can_take(
        &self,
        user_id: u64,
        previous_channel: Option<u64>,
        new_channel: Option<u64>,
        at: i64,
    ) -> (ok: bool)
        ensures
            ok == presence_fits(
                records_map(self@.records),
                user_id,
                classify(previous_channel, new_channel),
                at as int,
            ),
    {
        match classify_change(previous_channel, new_channel) {
            Transition::Left | Transition::Switched { .. } => self.ledger.can_apply(
                user_id,
                PresenceEvent::Left,
                at,
            ),
            _ => true,
        }
    }

    /// The user `user_id` was in `previous_channel` and is, at time `at`, in
    /// `new_channel`. Updates the ledger and returns the notice to post.
    /// Every change but `Unchanged` leaves the ledger to be stored.
    pub fn on_presence_change(
        &mut self,
        user_id: u64,
        previous_channel: Option<u64>,
        new_channel: Option<u64>,
        at: i64,
    ) -> (notice: Option<Notice>)
        requires
            presence_fits(
                records_map(old(self)@.records),
                user_id,
                classify(previous_channel, new_channel),
                at as int,
            ),
        ensures
            records_map(final(self)@.records) == presence_step(
                records_map(old(self)@.records),
                user_id,
                classify(previous_channel, new_channel),
                at as int,
            ),
            user_ids(final(self)@.records) == (if records_map(final(self)@.records).contains_key(
                user_id,
            ) && !records_map(old(self)@.records).contains_key(user_id) {
                user_ids(old(self)@.records).push(user_id)
            } else {
                user_ids(old(self)@.records)
            }),
            final(self)@.unsaved == (old(self)@.unsaved || classify(previous_channel, new_channel)
                != Transition::Unchanged),
            notice == presence_notice(user_id, classify(previous_channel, new_channel)),
    {
        match classify_change(previous_channel, new_channel) {
            Transition::Joined { channel } => {
                self.ledger.apply(user_id, PresenceEvent::Joined, at);
                self.unsaved = true;
                Some(Notice::JoinedVoice { user: user_id, channel })
            },
            Transition::Left => {
                self.ledger.apply(user_id, PresenceEvent::Left, at);
                self.unsaved = true;
                Some(Notice::LeftVoice { user: user_id })
            },
            Transition::Switched { from, to } => {
                self.ledger.apply(user_id, PresenceEvent::Left, at);
                self.ledger.apply(user_id, PresenceEvent::Joined, at);
                self.unsaved = true;
                Some(Notice::SwitchedVoice { user: user_id, from, to })
            },
            Transition::Unchanged => None,
        }
    }

    /// The whole ledger as the text to store now.
    pub fn snapshot(&self) -> (stored: Result<String, PersistenceError>)
        ensures
            match stored {
                Ok(text) => rendered_users(encoded(self@.records)) == Some(text@),
                Err(error) => error == PersistenceError::Encode && rendered_users(
                    encoded(self@.records),
                ) is None,
            },
    {
        set_users(&self.ledger)
    }

    /// The dispatcher tried to store a snapshot and says whether that
    /// worked. A failed write is an error and leaves the ledger to be stored;
    /// the ledger itself stays as it is either way.
    pub fn on_persisted(&mut self, written: bool) -> (result: Result<(), PersistenceError>)
        ensures
            final(self)@.records == old(self)@.records,
            final(self)@.unsaved == (old(self)@.unsaved && !written),
            result == (if written {
                Ok::<(), PersistenceError>(())
            } else {
                Err::<(), PersistenceError>(PersistenceError::Write)
            }),
    {
        if written {
            self.unsaved = false;
            Ok(())
        } else {
            Err(PersistenceError::Write)
        }
    }
}

} // verus!
