//! The duration ledger: per user, the seconds spent in voice and the session
//! that is open now.

use crate::clock::elapsed_time;
use crate::clock::session_seconds;
use vstd::prelude::*;

verus! {

/// The two things that can happen to a user's presence in voice.
#[derive(Clone, Copy, Debug, PartialEq, Eq)]
pub enum PresenceEvent {
    Joined,
    Left,
}

/// What the ledger knows of one user, mathematically: when the session that
/// is open now began, if one is open, and the seconds of all closed sessions.
pub struct PresenceState {
    pub open_session_start: Option<int>,
    pub accumulated_seconds: nat,
}

/// One user's entry in the ledger.
#[derive(Clone, Copy, Debug, PartialEq, Eq)]
pub struct UserPresenceRecord {
    pub user_id: u64,
    /// Present exactly while the user is inside a tracked voice channel.
    pub open_session_start: Option<i64>,
    pub accumulated_seconds: u64,
}

impl UserPresenceRecord {
    /// The record without the user's name.
    pub open spec fn state(self) -> PresenceState {
        PresenceState {
            open_session_start: match self.open_session_start {
                Some(start) => Some(start as int),
                None => None,
            },
            accumulated_seconds: self.accumulated_seconds as nat,
        }
    }
}

/// What an event at time `at` makes of one user's state; `None` stands for a
/// user without a record.
///
/// `Joined` opens a session at `at` unless one is open, creating the record
/// if there is none. `Left` closes the open session and adds its length to
/// the accumulated seconds; without an open session it changes nothing.
pub open spec fn record_step(prev: Option<PresenceState>, event: PresenceEvent, at: int) -> Option<
    PresenceState,
> {
    match (event, prev) {
        (PresenceEvent::Joined, None) => Some(
            PresenceState { open_session_start: Some(at), accumulated_seconds: 0 },
        ),
        (PresenceEvent::Joined, Some(state)) => match state.open_session_start {
            Some(_) => Some(state),
            None => Some(PresenceState { open_session_start: Some(at), ..state }),
        },
        (PresenceEvent::Left, None) => None,
        (PresenceEvent::Left, Some(state)) => match state.open_session_start {
            Some(start) => Some(
                PresenceState {
                    open_session_start: None,
                    accumulated_seconds: state.accumulated_seconds + session_seconds(start, at),
                },
            ),
            None => Some(state),
        },
    }
}

/// The state of `user` in `m`, if `m` has a record of them.
pub open spec fn state_of(m: Map<u64, PresenceState>, user: u64) -> Option<PresenceState> {
    if m.contains_key(user) {
        Some(m[user])
    } else {
        None
    }
}

/// What an event of `user` at time `at` makes of the ledger: `user`'s state
/// changes by `record_step`, nobody else's changes.
pub open spec fn ledger_step(
    m: Map<u64, PresenceState>,
    user: u64,
    event: PresenceEvent,
    at: int,
) -> Map<u64, PresenceState> {
    match record_step(state_of(m, user), event, at) {
        Some(state) => m.insert(user, state),
        None => m,
    }
}

/// Whether the ledger can take the event: the accumulated seconds it would
/// write fit in 64 bits.
pub open spec fn fits(m: Map<u64, PresenceState>, user: u64, event: PresenceEvent, at: int) -> bool {
    match record_step(state_of(m, user), event, at) {
        Some(state) => state.accumulated_seconds <= u64::MAX,
        None => true,
    }
}

/// No two records are of the same user.
pub open spec fn distinct_users(records: Seq<UserPresenceRecord>) -> bool {
    forall|i: int, j: int|
        0 <= i < j < records.len() ==> #[trigger] records[i].user_id != #[trigger] records[j].user_id
}

/// Some record is of `user`.
pub open spec fn has_user(records: Seq<UserPresenceRecord>, user: u64) -> bool {
    exists|i: int| 0 <= i < records.len() && #[trigger] records[i].user_id == user
}

/// The users of the records, in the records' order.
pub open spec fn user_ids(records: Seq<UserPresenceRecord>) -> Seq<u64> {
    Seq::new(records.len(), |i: int| records[i].user_id)
}

/// The mapping that a list of records stands for.
pub open spec fn records_map(records: Seq<UserPresenceRecord>) -> Map<u64, PresenceState> {
    Map::new(
        |user: u64| has_user(records, user),
        |user: u64|
            records[choose|i: int| 0 <= i < records.len() && #[trigger] records[i].user_id
                == user].state(),
    )
}

/// In a list without repeated users, the mapping gives each user the state
/// of their one record.
pub proof fn lemma_records_map_at(records: Seq<UserPresenceRecord>, i: int)
    requires
        distinct_users(records),
        0 <= i < records.len(),
    ensures
        records_map(records).contains_key(records[i].user_id),
        records_map(records)[records[i].user_id] == records[i].state(),
{
    let user = records[i].user_id;
    let k = choose|k: int| 0 <= k < records.len() && #[trigger] records[k].user_id == user;
    if k < i {
        assert(records[k].user_id != records[i].user_id);
    } else if i < k {
        assert(records[i].user_id != records[k].user_id);
    }
}

proof fn lemma_replace_record(records: Seq<UserPresenceRecord>, i: int, record: UserPresenceRecord)
    requires
        distinct_users(records),
        0 <= i < records.len(),
        record.user_id == records[i].user_id,
    ensures
        distinct_users(records.update(i, record)),
        user_ids(records.update(i, record)) == user_ids(records),
        records_map(records.update(i, record)) == records_map(records).insert(
            record.user_id,
            record.state(),
        ),
{
    let after = records.update(i, record);
    assert forall|a: int, b: int| 0 <= a < b < after.len() implies #[trigger] after[a].user_id
        != #[trigger] after[b].user_id by {
        assert(after[a].user_id == records[a].user_id);
        assert(after[b].user_id == records[b].user_id);
    }
    assert(user_ids(after) =~= user_ids(records));
    let expected = records_map(records).insert(record.user_id, record.state());
    assert forall|user: u64| records_map(after).contains_key(user) == expected.contains_key(
        user,
    ) by {
        if has_user(after, user) {
            let k = choose|k: int| 0 <= k < after.len() && #[trigger] after[k].user_id == user;
            assert(records[k].user_id == user);
        }
        if has_user(records, user) {
            let k = choose|k: int| 0 <= k < records.len() && #[trigger] records[k].user_id == user;
            assert(after[k].user_id == user);
        }
        assert(after[i].user_id == record.user_id);
    }
    assert forall|user: u64| records_map(after).contains_key(user) implies records_map(
        after,
    )[user] == expected[user] by {
        let k = choose|k: int| 0 <= k < after.len() && #[trigger] after[k].user_id == user;
        lemma_records_map_at(after, k);
        if k != i {
            assert(after[k] == records[k]);
            lemma_records_map_at(records, k);
            if k < i {
                assert(records[k].user_id != records[i].user_id);
            } else {
                assert(records[i].user_id != records[k].user_id);
            }
        }
    }
    assert(records_map(after) =~= expected);
}

proof fn lemma_append_record(records: Seq<UserPresenceRecord>, record: UserPresenceRecord)
    requires
        distinct_users(records),
        !has_user(records, record.user_id),
    ensures
        distinct_users(records.push(record)),
        user_ids(records.push(record)) == user_ids(records).push(record.user_id),
        records_map(records.push(record)) == records_map(records).insert(
            record.user_id,
            record.state(),
        ),
{
    let after = records.push(record);
    assert forall|a: int, b: int| 0 <= a < b < after.len() implies #[trigger] after[a].user_id
        != #[trigger] after[b].user_id by {
        assert(after[a] == records[a]);
        if b < records.len() {
            assert(after[b] == records[b]);
        }
    }
    assert(user_ids(after) =~= user_ids(records).push(record.user_id));
    let expected = records_map(records).insert(record.user_id, record.state());
    assert forall|user: u64| records_map(after).contains_key(user) == expected.contains_key(
        user,
    ) by {
        if has_user(after, user) {
            let k = choose|k: int| 0 <= k < after.len() && #[trigger] after[k].user_id == user;
            if k < records.len() {
                assert(records[k].user_id == user);
            }
        }
        if has_user(records, user) {
            let k = choose|k: int| 0 <= k < records.len() && #[trigger] records[k].user_id == user;
            assert(after[k].user_id == user);
        }
        assert(after[records.len() as int].user_id == record.user_id);
    }
    assert forall|user: u64| records_map(after).contains_key(user) implies records_map(
        after,
    )[user] == expected[user] by {
        let k = choose|k: int| 0 <= k < after.len() && #[trigger] after[k].user_id == user;
        lemma_records_map_at(after, k);
        if k < records.len() {
            assert(after[k] == records[k]);
            lemma_records_map_at(records, k);
        }
    }
    assert(records_map(after) =~= expected);
}

/// The duration ledger: for each user seen so far, the time spent in voice.
/// Records are never removed. They are kept as a list in the order in which
/// their users were first seen, so that what is written to storage and what
/// is listed for a channel are functions of the ledger alone; a user is found
/// by walking the list.
pub struct Ledger {
    records: Vec<UserPresenceRecord>,
}

impl View for Ledger {
    type V = Map<u64, PresenceState>;

    open spec fn view(&self) -> Map<u64, PresenceState> {
        records_map(self.records())
    }
}

impl Ledger {
    #[verifier::type_invariant]
    spec fn one_record_per_user(self) -> bool {
        distinct_users(self.records@)
    }

    /// The records, oldest user first.
    pub closed spec fn records(&self) -> Seq<UserPresenceRecord> {
        self.records@
    }

    /// Takes the records out to be changed. An empty list stays behind, so
    /// that the ledger is a valid one while the change is under way.
    fn take_records(&mut self) -> (records: Vec<UserPresenceRecord>)
        ensures
            records@ == old(self).records@,
            final(self).records@.len() == 0,
    {
        let mut records: Vec<UserPresenceRecord> = Vec::new();
        core::mem::swap(&mut self.records, &mut records);
        records
    }

    /// Puts changed records back.
    fn put_records(&mut self, records: Vec<UserPresenceRecord>)
        requires
            distinct_users(records@),
        ensures
            final(self).records@ == records@,
    {
        let mut records = records;
        core::mem::swap(&mut self.records, &mut records);
    }

    /// A ledger that knows nobody.
    pub fn new() -> (ledger: Ledger)
        ensures
            ledger.records() == Seq::<UserPresenceRecord>::empty(),
    {
        Ledger { records: Vec::new() }
    }

    /// The number of users with a record.
    pub fn len(&self) -> (len: usize)
        ensures
            len == self.records().len(),
    {
        self.records.len()
    }

    /// A copy of the records, oldest user first. No two are of the same user.
    pub fn entries(&self) -> (entries: Vec<UserPresenceRecord>)
        ensures
            entries@ == self.records(),
            distinct_users(entries@),
    {
        proof {
            use_type_invariant(self);
        }
        let mut entries: Vec<UserPresenceRecord> = Vec::new();
        let mut i: usize = 0;
        while i < self.records.len()
            invariant
                i <= self.records.len(),
                entries@ == self.records@.take(i as int),
            decreases self.records.len() - i,
        {
            entries.push(self.records[i]);
            proof {
                assert(self.records@.take(i + 1) =~= self.records@.take(i as int).push(
                    self.records@[i as int],
                ));
            }
            i += 1;
        }
        proof {
            assert(self.records@.take(self.records.len() as int) =~= self.records@);
        }
        entries
    }

    fn position(&self, user_id: u64) -> (found: Option<usize>)
        ensures
            match found {
                Some(i) => i < self.records().len() && self.records()[i as int].user_id == user_id,
                None => !has_user(self.records(), user_id),
            },
    {
        let mut i: usize = 0;
        while i < self.records.len()
            invariant
                i <= self.records.len(),
                forall|k: int| 0 <= k < i ==> self.records@[k].user_id != user_id,
            decreases self.records.len() - i,
        {
            if self.records[i].user_id == user_id {
                return Some(i);
            }
            i += 1;
        }
        None
    }

    /// The record of `user_id`, if there is one.
    pub fn get(&self, user_id: u64) -> (record: Option<UserPresenceRecord>)
        ensures
            match record {
                Some(record) => record.user_id == user_id && state_of(self@, user_id) == Some(
                    record.state(),
                ),
                None => !self@.contains_key(user_id),
            },
    {
        proof {
            use_type_invariant(self);
        }
        match self.position(user_id) {
            Some(i) => {
                proof {
                    lemma_records_map_at(self.records@, i as int);
                }
                Some(self.records[i])
            },
            None => None,
        }
    }

    /// Adds a record as it stands, for a user the ledger does not know yet.
    /// Returns whether it was added; a record of a known user is refused and
    /// the ledger stays as it is.
    pub fn insert(&mut self, record: UserPresenceRecord) -> (added: bool)
        ensures
            added == !has_user(old(self).records(), record.user_id),
            final(self).records() == (if added {
                old(self).records().push(record)
            } else {
                old(self).records()
            }),
    {
        proof {
            use_type_invariant(&*self);
        }
        match self.position(record.user_id) {
            Some(_) => false,
            None => {
                proof {
                    lemma_append_record(self.records@, record);
                }
                let mut records = self.take_records();
                records.push(record);
                self.put_records(records);
                true
            },
        }
    }

    /// Decides `fits`: whether `apply` can take this event.
    pub fn can_apply(&self, user_id: u64, event: PresenceEvent, at: i64) -> (ok: bool)
        ensures
            ok == fits(self@, user_id, event, at as int),
    {
        proof {
            use_type_invariant(self);
        }
        match event {
            PresenceEvent::Joined => true,
            PresenceEvent::Left => match self.position(user_id) {
                Some(i) => {
                    proof {
                        lemma_records_map_at(self.records@, i as int);
                    }
                    let record = self.records[i];
                    match record.open_session_start {
                        Some(start) => elapsed_time(start, at) <= u64::MAX
                            - record.accumulated_seconds,
                        None => true,
                    }
                },
                None => true,
            },
        }
    }

    /// Applies one presence event of `user_id` at time `at` and returns the
    /// user's record as it is afterwards, if they have one.
    pub fn apply(&mut self, user_id: u64, event: PresenceEvent, at: i64) -> (record: Option<
        UserPresenceRecord,
    >)
        requires
            fits(old(self)@, user_id, event, at as int),
        ensures
            final(self)@ == ledger_step(old(self)@, user_id, event, at as int),
            match record {
                Some(record) => record.user_id == user_id && state_of(final(self)@, user_id)
                    == Some(record.state()),
                None => !final(self)@.contains_key(user_id),
            },
            user_ids(final(self).records()) == (if final(self)@.contains_key(user_id) && !old(
                self,
            )@.contains_key(user_id) {
                user_ids(old(self).records()).push(user_id)
            } else {
                user_ids(old(self).records())
            }),
            distinct_users(final(self).records()),
    {
        proof {
            use_type_invariant(&*self);
        }
        match self.position(user_id) {
            Some(i) => {
                let before = self.records[i];
                proof {
                    lemma_records_map_at(self.records@, i as int);
                }
                let after = match (event, before.open_session_start) {
                    (PresenceEvent::Joined, None) => UserPresenceRecord {
                        open_session_start: Some(at),
                        ..before
                    },
                    (PresenceEvent::Left, Some(start)) => UserPresenceRecord {
                        open_session_start: None,
                        accumulated_seconds: before.accumulated_seconds + elapsed_time(
                            start,
                            at,
                        ),
                        ..before
                    },
                    _ => before,
                };
                proof {
                    lemma_replace_record(self.records@, i as int, after);
                    assert(Some(after.state()) == record_step(
                        state_of(self@, user_id),
                        event,
                        at as int,
                    ));
                }
                let mut records = self.take_records();
                records.set(i, after);
                self.put_records(records);
                proof {
                    lemma_records_map_at(self.records@, i as int);
                }
                Some(after)
            },
            None => match event {
                PresenceEvent::Joined => {
                    let created = UserPresenceRecord {
                        user_id,
                        open_session_start: Some(at),
                        accumulated_seconds: 0,
                    };
                    proof {
                        lemma_append_record(self.records@, created);
                    }
                    let mut records = self.take_records();
                    records.push(created);
                    self.put_records(records);
                    proof {
                        lemma_records_map_at(self.records@, self.records@.len() - 1);
                    }
                    Some(created)
                },
                PresenceEvent::Left => None,
            },
        }
    }
}

} // verus!
