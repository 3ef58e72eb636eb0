//! What holds of the tally over whole histories of votes.

use crate::tally::vote_step;
use crate::tally::TallyModel;
use crate::tally::VoteOutcome;
use vstd::prelude::*;

verus! {

/// One entry of a history of votes: who voted on what.
pub struct VoteCast {
    pub proposal_id: u64,
    pub voter_id: u64,
}

/// The store after a history of votes, recorded in order in `m`.
pub open spec fn replay_votes(m: TallyModel, votes: Seq<VoteCast>) -> TallyModel
    decreases votes.len(),
{
    if votes.len() == 0 {
        m
    } else {
        vote_step(
            replay_votes(m, votes.drop_last()),
            votes.last().proposal_id,
            votes.last().voter_id,
        ).0
    }
}

/// The outcome reported for vote `i` of a history.
pub open spec fn outcome_at(m: TallyModel, votes: Seq<VoteCast>, i: int) -> VoteOutcome {
    vote_step(replay_votes(m, votes.take(i)), votes[i].proposal_id, votes[i].voter_id).1
}

/// The users who vote on `proposal_id` somewhere in a history.
pub open spec fn voters_in(votes: Seq<VoteCast>, proposal_id: u64) -> Set<u64> {
    Set::new(
        |voter: u64|
            exists|i: int|
                0 <= i < votes.len() && #[trigger] votes[i] == (VoteCast {
                    proposal_id,
                    voter_id: voter,
                }),
    )
}

/// Recording a vote keeps a store well formed.
pub proof fn lemma_vote_keeps_wf(m: TallyModel, proposal_id: u64, voter_id: u64)
    requires
        m.wf(),
    ensures
        vote_step(m, proposal_id, voter_id).0.wf(),
{
}

/// A vote by a voter whose vote was counted is `AlreadyCounted` and changes
/// nothing.
pub proof fn lemma_second_vote_already_counted(m: TallyModel, proposal_id: u64, voter_id: u64)
    requires
        m.open.contains_key(proposal_id),
        m.open[proposal_id].voters.contains(voter_id),
    ensures
        vote_step(m, proposal_id, voter_id) == (m, VoteOutcome::AlreadyCounted),
{
}

/// A counted vote leaves the voter in the proposal's voter set, one larger
/// than before, so the same voter's next vote finds them there.
pub proof fn lemma_counted_vote_is_remembered(m: TallyModel, proposal_id: u64, voter_id: u64)
    requires
        m.wf(),
        vote_step(m, proposal_id, voter_id).1 is Counted,
    ensures
        vote_step(m, proposal_id, voter_id).0.open.contains_key(proposal_id),
        vote_step(m, proposal_id, voter_id).0.open[proposal_id].voters == m.open[proposal_id].voters.insert(
            voter_id,
        ),
        vote_step(m, proposal_id, voter_id).0.open[proposal_id].affirmative_count()
            == m.open[proposal_id].affirmative_count() + 1,
        vote_step(vote_step(m, proposal_id, voter_id).0, proposal_id, voter_id).1
            == VoteOutcome::AlreadyCounted,
{
}

/// Once a vote has resolved a proposal, every vote on it is `Unknown` and
/// changes nothing.
pub proof fn lemma_resolved_is_unknown(
    m: TallyModel,
    proposal_id: u64,
    voter_id: u64,
    later_voter: u64,
)
    requires
        vote_step(m, proposal_id, voter_id).1 is ThresholdReached,
    ensures
        !vote_step(m, proposal_id, voter_id).0.open.contains_key(proposal_id),
        vote_step(vote_step(m, proposal_id, voter_id).0, proposal_id, later_voter) == (
            vote_step(m, proposal_id, voter_id).0,
            VoteOutcome::Unknown,
        ),
{
}

/// Votes open nothing: a proposal that is open after a history of votes was
/// open all along, and its target and creation time are what they were.
pub proof fn lemma_votes_open_nothing(m: TallyModel, votes: Seq<VoteCast>, k: int, proposal_id: u64)
    requires
        0 <= k <= votes.len(),
        replay_votes(m, votes).open.contains_key(proposal_id),
    ensures
        replay_votes(m, votes.take(k)).open.contains_key(proposal_id),
        replay_votes(m, votes).threshold == m.threshold,
    decreases votes.len(),
{
    if votes.len() == 0 {
        assert(votes.take(k) =~= votes);
    } else if k == votes.len() {
        assert(votes.take(k) =~= votes);
        lemma_votes_open_nothing(m, votes.drop_last(), 0, proposal_id);
    } else {
        assert(votes.drop_last().take(k) =~= votes.take(k));
        lemma_votes_open_nothing(m, votes.drop_last(), k, proposal_id);
    }
}

/// In any history of votes, `ThresholdReached` is reported at most once for
/// a proposal, and every later vote on that proposal is `Unknown`.
pub proof fn lemma_threshold_reached_once(m: TallyModel, votes: Seq<VoteCast>, i: int, j: int)
    requires
        0 <= i < j < votes.len(),
        votes[i].proposal_id == votes[j].proposal_id,
        outcome_at(m, votes, i) is ThresholdReached,
    ensures
        outcome_at(m, votes, j) == VoteOutcome::Unknown,
{
    let proposal_id = votes[i].proposal_id;
    let until_j = votes.take(j);
    if replay_votes(m, until_j).open.contains_key(proposal_id) {
        lemma_votes_open_nothing(m, until_j, i + 1, proposal_id);
        assert(until_j.take(i + 1) =~= votes.take(i + 1));
        assert(votes.take(i + 1).drop_last() =~= votes.take(i));
        assert(votes.take(i + 1).last() == votes[i]);
    }
}

/// In any history of votes, a voter's repeated vote on a proposal is never
/// counted again: it is `AlreadyCounted` while the proposal is open, and
/// `Unknown` once it is not.
pub proof fn lemma_repeated_vote_not_counted(m: TallyModel, votes: Seq<VoteCast>, i: int, j: int)
    requires
        0 <= i < j < votes.len(),
        votes[i] == votes[j],
    ensures
        outcome_at(m, votes, j) == (if replay_votes(m, votes.take(j)).open.contains_key(
            votes[j].proposal_id,
        ) {
            VoteOutcome::AlreadyCounted
        } else {
            VoteOutcome::Unknown
        }),
{
    let proposal_id = votes[i].proposal_id;
    let until_j = votes.take(j);
    if replay_votes(m, until_j).open.contains_key(proposal_id) {
        lemma_votes_keep_voters(m, until_j, i, proposal_id);
        assert(until_j[i] == votes[i]);
    }
}

/// While a proposal stays open, nobody leaves its voter set: whoever has
/// voted on it by position `i` of a history, or was in the set before, is in
/// the set at the end.
proof fn lemma_votes_keep_voters(m: TallyModel, votes: Seq<VoteCast>, i: int, proposal_id: u64)
    requires
        0 <= i < votes.len(),
        votes[i].proposal_id == proposal_id,
        replay_votes(m, votes).open.contains_key(proposal_id),
    ensures
        replay_votes(m, votes).open[proposal_id].voters.contains(votes[i].voter_id),
    decreases votes.len(),
{
    let earlier = votes.drop_last();
    lemma_votes_open_nothing(m, votes, votes.len() - 1, proposal_id);
    assert(votes.take(votes.len() - 1) =~= earlier);
    if i < votes.len() - 1 {
        assert(earlier[i] == votes[i]);
        lemma_votes_keep_voters(m, earlier, i, proposal_id);
    }
}

/// The affirmative count is the number of distinct voters: after any history
/// of votes, a proposal that is still open has as its voter set those it had
/// before together with those who voted on it in the history. For a proposal
/// that started without votes, the count is therefore exactly the number of
/// distinct users who voted on it, however often each of them voted.
pub proof fn lemma_count_is_distinct_voters(m: TallyModel, votes: Seq<VoteCast>, proposal_id: u64)
    requires
        replay_votes(m, votes).open.contains_key(proposal_id),
    ensures
        m.open.contains_key(proposal_id),
        replay_votes(m, votes).open[proposal_id].voters == m.open[proposal_id].voters.union(
            voters_in(votes, proposal_id),
        ),
        m.open[proposal_id].voters.is_empty() ==> replay_votes(
            m,
            votes,
        ).open[proposal_id].affirmative_count() == voters_in(votes, proposal_id).len(),
        replay_votes(m, votes).open[proposal_id].target_user_id
            == m.open[proposal_id].target_user_id,
    decreases votes.len(),
{
    let after = replay_votes(m, votes).open[proposal_id].voters;
    let before = m.open[proposal_id].voters;
    if votes.len() == 0 {
        assert(voters_in(votes, proposal_id) =~= Set::empty());
        assert(after =~= before.union(voters_in(votes, proposal_id)));
    } else {
        let earlier = votes.drop_last();
        lemma_votes_open_nothing(m, votes, votes.len() - 1, proposal_id);
        assert(votes.take(votes.len() - 1) =~= earlier);
        lemma_count_is_distinct_voters(m, earlier, proposal_id);
        let cast = votes.last();
        assert forall|voter: u64|
            voters_in(votes, proposal_id).contains(voter) == (voters_in(
                earlier,
                proposal_id,
            ).contains(voter) || cast == (VoteCast { proposal_id, voter_id: voter })) by {
            if voters_in(earlier, proposal_id).contains(voter) {
                let k = choose|k: int|
                    0 <= k < earlier.len() && #[trigger] earlier[k] == (VoteCast {
                        proposal_id,
                        voter_id: voter,
                    });
                assert(votes[k] == earlier[k]);
            }
            if cast == (VoteCast { proposal_id, voter_id: voter }) {
                assert(votes[votes.len() - 1] == cast);
            }
            if voters_in(votes, proposal_id).contains(voter) {
                let k = choose|k: int|
                    0 <= k < votes.len() && #[trigger] votes[k] == (VoteCast {
                        proposal_id,
                        voter_id: voter,
                    });
                if k < earlier.len() {
                    assert(earlier[k] == votes[k]);
                }
            }
        }
        assert(after =~= before.union(voters_in(votes, proposal_id)));
    }
    if before.is_empty() {
        assert(before.union(voters_in(votes, proposal_id)) =~= voters_in(votes, proposal_id));
    }
}

} // verus!
