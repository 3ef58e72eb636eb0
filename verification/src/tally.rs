//! The vote tally: the open proposals, their voters, and the threshold that
//! resolves them.

use std::collections::HashMap;
use std::collections::HashSet;
use vstd::prelude::*;

verus! {

broadcast use vstd::std_specs::hash::group_hash_axioms;

/// What a proposal is, mathematically: the user it targets, the set of users
/// whose affirmative vote has been counted, and the time it was opened.
#[verifier::ext_equal]
pub struct ProposalModel {
    pub target_user_id: u64,
    pub voters: Set<u64>,
    pub created_at: i64,
}

impl ProposalModel {
    /// The number of affirmative votes: one per distinct voter.
    pub open spec fn affirmative_count(self) -> nat {
        self.voters.len()
    }

    /// A proposal as it is right after binding: nobody has voted yet.
    pub open spec fn fresh(target_user_id: u64, created_at: i64) -> ProposalModel {
        ProposalModel { target_user_id, voters: Set::empty(), created_at }
    }
}

/// What a tally store is, mathematically: the configured threshold and the
/// currently open proposals, keyed by the identity of their announcement.
#[verifier::ext_equal]
pub struct TallyModel {
    pub threshold: u64,
    pub open: Map<u64, ProposalModel>,
}

impl TallyModel {
    /// Finitely many proposals are open and each has finitely many voters.
    pub open spec fn wf(self) -> bool {
        &&& self.open.dom().finite()
        &&& forall|p: u64| #[trigger] self.open.contains_key(p) ==> self.open[p].voters.finite()
    }

    /// A store with the given threshold and no open proposal.
    pub open spec fn empty(threshold: u64) -> TallyModel {
        TallyModel { threshold, open: Map::empty() }
    }
}

/// The result of recording one vote.
#[derive(Clone, Copy, Debug, PartialEq, Eq)]
pub enum VoteOutcome {
    /// No proposal is open under that identity.
    Unknown,
    /// This voter's vote on this proposal was counted before.
    AlreadyCounted,
    /// The vote was counted; the proposal stays open with this many votes.
    Counted(u64),
    /// The vote was counted and met the threshold; the proposal is resolved.
    ThresholdReached,
}

/// Binding: the proposal identified by `proposal_id` becomes open, targeting
/// `target_user_id`, with no votes. A proposal that was open under the same
/// identity is replaced.
pub open spec fn bind_step(
    m: TallyModel,
    proposal_id: u64,
    target_user_id: u64,
    created_at: i64,
) -> TallyModel {
    TallyModel {
        open: m.open.insert(proposal_id, ProposalModel::fresh(target_user_id, created_at)),
        ..m
    }
}

/// Expiry: the proposal leaves the open set; nothing else changes.
pub open spec fn expire_step(m: TallyModel, proposal_id: u64) -> TallyModel {
    TallyModel { open: m.open.remove(proposal_id), ..m }
}

/// One vote: the store afterwards and the outcome reported.
///
/// A vote on an identity that is not open changes nothing and is `Unknown`.
/// A vote by a voter already in the proposal's voter set changes nothing and
/// is `AlreadyCounted`. Otherwise the voter joins the set; if the set's size
/// then meets the threshold the proposal is removed and the outcome is
/// `ThresholdReached`, else the outcome is `Counted` with the new size.
pub open spec fn vote_step(m: TallyModel, proposal_id: u64, voter_id: u64) -> (
    TallyModel,
    VoteOutcome,
) {
    if !m.open.contains_key(proposal_id) {
        (m, VoteOutcome::Unknown)
    } else if m.open[proposal_id].voters.contains(voter_id) {
        (m, VoteOutcome::AlreadyCounted)
    } else {
        let proposal = m.open[proposal_id];
        let voters = proposal.voters.insert(voter_id);
        if voters.len() >= m.threshold {
            (TallyModel { open: m.open.remove(proposal_id), ..m }, VoteOutcome::ThresholdReached)
        } else {
            (
                TallyModel {
                    open: m.open.insert(proposal_id, ProposalModel { voters, ..proposal }),
                    ..m
                },
                VoteOutcome::Counted(voters.len() as u64),
            )
        }
    }
}

/// What the store keeps of an open proposal.
struct Entry {
    target_user_id: u64,
    created_at: i64,
    voters: HashSet<u64>,
}

impl View for Entry {
    type V = ProposalModel;

    closed spec fn view(&self) -> ProposalModel {
        ProposalModel {
            target_user_id: self.target_user_id,
            voters: self.voters@,
            created_at: self.created_at,
        }
    }
}

/// An open vote as the store reports it: tied to one announcement, targeting
/// one user, with the number of distinct users who have voted for it.
#[derive(Clone, Copy, Debug, PartialEq, Eq)]
pub struct VoteProposal {
    pub proposal_id: u64,
    pub target_user_id: u64,
    pub affirmative_count: u64,
    pub created_at: i64,
}

/// The intent to open a proposal, held while its announcement is being
/// posted. It becomes a proposal only when it is bound to the identity of the
/// posted announcement; dropped, it leaves no trace.
#[derive(Clone, Copy, Debug, PartialEq, Eq)]
pub struct PendingProposal {
    pub target_user_id: u64,
    pub created_at: i64,
}

/// The open proposals of one process, with the threshold that resolves them.
pub struct VoteTallyStore {
    threshold: u64,
    proposals: HashMap<u64, Entry>,
}

impl View for VoteTallyStore {
    type V = TallyModel;

    closed spec fn view(&self) -> TallyModel {
        TallyModel {
            threshold: self.threshold,
            open: Map::new(
                |p: u64| self.proposals@.contains_key(p),
                |p: u64| self.proposals@[p]@,
            ),
        }
    }
}

impl VoteTallyStore {
    #[verifier::type_invariant]
    spec fn voters_finite(self) -> bool {
        forall|p: u64| #[trigger]
            self.proposals@.contains_key(p) ==> self.proposals@[p].voters@.finite()
    }

    proof fn lemma_view_wf(self)
        requires
            self.voters_finite(),
        ensures
            self@.wf(),
    {
        assert(self@.open.dom() =~= self.proposals@.dom());
    }

    /// Takes the proposals out to be changed. An empty map stays behind, so
    /// that the store is a valid one while the change is under way.
    fn take_proposals(&mut self) -> (proposals: HashMap<u64, Entry>)
        ensures
            proposals@ == old(self).proposals@,
            final(self).proposals@ == Map::<u64, Entry>::empty(),
            final(self).threshold == old(self).threshold,
    {
        let mut proposals: HashMap<u64, Entry> = HashMap::new();
        core::mem::swap(&mut self.proposals, &mut proposals);
        proposals
    }

    /// Puts changed proposals back.
    fn put_proposals(&mut self, proposals: HashMap<u64, Entry>)
        requires
            forall|p: u64| #[trigger]
                proposals@.contains_key(p) ==> proposals@[p].voters@.finite(),
        ensures
            final(self).proposals@ == proposals@,
            final(self).threshold == old(self).threshold,
            final(self)@.wf(),
    {
        let mut proposals = proposals;
        core::mem::swap(&mut self.proposals, &mut proposals);
        proof {
            self.lemma_view_wf();
        }
    }

    /// A store without proposals that resolves a proposal once `threshold`
    /// distinct voters have voted for it.
    pub fn new(threshold: u64) -> (store: VoteTallyStore)
        ensures
            store@ == TallyModel::empty(threshold),
            store@.wf(),
    {
        let store = VoteTallyStore { threshold, proposals: HashMap::new() };
        proof {
            assert(store@.open =~= Map::empty());
            store.lemma_view_wf();
        }
        store
    }

    /// The number of distinct votes that resolves a proposal.
    pub fn threshold(&self) -> (threshold: u64)
        ensures
            threshold == self@.threshold,
    {
        self.threshold
    }

    /// The number of open proposals.
    pub fn len(&self) -> (len: usize)
        ensures
            len == self@.open.dom().len(),
    {
        assert(self@.open.dom() =~= self.proposals@.dom());
        self.proposals.len()
    }

    /// Whether a proposal is open under `proposal_id`.
    pub fn is_open(&self, proposal_id: u64) -> (open: bool)
        ensures
            open == self@.open.contains_key(proposal_id),
    {
        self.proposals.contains_key(&proposal_id)
    }

    /// The open proposal `proposal_id`, as it stands.
    pub fn proposal(&self, proposal_id: u64) -> (proposal: Option<VoteProposal>)
        ensures
            proposal == (if self@.open.contains_key(proposal_id) {
                Some(
                    VoteProposal {
                        proposal_id,
                        target_user_id: self@.open[proposal_id].target_user_id,
                        affirmative_count: self@.open[proposal_id].affirmative_count() as u64,
                        created_at: self@.open[proposal_id].created_at,
                    },
                )
            } else {
                None
            }),
    {
        match self.proposals.get(&proposal_id) {
            Some(entry) => Some(
                VoteProposal {
                    proposal_id,
                    target_user_id: entry.target_user_id,
                    affirmative_count: entry.voters.len() as u64,
                    created_at: entry.created_at,
                },
            ),
            None => None,
        }
    }

    /// First phase of opening a proposal: records the intent to put
    /// `target_user_id` to a vote. The store is not changed until the intent
    /// is bound.
    pub fn open(&self, target_user_id: u64, created_at: i64) -> (pending: PendingProposal)
        ensures
            pending == (PendingProposal { target_user_id, created_at }),
    {
        PendingProposal { target_user_id, created_at }
    }

    /// Second phase: the announcement was posted under `proposal_id`, and the
    /// pending proposal becomes open under that identity.
    pub fn bind(&mut self, pending: PendingProposal, proposal_id: u64)
        ensures
            final(self)@ == bind_step(
                old(self)@,
                proposal_id,
                pending.target_user_id,
                pending.created_at,
            ),
            final(self)@.wf(),
    {
        proof {
            use_type_invariant(&*self);
        }
        let proposal = Entry {
            target_user_id: pending.target_user_id,
            created_at: pending.created_at,
            voters: HashSet::new(),
        };
        let mut proposals = self.take_proposals();
        proposals.insert(proposal_id, proposal);
        self.put_proposals(proposals);
        proof {
            assert(self@.open =~= bind_step(
                old(self)@,
                proposal_id,
                pending.target_user_id,
                pending.created_at,
            ).open);
        }
    }

    /// Counts `voter_id`'s affirmative vote on the proposal `proposal_id`.
    pub fn record_vote(&mut self, proposal_id: u64, voter_id: u64) -> (outcome: VoteOutcome)
        ensures
            (final(self)@, outcome) == vote_step(old(self)@, proposal_id, voter_id),
            final(self)@.wf(),
    {
        proof {
            use_type_invariant(&*self);
        }
        let threshold = self.threshold;
        let mut proposals = self.take_proposals();
        let outcome = match proposals.remove(&proposal_id) {
            None => VoteOutcome::Unknown,
            Some(mut proposal) => {
                if proposal.voters.insert(voter_id) {
                    let count = proposal.voters.len() as u64;
                    if count >= threshold {
                        VoteOutcome::ThresholdReached
                    } else {
                        proposals.insert(proposal_id, proposal);
                        VoteOutcome::Counted(count)
                    }
                } else {
                    proposals.insert(proposal_id, proposal);
                    VoteOutcome::AlreadyCounted
                }
            },
        };
        self.put_proposals(proposals);
        proof {
            assert(self@.open =~~= vote_step(old(self)@, proposal_id, voter_id).0.open);
        }
        outcome
    }

    /// Removes the proposal `proposal_id` without resolving it. Returns
    /// whether it was open.
    pub fn expire(&mut self, proposal_id: u64) -> (was_open: bool)
        ensures
            final(self)@ == expire_step(old(self)@, proposal_id),
            was_open == old(self)@.open.contains_key(proposal_id),
            final(self)@.wf(),
    {
        proof {
            use_type_invariant(&*self);
        }
        let mut proposals = self.take_proposals();
        let removed = proposals.remove(&proposal_id);
        self.put_proposals(proposals);
        proof {
            assert(self@.open =~= expire_step(old(self)@, proposal_id).open);
        }
        removed.is_some()
    }
}

impl Default for VoteTallyStore {
    /// A store that resolves a proposal on its first vote.
    fn default() -> (store: VoteTallyStore)
        ensures
            store@ == TallyModel::empty(1),
            store@.wf(),
    {
        VoteTallyStore::new(1)
    }
}

} // verus!
