use guildkeeper::coordinator::ActionError;
use guildkeeper::coordinator::InitDecision;
use guildkeeper::coordinator::VoteCoordinator;
use guildkeeper::coordinator::VoteDecision;
use guildkeeper::coordinator::TIMEOUT_SECONDS;
use guildkeeper::notice::Notice;
use guildkeeper::tally::PendingProposal;
use guildkeeper::tally::VoteProposal;
use guildkeeper::tally::VoteTallyStore;

const CHECK_MARK: &str = "\u{2705}";

fn votes_of(store: &VoteTallyStore, proposal_id: u64) -> Option<u64> {
    store.proposal(proposal_id).map(|proposal| proposal.affirmative_count)
}

fn coordinator_with_proposal(threshold: u64, message_id: u64, target: u64) -> VoteCoordinator {
    let mut coordinator = VoteCoordinator::new(threshold);
    coordinator.on_ready(1);
    match coordinator.votekick_init("!timeout <@20>", &vec![target], 1_000) {
        InitDecision::Announce { pending } => coordinator.announcement_posted(pending, message_id),
        InitDecision::UsageError => panic!("the command names a target"),
    }
    coordinator
}

#[test]
fn command_without_mention_is_a_usage_error() {
    let coordinator = VoteCoordinator::new(1);
    assert_eq!(coordinator.votekick_init("!timeout", &vec![], 5), InitDecision::UsageError);
    assert_eq!(coordinator.votekick_init("!timeout someone", &vec![], 5), InitDecision::UsageError);
    assert_eq!(coordinator.votekick_init("!timeout", &vec![20], 5), InitDecision::UsageError);
    assert_eq!(coordinator.votekick_init("!timeout   ", &vec![20], 5), InitDecision::UsageError);
    assert_eq!(coordinator.store().len(), 0);
}

#[test]
fn command_with_mention_announces_the_first_mentioned() {
    let coordinator = VoteCoordinator::new(1);
    assert_eq!(
        coordinator.votekick_init("!timeout <@20> <@21>", &vec![20, 21], 5),
        InitDecision::Announce { pending: PendingProposal { target_user_id: 20, created_at: 5 } }
    );
    assert_eq!(coordinator.store().len(), 0);
}

#[test]
fn proposal_opens_when_the_announcement_is_posted() {
    let coordinator = coordinator_with_proposal(2, 500, 20);
    assert!(coordinator.store().is_open(500));
    assert_eq!(
        coordinator.store().proposal(500),
        Some(VoteProposal {
            proposal_id: 500,
            target_user_id: 20,
            affirmative_count: 0,
            created_at: 1_000,
        })
    );
}

#[test]
fn default_coordinator_resolves_on_first_vote() {
    let mut coordinator = VoteCoordinator::default();
    coordinator.announcement_posted(PendingProposal { target_user_id: 20, created_at: 0 }, 500);
    assert_eq!(coordinator.store().threshold(), 1);
    assert_eq!(
        coordinator.votekick_vote(500, Some(9), CHECK_MARK, 30),
        VoteDecision::Moderate { guild: 9, target: 20, seconds: 60 }
    );
}

#[test]
fn one_vote_at_threshold_one_moderates_then_later_votes_are_unknown() {
    let mut coordinator = coordinator_with_proposal(1, 500, 20);
    assert_eq!(
        coordinator.votekick_vote(500, Some(9), CHECK_MARK, 30),
        VoteDecision::Moderate { guild: 9, target: 20, seconds: TIMEOUT_SECONDS }
    );
    assert_eq!(VoteCoordinator::moderation_done(20, true), Ok(Notice::Muted { target: 20 }));
    assert_eq!(Notice::Muted { target: 20 }.text(), "<@20> has been muted for 1 minute.");
    assert_eq!(
        coordinator.votekick_vote(500, Some(9), CHECK_MARK, 40),
        VoteDecision::UnknownProposal
    );
    assert!(!coordinator.store().is_open(500));
}

#[test]
fn votes_are_counted_until_the_threshold() {
    let mut coordinator = coordinator_with_proposal(3, 500, 20);
    assert_eq!(coordinator.votekick_vote(500, Some(9), CHECK_MARK, 30), VoteDecision::Counted(1));
    assert_eq!(coordinator.votekick_vote(500, Some(9), CHECK_MARK, 30), VoteDecision::AlreadyCounted);
    assert_eq!(coordinator.votekick_vote(500, Some(9), CHECK_MARK, 31), VoteDecision::Counted(2));
    assert_eq!(
        coordinator.votekick_vote(500, Some(9), CHECK_MARK, 32),
        VoteDecision::Moderate { guild: 9, target: 20, seconds: 60 }
    );
    assert_eq!(coordinator.votekick_vote(500, Some(9), CHECK_MARK, 33), VoteDecision::UnknownProposal);
}

#[test]
fn other_emoji_is_no_vote() {
    let mut coordinator = coordinator_with_proposal(1, 500, 20);
    assert_eq!(coordinator.votekick_vote(500, Some(9), "\u{274C}", 30), VoteDecision::NotAVote);
    assert_eq!(coordinator.votekick_vote(500, Some(9), "", 30), VoteDecision::NotAVote);
    assert_eq!(
        coordinator.votekick_vote(500, Some(9), "\u{2705}\u{2705}", 30),
        VoteDecision::NotAVote
    );
    assert_eq!(votes_of(coordinator.store(), 500), Some(0));
}

#[test]
fn own_reaction_is_no_vote() {
    let mut coordinator = coordinator_with_proposal(1, 500, 20);
    assert_eq!(coordinator.votekick_vote(500, Some(9), CHECK_MARK, 1), VoteDecision::NotAVote);
    assert!(coordinator.store().is_open(500));
    coordinator.on_ready(2);
    assert_eq!(
        coordinator.votekick_vote(500, Some(9), CHECK_MARK, 1),
        VoteDecision::Moderate { guild: 9, target: 20, seconds: 60 }
    );
}

#[test]
fn before_ready_every_user_can_vote() {
    let mut coordinator = VoteCoordinator::new(2);
    coordinator.announcement_posted(PendingProposal { target_user_id: 20, created_at: 0 }, 500);
    assert_eq!(coordinator.votekick_vote(500, Some(9), CHECK_MARK, 1), VoteDecision::Counted(1));
}

#[test]
fn vote_on_untracked_message_is_unknown() {
    let mut coordinator = coordinator_with_proposal(1, 500, 20);
    assert_eq!(
        coordinator.votekick_vote(501, Some(9), CHECK_MARK, 30),
        VoteDecision::UnknownProposal
    );
    assert!(coordinator.store().is_open(500));
}

#[test]
fn resolution_outside_a_guild_cannot_be_enforced() {
    let mut coordinator = coordinator_with_proposal(1, 500, 20);
    assert_eq!(
        coordinator.votekick_vote(500, None, CHECK_MARK, 30),
        VoteDecision::NoGuild { target: 20 }
    );
    assert_eq!(coordinator.votekick_vote(500, Some(9), CHECK_MARK, 31), VoteDecision::UnknownProposal);
}

#[test]
fn failed_moderation_is_an_action_error_and_stays_resolved() {
    let mut coordinator = coordinator_with_proposal(1, 500, 20);
    coordinator.votekick_vote(500, Some(9), CHECK_MARK, 30);
    assert_eq!(
        VoteCoordinator::moderation_done(20, false),
        Err(ActionError { target_user_id: 20 })
    );
    assert!(!coordinator.store().is_open(500));
}

#[test]
fn expired_proposal_takes_no_votes() {
    let mut coordinator = coordinator_with_proposal(1, 500, 20);
    assert!(coordinator.expire(500));
    assert!(!coordinator.expire(500));
    assert_eq!(coordinator.votekick_vote(500, Some(9), CHECK_MARK, 30), VoteDecision::UnknownProposal);
}

#[test]
fn notices_are_written_out() {
    assert_eq!(Notice::Usage.text(), "Please add mention user and retry.");
    assert_eq!(
        Notice::Announcement { target: 20 }.text(),
        "Timeout: <@20> for 1 min.\n Please vote with a \u{2705} on this message."
    );
    assert_eq!(Notice::Muted { target: 0 }.text(), "<@0> has been muted for 1 minute.");
    assert_eq!(
        Notice::JoinedVoice { user: 7, channel: 3 }.text(),
        "User <@7> joined voice channel <#3>"
    );
    assert_eq!(Notice::LeftVoice { user: 7 }.text(), "User <@7> left voice channel");
    assert_eq!(
        Notice::SwitchedVoice { user: 7, from: 3, to: 18446744073709551615 }.text(),
        "User <@7> switched voice channel from <#3> to <#18446744073709551615>"
    );
}
