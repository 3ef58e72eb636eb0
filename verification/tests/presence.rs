use guildkeeper::ledger::Ledger;
use guildkeeper::ledger::UserPresenceRecord;
use guildkeeper::notice::Notice;
use guildkeeper::presence::classify_change;
use guildkeeper::presence::PresenceTracker;
use guildkeeper::presence::Transition;
use guildkeeper::storage::get_users;
use guildkeeper::storage::PersistenceError;

fn record(user_id: u64, open_session_start: Option<i64>, accumulated_seconds: u64) -> UserPresenceRecord {
    UserPresenceRecord { user_id, open_session_start, accumulated_seconds }
}

#[test]
fn changes_are_classified() {
    assert_eq!(classify_change(None, Some(3)), Transition::Joined { channel: 3 });
    assert_eq!(classify_change(Some(3), None), Transition::Left);
    assert_eq!(classify_change(None, None), Transition::Left);
    assert_eq!(classify_change(Some(3), Some(4)), Transition::Switched { from: 3, to: 4 });
    assert_eq!(classify_change(Some(3), Some(3)), Transition::Unchanged);
}

#[test]
fn join_then_leave_gives_sixty_seconds() {
    let mut tracker = PresenceTracker::new(Ledger::new());
    assert_eq!(
        tracker.on_presence_change(7, None, Some(3), 100),
        Some(Notice::JoinedVoice { user: 7, channel: 3 })
    );
    assert_eq!(tracker.ledger().get(7), Some(record(7, Some(100), 0)));
    assert_eq!(
        tracker.on_presence_change(7, Some(3), None, 160),
        Some(Notice::LeftVoice { user: 7 })
    );
    assert_eq!(tracker.ledger().get(7), Some(record(7, None, 60)));
}

#[test]
fn switch_closes_one_session_and_opens_another() {
    let mut tracker = PresenceTracker::new(Ledger::new());
    tracker.on_presence_change(7, None, Some(3), 100);
    assert_eq!(
        tracker.on_presence_change(7, Some(3), Some(4), 130),
        Some(Notice::SwitchedVoice { user: 7, from: 3, to: 4 })
    );
    assert_eq!(tracker.ledger().get(7), Some(record(7, Some(130), 30)));
    tracker.on_presence_change(7, Some(4), None, 150);
    assert_eq!(tracker.ledger().get(7), Some(record(7, None, 50)));
}

#[test]
fn switch_of_an_unknown_user_opens_a_session() {
    let mut tracker = PresenceTracker::new(Ledger::new());
    assert_eq!(
        tracker.on_presence_change(7, Some(3), Some(4), 130),
        Some(Notice::SwitchedVoice { user: 7, from: 3, to: 4 })
    );
    assert_eq!(tracker.ledger().get(7), Some(record(7, Some(130), 0)));
}

#[test]
fn update_within_a_channel_changes_nothing() {
    let mut tracker = PresenceTracker::new(Ledger::new());
    tracker.on_presence_change(7, None, Some(3), 100);
    assert_eq!(tracker.on_persisted(true), Ok(()));
    assert_eq!(tracker.on_presence_change(7, Some(3), Some(3), 120), None);
    assert_eq!(tracker.ledger().get(7), Some(record(7, Some(100), 0)));
    assert!(!tracker.needs_save());
}

#[test]
fn leave_of_an_unknown_user_is_announced_and_changes_nothing() {
    let mut tracker = PresenceTracker::new(Ledger::new());
    assert_eq!(
        tracker.on_presence_change(7, Some(3), None, 160),
        Some(Notice::LeftVoice { user: 7 })
    );
    assert_eq!(tracker.ledger().len(), 0);
}

#[test]
fn tracker_starts_from_the_loaded_ledger() {
    let ledger = get_users(Some("{\"7\":{\"accumulated_seconds\":60,\"open_session_start\":100}}"));
    let mut tracker = PresenceTracker::new(ledger);
    assert!(!tracker.needs_save());
    tracker.on_presence_change(7, Some(3), None, 110);
    assert_eq!(tracker.ledger().get(7), Some(record(7, None, 70)));
}

#[test]
fn every_change_leaves_the_ledger_to_be_stored() {
    let mut tracker = PresenceTracker::new(Ledger::new());
    assert!(!tracker.needs_save());
    tracker.on_presence_change(7, None, Some(3), 100);
    assert!(tracker.needs_save());
    assert_eq!(
        tracker.snapshot(),
        Ok("{\"7\":{\"accumulated_seconds\":0,\"open_session_start\":100}}".to_string())
    );
    assert_eq!(tracker.on_persisted(true), Ok(()));
    assert!(!tracker.needs_save());
}

#[test]
fn failed_write_is_an_error_and_keeps_the_ledger() {
    let mut tracker = PresenceTracker::new(Ledger::new());
    tracker.on_presence_change(7, None, Some(3), 100);
    assert_eq!(tracker.on_persisted(false), Err(PersistenceError::Write));
    assert!(tracker.needs_save());
    assert_eq!(tracker.ledger().get(7), Some(record(7, Some(100), 0)));
    assert_eq!(tracker.on_persisted(true), Ok(()));
    assert!(!tracker.needs_save());
    assert_eq!(tracker.on_persisted(false), Err(PersistenceError::Write));
    assert!(!tracker.needs_save());
}

#[test]
fn can_take_tells_when_the_total_would_not_fit() {
    let mut ledger = Ledger::new();
    assert!(ledger.insert(record(7, Some(0), u64::MAX - 10)));
    let tracker = PresenceTracker::new(ledger);
    assert!(tracker.can_take(7, Some(3), None, 10));
    assert!(!tracker.can_take(7, Some(3), None, 11));
    assert!(!tracker.can_take(7, Some(3), Some(4), 11));
    assert!(tracker.can_take(7, None, Some(4), 11));
    assert!(tracker.can_take(7, Some(4), Some(4), 11));
    assert!(tracker.can_take(8, Some(3), None, 11));
}
