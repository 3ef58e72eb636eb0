use guildkeeper::ledger::Ledger;
use guildkeeper::ledger::PresenceEvent;
use guildkeeper::ledger::UserPresenceRecord;

fn record(user_id: u64, open_session_start: Option<i64>, accumulated_seconds: u64) -> UserPresenceRecord {
    UserPresenceRecord { user_id, open_session_start, accumulated_seconds }
}

#[test]
fn new_ledger_is_empty() {
    let ledger = Ledger::new();
    assert_eq!(ledger.len(), 0);
    assert_eq!(ledger.entries(), vec![]);
    assert_eq!(ledger.get(7), None);
}

#[test]
fn first_join_creates_the_record() {
    let mut ledger = Ledger::new();
    assert_eq!(ledger.apply(7, PresenceEvent::Joined, 100), Some(record(7, Some(100), 0)));
    assert_eq!(ledger.get(7), Some(record(7, Some(100), 0)));
    assert_eq!(ledger.len(), 1);
}

#[test]
fn join_then_leave_accumulates_the_session() {
    let mut ledger = Ledger::new();
    ledger.apply(7, PresenceEvent::Joined, 100);
    assert_eq!(ledger.apply(7, PresenceEvent::Left, 160), Some(record(7, None, 60)));
    assert_eq!(ledger.get(7), Some(record(7, None, 60)));
}

#[test]
fn rejoin_opens_a_fresh_session_and_keeps_the_total() {
    let mut ledger = Ledger::new();
    ledger.apply(7, PresenceEvent::Joined, 100);
    ledger.apply(7, PresenceEvent::Left, 160);
    assert_eq!(ledger.apply(7, PresenceEvent::Joined, 200), Some(record(7, Some(200), 60)));
    assert_eq!(ledger.apply(7, PresenceEvent::Left, 230), Some(record(7, None, 90)));
}

#[test]
fn second_join_keeps_the_first_start() {
    let mut ledger = Ledger::new();
    ledger.apply(7, PresenceEvent::Joined, 100);
    assert_eq!(ledger.apply(7, PresenceEvent::Joined, 130), Some(record(7, Some(100), 0)));
    assert_eq!(ledger.apply(7, PresenceEvent::Left, 160), Some(record(7, None, 60)));
}

#[test]
fn leave_of_an_unknown_user_creates_nothing() {
    let mut ledger = Ledger::new();
    assert_eq!(ledger.apply(7, PresenceEvent::Left, 160), None);
    assert_eq!(ledger.len(), 0);
}

#[test]
fn leave_without_open_session_changes_nothing() {
    let mut ledger = Ledger::new();
    ledger.apply(7, PresenceEvent::Joined, 100);
    ledger.apply(7, PresenceEvent::Left, 160);
    let before = ledger.entries();
    assert_eq!(ledger.apply(7, PresenceEvent::Left, 500), Some(record(7, None, 60)));
    assert_eq!(ledger.entries(), before);
}

#[test]
fn leave_before_the_start_counts_zero_seconds() {
    let mut ledger = Ledger::new();
    ledger.apply(7, PresenceEvent::Joined, 100);
    assert_eq!(ledger.apply(7, PresenceEvent::Left, 40), Some(record(7, None, 0)));
}

#[test]
fn total_is_the_sum_of_the_closed_sessions() {
    let mut ledger = Ledger::new();
    let history: [(PresenceEvent, i64); 7] = [
        (PresenceEvent::Joined, 10),
        (PresenceEvent::Left, 25),
        (PresenceEvent::Left, 30),
        (PresenceEvent::Joined, 40),
        (PresenceEvent::Joined, 50),
        (PresenceEvent::Left, 100),
        (PresenceEvent::Joined, 200),
    ];
    for (event, at) in history {
        ledger.apply(7, event, at);
    }
    assert_eq!(ledger.get(7), Some(record(7, Some(200), 15 + 60)));
}

#[test]
fn users_do_not_affect_each_other() {
    let mut together = Ledger::new();
    together.apply(1, PresenceEvent::Joined, 10);
    together.apply(2, PresenceEvent::Joined, 5);
    together.apply(2, PresenceEvent::Left, 12);
    together.apply(1, PresenceEvent::Left, 30);
    together.apply(3, PresenceEvent::Left, 31);
    together.apply(2, PresenceEvent::Joined, 40);

    let mut alone = Ledger::new();
    alone.apply(1, PresenceEvent::Joined, 10);
    alone.apply(1, PresenceEvent::Left, 30);

    let mut reordered = Ledger::new();
    reordered.apply(2, PresenceEvent::Joined, 5);
    reordered.apply(2, PresenceEvent::Left, 12);
    reordered.apply(2, PresenceEvent::Joined, 40);
    reordered.apply(3, PresenceEvent::Left, 31);
    reordered.apply(1, PresenceEvent::Joined, 10);
    reordered.apply(1, PresenceEvent::Left, 30);

    assert_eq!(together.get(1), Some(record(1, None, 20)));
    assert_eq!(together.get(1), alone.get(1));
    assert_eq!(together.get(1), reordered.get(1));
    assert_eq!(together.get(2), Some(record(2, Some(40), 7)));
    assert_eq!(together.get(2), reordered.get(2));
    assert_eq!(together.get(3), None);
}

#[test]
fn records_keep_the_order_of_first_appearance() {
    let mut ledger = Ledger::new();
    ledger.apply(9, PresenceEvent::Joined, 1);
    ledger.apply(3, PresenceEvent::Joined, 2);
    ledger.apply(9, PresenceEvent::Left, 3);
    ledger.apply(5, PresenceEvent::Joined, 4);
    assert_eq!(
        ledger.entries(),
        vec![record(9, None, 2), record(3, Some(2), 0), record(5, Some(4), 0)]
    );
}

#[test]
fn insert_refuses_a_known_user() {
    let mut ledger = Ledger::new();
    assert!(ledger.insert(record(7, None, 60)));
    assert!(!ledger.insert(record(7, Some(1), 0)));
    assert!(ledger.insert(record(8, Some(5), 1)));
    assert_eq!(ledger.entries(), vec![record(7, None, 60), record(8, Some(5), 1)]);
}

#[test]
fn can_apply_tells_when_the_total_would_not_fit() {
    let mut ledger = Ledger::new();
    assert!(ledger.insert(record(7, Some(0), u64::MAX - 10)));
    assert!(ledger.can_apply(7, PresenceEvent::Left, 10));
    assert!(!ledger.can_apply(7, PresenceEvent::Left, 11));
    assert!(ledger.can_apply(7, PresenceEvent::Joined, 11));
    assert!(ledger.can_apply(8, PresenceEvent::Left, 11));
    assert_eq!(ledger.apply(7, PresenceEvent::Left, 10), Some(record(7, None, u64::MAX)));
    assert!(ledger.can_apply(7, PresenceEvent::Left, i64::MAX));
}

#[test]
fn longest_possible_session_fits() {
    let mut ledger = Ledger::new();
    ledger.apply(7, PresenceEvent::Joined, i64::MIN);
    assert!(ledger.can_apply(7, PresenceEvent::Left, i64::MAX));
    assert_eq!(ledger.apply(7, PresenceEvent::Left, i64::MAX), Some(record(7, None, u64::MAX)));
}
