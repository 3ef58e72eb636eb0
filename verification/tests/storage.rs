use guildkeeper::ledger::Ledger;
use guildkeeper::ledger::PresenceEvent;
use guildkeeper::ledger::UserPresenceRecord;
use guildkeeper::storage::decode_users;
use guildkeeper::storage::encode_users;
use guildkeeper::storage::get_users;
use guildkeeper::storage::load_users;
use guildkeeper::storage::set_users;
use guildkeeper::storage::LoadOutcome;

fn record(user_id: u64, open_session_start: Option<i64>, accumulated_seconds: u64) -> UserPresenceRecord {
    UserPresenceRecord { user_id, open_session_start, accumulated_seconds }
}

#[test]
fn absent_storage_loads_as_empty_ledger() {
    let ledger = get_users(None);
    assert_eq!(ledger.len(), 0);
    assert_eq!(ledger.entries(), vec![]);
}

#[test]
fn empty_text_loads_as_empty_ledger() {
    assert_eq!(get_users(Some("")).entries(), vec![]);
}

#[test]
fn unparsable_text_loads_as_empty_ledger() {
    let texts: [&str; 8] = [
        "not json",
        "{",
        "[]",
        "null",
        "42",
        "{\"7\":{\"accumulated_seconds\":60}} trailing",
        "{\"7\":60}",
        "{\"7\":{\"accumulated_seconds\":\"60\"}}",
    ];
    for text in texts {
        assert_eq!(get_users(Some(text)).entries(), vec![]);
    }
}

#[test]
fn empty_object_loads_as_empty_ledger() {
    assert_eq!(get_users(Some("{}")).entries(), vec![]);
}

#[test]
fn stored_records_are_loaded() {
    let text = "{\"7\":{\"accumulated_seconds\":60},\"12\":{\"accumulated_seconds\":5,\"open_session_start\":100}}";
    let ledger = get_users(Some(text));
    assert_eq!(ledger.len(), 2);
    assert_eq!(ledger.get(7), Some(record(7, None, 60)));
    assert_eq!(ledger.get(12), Some(record(12, Some(100), 5)));
}

#[test]
fn whitespace_and_other_fields_are_passed_over() {
    let text = " {\n \"7\" : { \"nickname_length\" : 4, \"accumulated_seconds\" : 60 }\n}\n";
    assert_eq!(get_users(Some(text)).entries(), vec![record(7, None, 60)]);
}

#[test]
fn negative_session_start_is_loaded() {
    let text = "{\"7\":{\"accumulated_seconds\":0,\"open_session_start\":-5}}";
    assert_eq!(get_users(Some(text)).entries(), vec![record(7, Some(-5), 0)]);
}

#[test]
fn extreme_values_are_loaded() {
    let text = "{\"18446744073709551615\":{\"accumulated_seconds\":18446744073709551615,\"open_session_start\":-9223372036854775808}}";
    assert_eq!(
        get_users(Some(text)).entries(),
        vec![record(u64::MAX, Some(i64::MIN), u64::MAX)]
    );
}

#[test]
fn one_bad_entry_spoils_the_whole_storage() {
    let texts: [&str; 9] = [
        "{\"7\":{\"accumulated_seconds\":60},\"x\":{\"accumulated_seconds\":1}}",
        "{\"7\":{\"accumulated_seconds\":60},\"08\":{\"accumulated_seconds\":1}}",
        "{\"7\":{\"accumulated_seconds\":60},\"-8\":{\"accumulated_seconds\":1}}",
        "{\"7\":{\"accumulated_seconds\":60},\"18446744073709551616\":{\"accumulated_seconds\":1}}",
        "{\"7\":{\"accumulated_seconds\":60},\"8\":{}}",
        "{\"7\":{\"accumulated_seconds\":60},\"8\":{\"open_session_start\":5}}",
        "{\"7\":{\"accumulated_seconds\":60},\"8\":{\"accumulated_seconds\":-1}}",
        "{\"7\":{\"accumulated_seconds\":60},\"8\":{\"accumulated_seconds\":18446744073709551616}}",
        "{\"7\":{\"accumulated_seconds\":60},\"8\":{\"accumulated_seconds\":1,\"open_session_start\":9223372036854775808}}",
    ];
    for text in texts {
        assert_eq!(get_users(Some(text)).entries(), vec![]);
    }
}

#[test]
fn empty_ledger_is_stored_as_empty_object() {
    assert_eq!(set_users(&Ledger::new()), Ok("{}".to_string()));
}

#[test]
fn ledger_is_stored_as_object_of_objects() {
    let mut ledger = Ledger::new();
    ledger.apply(7, PresenceEvent::Joined, 100);
    ledger.apply(7, PresenceEvent::Left, 160);
    ledger.apply(12, PresenceEvent::Joined, 170);
    assert_eq!(
        set_users(&ledger),
        Ok(
            "{\"12\":{\"accumulated_seconds\":0,\"open_session_start\":170},\"7\":{\"accumulated_seconds\":60}}"
                .to_string()
        )
    );
}

#[test]
fn extreme_values_are_stored() {
    let mut ledger = Ledger::new();
    assert!(ledger.insert(record(u64::MAX, Some(i64::MIN), u64::MAX)));
    assert_eq!(
        set_users(&ledger),
        Ok(
            "{\"18446744073709551615\":{\"accumulated_seconds\":18446744073709551615,\"open_session_start\":-9223372036854775808}}"
                .to_string()
        )
    );
}

#[test]
fn what_is_stored_loads_back() {
    let mut ledger = Ledger::new();
    ledger.apply(3, PresenceEvent::Joined, -50);
    ledger.apply(1, PresenceEvent::Joined, 10);
    ledger.apply(3, PresenceEvent::Left, 25);
    ledger.apply(2, PresenceEvent::Joined, 30);
    ledger.apply(2, PresenceEvent::Left, 31);
    ledger.apply(2, PresenceEvent::Joined, 40);
    let text = set_users(&ledger).unwrap();
    let loaded = get_users(Some(&text));
    assert_eq!(loaded.len(), 3);
    for user in [1u64, 2, 3] {
        assert_eq!(loaded.get(user), ledger.get(user));
    }
    assert_eq!(set_users(&loaded), Ok(text));
}

fn stored(key: &str, fields: &[(&str, i128)]) -> (String, Vec<(String, i128)>) {
    (key.to_string(), fields.iter().map(|(name, value)| (name.to_string(), *value)).collect())
}

#[test]
fn loading_says_how_it_went() {
    let (ledger, outcome) = load_users(None);
    assert_eq!((ledger.entries(), outcome), (vec![], LoadOutcome::Absent));
    let (ledger, outcome) = load_users(Some("not json"));
    assert_eq!((ledger.entries(), outcome), (vec![], LoadOutcome::Unparsable));
    let (ledger, outcome) = load_users(Some("{\"7\":{\"duration\":60,\"timestamp\":0}}"));
    assert_eq!((ledger.entries(), outcome), (vec![], LoadOutcome::NotALedger));
    let (ledger, outcome) = load_users(Some("{\"x\":{\"accumulated_seconds\":60}}"));
    assert_eq!((ledger.entries(), outcome), (vec![], LoadOutcome::NotALedger));
    let (ledger, outcome) = load_users(Some("{}"));
    assert_eq!((ledger.entries(), outcome), (vec![], LoadOutcome::Loaded));
    let (ledger, outcome) = load_users(Some("{\"7\":{\"accumulated_seconds\":60}}"));
    assert_eq!((ledger.entries(), outcome), (vec![record(7, None, 60)], LoadOutcome::Loaded));
}

#[test]
fn records_are_encoded_under_their_numerals() {
    assert_eq!(encode_users(&vec![]), vec![]);
    assert_eq!(
        encode_users(&vec![record(12, Some(-3), 5), record(7, None, u64::MAX)]),
        vec![
            stored("12", &[("accumulated_seconds", 5), ("open_session_start", -3)]),
            stored("7", &[("accumulated_seconds", 18446744073709551615)]),
        ]
    );
}

#[test]
fn stored_users_are_decoded_in_their_order() {
    let users = vec![
        stored("12", &[("accumulated_seconds", 5), ("open_session_start", -3)]),
        stored("7", &[("other", 1), ("accumulated_seconds", 60)]),
    ];
    let ledger = decode_users(&users).expect("every entry stands for a record");
    assert_eq!(ledger.entries(), vec![record(12, Some(-3), 5), record(7, None, 60)]);
    assert_eq!(decode_users(&vec![]).expect("no entry is a ledger").entries(), vec![]);
}

#[test]
fn first_field_of_a_name_counts() {
    let users = vec![stored("7", &[("accumulated_seconds", 1), ("accumulated_seconds", 2)])];
    let ledger = decode_users(&users).expect("the entry stands for a record");
    assert_eq!(ledger.entries(), vec![record(7, None, 1)]);
}

#[test]
fn entries_that_stand_for_no_record_are_refused() {
    let refused = vec![
        vec![stored("", &[("accumulated_seconds", 1)])],
        vec![stored("07", &[("accumulated_seconds", 1)])],
        vec![stored("7", &[])],
        vec![stored("7", &[("accumulated_seconds", -1)])],
        vec![stored("7", &[("accumulated_seconds", 18446744073709551616)])],
        vec![stored("7", &[("accumulated_seconds", 1), ("open_session_start", 9223372036854775808)])],
        vec![stored("7", &[("accumulated_seconds", 1), ("open_session_start", -9223372036854775809)])],
        vec![stored("7", &[("accumulated_seconds", 1)]), stored("7", &[("accumulated_seconds", 2)])],
        vec![stored("7", &[("accumulated_seconds", 1)]), stored("x", &[("accumulated_seconds", 2)])],
    ];
    for users in refused {
        assert!(decode_users(&users).is_none());
    }
}

#[test]
fn decoding_undoes_encoding() {
    let records = vec![
        record(0, None, 0),
        record(u64::MAX, Some(i64::MIN), u64::MAX),
        record(42, Some(i64::MAX), 7),
    ];
    let ledger = decode_users(&encode_users(&records)).expect("encoded records decode");
    assert_eq!(ledger.entries(), records);
}
