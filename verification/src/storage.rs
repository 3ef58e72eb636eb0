//! The ledger's durable form: a JSON object that maps each user's numeral to
//! an object with the user's accumulated seconds and open session start.

use crate::decimal::decimal;
use crate::decimal::format_u64;
use crate::decimal::lemma_decimal_injective;
use crate::decimal::lemma_numeral_value_of_decimal;
use crate::decimal::numeral_value;
use crate::decimal::parse_u64;
use crate::ledger::distinct_users;
use crate::ledger::has_user;
use crate::ledger::Ledger;
use crate::ledger::UserPresenceRecord;
use crate::text::same_text;
use std::collections::BTreeMap;
use vstd::prelude::*;
use vstd::string::StringExecFns;

verus! {

/// The error type of `serde_json`. The library only ever asks whether there
/// was one.
#[verifier::external_type_specification]
#[verifier::external_body]
pub struct ExJsonError(serde_json::Error);

/// The ledger could not be made durable.
#[derive(Clone, Copy, Debug, PartialEq, Eq)]
pub enum PersistenceError {
    /// The ledger could not be written out as text.
    Encode,
    /// The text could not be stored.
    Write,
}

/// What `serde_json::from_str` makes of a text when asked for an object of
/// objects of integers: for each outer key, its key and the inner object's
/// fields, each ordered by key; `None` where it reports an error.
pub uninterp spec fn stored_users(text: Seq<char>) -> Option<Seq<(Seq<char>, Seq<(Seq<char>, i128)>)>>;

/// The text that `serde_json::to_string` writes for an object of objects of
/// integers with these keys and fields; `None` where it reports an error.
pub uninterp spec fn rendered_users(users: Seq<(Seq<char>, Seq<(Seq<char>, i128)>)>) -> Option<
    Seq<char>,
>;

/// No two entries have the same key.
pub open spec fn distinct_keys<T>(entries: Seq<(Seq<char>, T)>) -> bool {
    forall|i: int, j: int|
        0 <= i < j < entries.len() ==> (#[trigger] entries[i]).0 != (#[trigger] entries[j]).0
}

/// Calls `serde_json::from_str` for a `BTreeMap<String, BTreeMap<String,
/// i128>>`, and lists what it returned in the maps' own order. The parse is a
/// function of the text alone; the contract names its result and claims
/// nothing else of it.
#[verifier::external_body]
fn parse_users(text: &str) -> (parsed: Result<Vec<(String, Vec<(String, i128)>)>, serde_json::Error>)
    ensures
        match parsed {
            Ok(users) => stored_users(text@) == Some(users.deep_view()),
            Err(_) => stored_users(text@) is None,
        },
{
    let users = serde_json::from_str::<BTreeMap<String, BTreeMap<String, i128>>>(text)?;
    Ok(users.into_iter().map(|(key, fields)| (key, fields.into_iter().collect())).collect())
}

/// Calls `serde_json::to_string` on a `BTreeMap<&str, BTreeMap<&str, i128>>`
/// that holds the given keys and fields. What it writes is a function of
/// them alone; the contract names its result and claims nothing else of it.
#[verifier::external_body]
fn render_users(users: &Vec<(String, Vec<(String, i128)>)>) -> (rendered: Result<
    String,
    serde_json::Error,
>)
    requires
        distinct_keys(users.deep_view()),
        forall|i: int| 0 <= i < users.len() ==> distinct_keys(#[trigger] users.deep_view()[i].1),
    ensures
        match rendered {
            Ok(text) => rendered_users(users.deep_view()) == Some(text@),
            Err(_) => rendered_users(users.deep_view()) is None,
        },
{
    let mut object: BTreeMap<&str, BTreeMap<&str, i128>> = BTreeMap::new();
    for (key, fields) in users.iter() {
        object.insert(key.as_str(), fields.iter().map(|(name, value)| (name.as_str(), *value)).collect());
    }
    serde_json::to_string(&object)
}

/// The field that holds a user's accumulated seconds.
pub open spec fn accumulated_field() -> Seq<char> {
    "accumulated_seconds"@
}

/// The field that holds the start of a user's open session; absent when no
/// session is open.
pub open spec fn open_field() -> Seq<char> {
    "open_session_start"@
}

/// The value of the first field called `name`.
pub open spec fn field_value(fields: Seq<(Seq<char>, i128)>, name: Seq<char>) -> Option<i128>
    decreases fields.len(),
{
    if fields.len() == 0 {
        None
    } else if fields[0].0 == name {
        Some(fields[0].1)
    } else {
        field_value(fields.drop_first(), name)
    }
}

/// How a record is stored: under the numeral of the user, with one field for
/// the accumulated seconds and, while a session is open, one for its start.
pub open spec fn encoded_record(record: UserPresenceRecord) -> (Seq<char>, Seq<(Seq<char>, i128)>) {
    (
        decimal(record.user_id as nat),
        match record.open_session_start {
            Some(start) => seq![
                (accumulated_field(), record.accumulated_seconds as i128),
                (open_field(), start as i128),
            ],
            None => seq![(accumulated_field(), record.accumulated_seconds as i128)],
        },
    )
}

/// How a list of records is stored: record by record.
pub open spec fn encoded(records: Seq<UserPresenceRecord>) -> Seq<
    (Seq<char>, Seq<(Seq<char>, i128)>),
> {
    Seq::new(records.len(), |i: int| encoded_record(records[i]))
}

/// The record that a stored entry stands for. The key must be the numeral of
/// a user, the accumulated seconds must be there and fit an unsigned 64-bit
/// number, and the session start, if there, must fit a signed one. Other
/// fields are passed over.
pub open spec fn decoded_record(entry: (Seq<char>, Seq<(Seq<char>, i128)>)) -> Option<
    UserPresenceRecord,
> {
    let user = numeral_value(entry.0);
    let accumulated = field_value(entry.1, accumulated_field());
    let start = field_value(entry.1, open_field());
    if user is None || accumulated is None || !(0 <= accumulated->0 <= u64::MAX) {
        None
    } else if start is Some && !(i64::MIN <= start->0 <= i64::MAX) {
        None
    } else {
        Some(
            UserPresenceRecord {
                user_id: user->0,
                open_session_start: match start {
                    Some(start) => Some(start as i64),
                    None => None,
                },
                accumulated_seconds: accumulated->0 as u64,
            },
        )
    }
}

/// The records that a stored list stands for: each entry must stand for a
/// record, and no two for the same user.
pub open spec fn decoded(users: Seq<(Seq<char>, Seq<(Seq<char>, i128)>)>) -> Option<
    Seq<UserPresenceRecord>,
>
    decreases users.len(),
{
    if users.len() == 0 {
        Some(Seq::empty())
    } else {
        let earlier = decoded(users.drop_last());
        let last = decoded_record(users.last());
        if earlier is None || last is None || has_user(earlier->0, last->0.user_id) {
            None
        } else {
            Some(earlier->0.push(last->0))
        }
    }
}

/// The records with which the engine starts, given what durable storage
/// holds (`None`: nothing is stored). Storage that is missing, is no such
/// object, or holds an entry that stands for no record, gives no records.
pub open spec fn loaded(stored: Option<Seq<char>>) -> Seq<UserPresenceRecord> {
    match stored {
        None => Seq::empty(),
        Some(text) => match stored_users(text) {
            None => Seq::empty(),
            Some(users) => match decoded(users) {
                None => Seq::empty(),
                Some(records) => records,
            },
        },
    }
}

/// How loading went.
#[derive(Clone, Copy, Debug, PartialEq, Eq)]
pub enum LoadOutcome {
    /// Nothing is stored.
    Absent,
    /// What is stored is no JSON object of objects of integers.
    Unparsable,
    /// What is stored is such an object, but some entry of it stands for no
    /// record, or two stand for the same user.
    NotALedger,
    /// What is stored is a ledger, and it was loaded.
    Loaded,
}

/// How loading goes, given what durable storage holds.
pub open spec fn load_outcome(stored: Option<Seq<char>>) -> LoadOutcome {
    match stored {
        None => LoadOutcome::Absent,
        Some(text) => match stored_users(text) {
            None => LoadOutcome::Unparsable,
            Some(users) => match decoded(users) {
                None => LoadOutcome::NotALedger,
                Some(_) => LoadOutcome::Loaded,
            },
        },
    }
}

proof fn lemma_field_names_differ()
    ensures
        accumulated_field() != open_field(),
{
    reveal_strlit("accumulated_seconds");
    reveal_strlit("open_session_start");
    assert(accumulated_field()[0] == 'a');
    assert(open_field()[0] == 'o');
}

proof fn lemma_encoded_record_decodes(record: UserPresenceRecord)
    ensures
        decoded_record(encoded_record(record)) == Some(record),
        distinct_keys(encoded_record(record).1),
{
    lemma_field_names_differ();
    lemma_numeral_value_of_decimal(record.user_id);
    let fields = encoded_record(record).1;
    match record.open_session_start {
        Some(start) => {
            let rest = fields.drop_first();
            assert(rest[0] == (open_field(), start as i128));
            assert(rest.drop_first().len() == 0);
            assert(field_value(rest, open_field()) == Some(start as i128));
            assert(field_value(fields, open_field()) == Some(start as i128));
        },
        None => {
            assert(fields.drop_first().len() == 0);
            assert(field_value(fields.drop_first(), open_field()) is None);
        },
    }
}

/// What is written out reads back as it was: a list of records of distinct
/// users, encoded and then decoded, is that list.
pub proof fn lemma_decoded_encoded(records: Seq<UserPresenceRecord>)
    requires
        distinct_users(records),
    ensures
        decoded(encoded(records)) == Some(records),
    decreases records.len(),
{
    if records.len() == 0 {
        assert(records =~= Seq::empty());
    } else {
        let earlier = records.drop_last();
        assert(encoded(records).drop_last() =~= encoded(earlier));
        assert(encoded(records).last() == encoded_record(records.last()));
        lemma_decoded_encoded(earlier);
        lemma_encoded_record_decodes(records.last());
        if has_user(earlier, records.last().user_id) {
            let k = choose|k: int|
                0 <= k < earlier.len() && #[trigger] earlier[k].user_id == records.last().user_id;
            assert(records[k].user_id != records[records.len() - 1].user_id);
        }
        assert(earlier.push(records.last()) =~= records);
    }
}

fn find_field(fields: &Vec<(String, i128)>, name: &str) -> (value: Option<i128>)
    ensures
        value == field_value(fields.deep_view(), name@),
{
    let mut i: usize = 0;
    proof {
        assert(fields.deep_view().skip(0) =~= fields.deep_view());
    }
    while i < fields.len()
        invariant
            i <= fields.len(),
            field_value(fields.deep_view(), name@) == field_value(
                fields.deep_view().skip(i as int),
                name@,
            ),
        decreases fields.len() - i,
    {
        proof {
            let rest = fields.deep_view().skip(i as int);
            assert(rest[0] == fields.deep_view()[i as int]);
            assert(rest.drop_first() =~= fields.deep_view().skip(i + 1));
        }
        if same_text(fields[i].0.as_str(), name) {
            return Some(fields[i].1);
        }
        i += 1;
    }
    None
}

fn decode_record(key: &String, fields: &Vec<(String, i128)>) -> (record: Option<UserPresenceRecord>)
    ensures
        record == decoded_record((key@, fields.deep_view())),
{
    let user_id: u64 = match parse_u64(key.as_str()) {
        Some(user_id) => user_id,
        None => {
            return None;
        },
    };
    let accumulated: i128 = match find_field(fields, "accumulated_seconds") {
        Some(accumulated) => accumulated,
        None => {
            return None;
        },
    };
    if accumulated < 0 || accumulated > u64::MAX as i128 {
        return None;
    }
    let open_session_start = match find_field(fields, "open_session_start") {
        Some(start) => {
            if start < i64::MIN as i128 || start > i64::MAX as i128 {
                return None;
            }
            Some(start as i64)
        },
        None => None,
    };
    Some(UserPresenceRecord { user_id, open_session_start, accumulated_seconds: accumulated as u64 })
}

/// The ledger that a stored list of users and their fields stands for, if it
/// stands for one.
pub fn decode_users(users: &Vec<(String, Vec<(String, i128)>)>) -> (ledger: Option<Ledger>)
    ensures
        match ledger {
            Some(ledger) => decoded(users.deep_view()) == Some(ledger.records()),
            None => decoded(users.deep_view()) is None,
        },
{
    let mut ledger = Ledger::new();
    let mut i: usize = 0;
    while i < users.len()
        invariant
            i <= users.len(),
            decoded(users.deep_view().take(i as int)) == Some(ledger.records()),
        decreases users.len() - i,
    {
        proof {
            let next = users.deep_view().take(i + 1);
            assert(next.drop_last() =~= users.deep_view().take(i as int));
            assert(next.last() == (users@[i as int].0@, users@[i as int].1.deep_view()));
        }
        let record = match decode_record(&users[i].0, &users[i].1) {
            Some(record) => record,
            None => {
                proof {
                    lemma_decoded_prefix(users.deep_view(), i + 1);
                }
                return None;
            },
        };
        if !ledger.insert(record) {
            proof {
                lemma_decoded_prefix(users.deep_view(), i + 1);
            }
            return None;
        }
        i += 1;
    }
    proof {
        assert(users.deep_view().take(users.len() as int) =~= users.deep_view());
    }
    Some(ledger)
}

/// A list does not decode unless each of its beginnings does.
proof fn lemma_decoded_prefix(users: Seq<(Seq<char>, Seq<(Seq<char>, i128)>)>, k: int)
    requires
        0 <= k <= users.len(),
        decoded(users.take(k)) is None,
    ensures
        decoded(users) is None,
    decreases users.len() - k,
{
    if k < users.len() {
        assert(users.take(k + 1).drop_last() =~= users.take(k));
        lemma_decoded_prefix(users, k + 1);
    } else {
        assert(users.take(k) =~= users);
    }
}

fn encode_record(record: &UserPresenceRecord) -> (entry: (String, Vec<(String, i128)>))
    ensures
        entry.deep_view() == encoded_record(*record),
{
    let mut fields: Vec<(String, i128)> = Vec::new();
    fields.push((String::from_str("accumulated_seconds"), record.accumulated_seconds as i128));
    match record.open_session_start {
        Some(start) => {
            fields.push((String::from_str("open_session_start"), start as i128));
        },
        None => {},
    }
    let entry = (format_u64(record.user_id), fields);
    assert(entry.deep_view().1 =~= encoded_record(*record).1);
    entry
}

/// The list of users and their fields under which records are stored.
pub fn encode_users(records: &Vec<UserPresenceRecord>) -> (users: Vec<(String, Vec<(String, i128)>)>)
    ensures
        users.deep_view() == encoded(records@),
{
    let mut users: Vec<(String, Vec<(String, i128)>)> = Vec::new();
    let mut i: usize = 0;
    while i < records.len()
        invariant
            i <= records.len(),
            users.len() == i,
            users.deep_view() == encoded(records@.take(i as int)),
        decreases records.len() - i,
    {
        let entry = encode_record(&records[i]);
        let ghost before = users;
        users.push(entry);
        proof {
            let after = users.deep_view();
            let expected = encoded(records@.take(i + 1));
            assert(after.len() == i + 1);
            assert forall|k: int| 0 <= k < i + 1 implies after[k] == expected[k] by {
                if k < i {
                    assert(users@[k] == before@[k]);
                    assert(before.deep_view()[k] == encoded(records@.take(i as int))[k]);
                    assert(records@.take(i as int)[k] == records@.take(i + 1)[k]);
                } else {
                    assert(users@[k] == entry);
                }
            }
            assert(after =~= expected);
        }
        i += 1;
    }
    proof {
        assert(records@.take(records.len() as int) =~= records@);
    }
    users
}

/// Loads the ledger with which the engine starts, and says how that went.
/// `stored` is the text that durable storage holds, `None` if it holds
/// nothing. Whatever is stored, a ledger comes back: it is empty unless the
/// outcome is `Loaded`.
pub fn load_users(stored: Option<&str>) -> (loading: (Ledger, LoadOutcome))
    ensures
        loading.0.records() == loaded(
            match stored {
                Some(text) => Some(text@),
                None => None,
            },
        ),
        loading.1 == load_outcome(
            match stored {
                Some(text) => Some(text@),
                None => None,
            },
        ),
{
    let text = match stored {
        Some(text) => text,
        None => {
            return (Ledger::new(), LoadOutcome::Absent);
        },
    };
    let users = match parse_users(text) {
        Ok(users) => users,
        Err(_) => {
            return (Ledger::new(), LoadOutcome::Unparsable);
        },
    };
    match decode_users(&users) {
        Some(ledger) => (ledger, LoadOutcome::Loaded),
        None => (Ledger::new(), LoadOutcome::NotALedger),
    }
}

/// The ledger with which the engine starts: what `load_users` loads, without
/// the outcome.
pub fn get_users(stored: Option<&str>) -> (ledger: Ledger)
    ensures
        ledger.records() == loaded(
            match stored {
                Some(text) => Some(text@),
                None => None,
            },
        ),
{
    load_users(stored).0
}

/// The whole ledger as the text to store.
pub fn set_users(users: &Ledger) -> (stored: Result<String, PersistenceError>)
    ensures
        match stored {
            Ok(text) => rendered_users(encoded(users.records())) == Some(text@),
            Err(error) => error == PersistenceError::Encode && rendered_users(
                encoded(users.records()),
            ) is None,
        },
{
    let records = users.entries();
    let entries = encode_users(&records);
    proof {
        let listed = entries.deep_view();
        assert(listed.len() == entries@.len());
        assert(encoded(records@).len() == records@.len());
        assert forall|i: int, j: int| 0 <= i < j < listed.len() implies (#[trigger] listed[i]).0 != (
        #[trigger] listed[j]).0 by {
            if listed[i].0 == listed[j].0 {
                lemma_decimal_injective(records@[i].user_id as nat, records@[j].user_id as nat);
            }
        }
        assert forall|i: int| 0 <= i < entries.len() implies distinct_keys(
            #[trigger] entries.deep_view()[i].1,
        ) by {
            lemma_encoded_record_decodes(records@[i]);
            assert(listed[i] == encoded(records@)[i]);
        }
    }
    match render_users(&entries) {
        Ok(text) => Ok(text),
        Err(_) => Err(PersistenceError::Encode),
    }
}

} // verus!
