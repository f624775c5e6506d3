//! Reads the legacy stores: bounded files that hold one JSON object each.
use vstd::prelude::*;
use vstd::string::*;
use crate::legacy_import::{
    LegacyImportError, ASSIGNMENTS_STORE_KEY, MAX_JSON_SOURCE_ENTRIES, MAX_LEGACY_JSON_BYTES,
    TODOS_STORE_KEY_PREFIX,
};
use crate::outside;
use crate::table::Table;
use crate::text;

verus! {

/// A member of a store: its key and, where its value is an array, the JSON of each entry.
pub type Member = (String, Option<Vec<String>>);

/// What a member of a store says.
pub type MemberView = (Seq<char>, Option<Seq<Seq<char>>>);

/// The error says that a file is larger than a store can be.
pub open spec fn is_oversized(error: LegacyImportError, path: Seq<char>) -> bool {
    error matches LegacyImportError::InvalidStore { reason } && reason@ == path + " exceeds the "@
        + text::decimal(MAX_LEGACY_JSON_BYTES as nat) + " byte store cap"@
}

/// Why a file is not read: it is larger than a store can be.
fn check_store_size(path: &str, bytes: u64) -> (r: Result<(), LegacyImportError>)
    ensures
        match r {
            Ok(_) => bytes <= MAX_LEGACY_JSON_BYTES,
            Err(error) => bytes > MAX_LEGACY_JSON_BYTES && is_oversized(error, path@),
        },
{
    if bytes <= MAX_LEGACY_JSON_BYTES {
        return Ok(());
    }
    let cap: String = text::numeral(MAX_LEGACY_JSON_BYTES);
    let mut reason: String = text::joined(path, " exceeds the ");
    reason.append(&cap);
    reason.append(" byte store cap");
    Err(LegacyImportError::InvalidStore { reason })
}

/// The error says that a file cannot be read, and why.
pub open spec fn is_unreadable(error: LegacyImportError, path: Seq<char>, why: Seq<char>) -> bool {
    error matches LegacyImportError::InvalidStore { reason } && reason@ == path
        + " is unreadable: "@ + why
}

/// The error of a file that cannot be read.
fn unreadable(path: &str, why: &str) -> (r: LegacyImportError)
    ensures
        is_unreadable(r, path@, why@),
{
    let mut reason: String = text::joined(path, " is unreadable: ");
    reason.append(why);
    LegacyImportError::InvalidStore { reason }
}

/// What comes of a read: its bytes, or the error of a file that cannot be read.
pub open spec fn bytes_result(
    path: Seq<char>,
    read: Result<Vec<u8>, String>,
    r: Result<Vec<u8>, LegacyImportError>,
) -> bool {
    match read {
        Ok(bytes) => r == Ok::<Vec<u8>, LegacyImportError>(bytes),
        Err(why) => r matches Err(error) && is_unreadable(error, path, why@),
    }
}

/// Reads a store whose size was looked up. A file without a size or with too large a one is not
/// read at all.
pub fn read_bounded_store<F: Fn() -> Result<Vec<u8>, String>>(
    path: &str,
    size: Result<u64, String>,
    read: F,
) -> (r: Result<Vec<u8>, LegacyImportError>)
    requires
        call_requires(read, ()),
    ensures
        match size {
            Err(why) => r matches Err(error) && is_unreadable(error, path@, why@),
            Ok(bytes) => if bytes > MAX_LEGACY_JSON_BYTES {
                r matches Err(error) && is_oversized(error, path@)
            } else {
                exists|outcome: Result<Vec<u8>, String>| #[trigger]
                    call_ensures(read, (), outcome) && bytes_result(path@, outcome, r)
            },
        },
{
    let bytes: u64 = match size {
        Ok(bytes) => bytes,
        Err(why) => {
            return Err(unreadable(path, &why));
        },
    };
    match check_store_size(path, bytes) {
        Ok(_) => {},
        Err(error) => {
            return Err(error);
        },
    }
    let outcome: Result<Vec<u8>, String> = read();
    let ghost seen = outcome;
    let r: Result<Vec<u8>, LegacyImportError> = match outcome {
        Ok(bytes) => Ok(bytes),
        Err(why) => Err(unreadable(path, &why)),
    };
    assert(call_ensures(read, (), seen) && bytes_result(path@, seen, r));
    r
}

/// Why an array is not read: it has more entries than a store can have.
pub open spec fn cap_words(what: Seq<char>) -> Seq<char> {
    what + " exceeds the "@ + text::decimal(MAX_JSON_SOURCE_ENTRIES as nat) + " entry cap"@
}

/// Checks the length of an array.
pub fn bounded_entries(entries: &Vec<String>, what: &str) -> (r: Result<(), LegacyImportError>)
    ensures
        match r {
            Ok(_) => entries@.len() <= MAX_JSON_SOURCE_ENTRIES,
            Err(LegacyImportError::InvalidStore { reason }) => entries@.len()
                > MAX_JSON_SOURCE_ENTRIES && reason@ == cap_words(what@),
            Err(_) => false,
        },
{
    if entries.len() <= MAX_JSON_SOURCE_ENTRIES {
        return Ok(());
    }
    let cap: String = text::numeral(MAX_JSON_SOURCE_ENTRIES as u64);
    let mut reason: String = text::joined(what, " exceeds the ");
    reason.append(&cap);
    reason.append(" entry cap");
    Err(LegacyImportError::InvalidStore { reason })
}

/// Where the first member of a key stands; the length of the list where there is none.
pub open spec fn member_at(members: Seq<MemberView>, key: Seq<char>) -> nat
    decreases members.len(),
{
    if members.len() == 0 || members[0].0 == key {
        0
    } else {
        1 + member_at(members.drop_first(), key)
    }
}

/// A member of the key stands there, and none before.
proof fn lemma_member_at(members: Seq<MemberView>, key: Seq<char>, at: int)
    requires
        0 <= at <= members.len(),
        forall|k: int| 0 <= k < at ==> (#[trigger] members[k]).0 != key,
        at < members.len() ==> members[at].0 == key,
    ensures
        member_at(members, key) == at,
    decreases members.len(),
{
    if at > 0 {
        let rest = members.drop_first();
        assert forall|k: int| 0 <= k < at - 1 implies (#[trigger] rest[k]).0 != key by {
            assert(rest[k] == members[k + 1]);
        }
        lemma_member_at(rest, key, at - 1);
    }
}

/// What the assignments store holds: nothing where its member is absent, and otherwise the entries
/// of an array that is not too long.
pub open spec fn assignments_result(
    members: Seq<MemberView>,
    r: Result<Vec<String>, LegacyImportError>,
) -> bool {
    let at = member_at(members, ASSIGNMENTS_STORE_KEY@);
    if at >= members.len() {
        r matches Ok(entries) && entries@.len() == 0
    } else {
        match members[at as int].1 {
            None => r matches Err(LegacyImportError::InvalidStore { reason }) && reason@
                == "the assignments key must hold an array"@,
            Some(array) => if array.len() > MAX_JSON_SOURCE_ENTRIES {
                r matches Err(LegacyImportError::InvalidStore { reason }) && reason@ == cap_words(
                    "the assignment source"@,
                )
            } else {
                r matches Ok(entries) && text::views(entries@) == array
            },
        }
    }
}

/// The entries of the assignments store.
pub fn assignment_entries(members: &Vec<Member>) -> (r: Result<Vec<String>, LegacyImportError>)
    ensures
        assignments_result(outside::members_view(members@), r),
{
    let ghost seen = outside::members_view(members@);
    let mut i: usize = 0;
    while i < members.len()
        invariant
            i <= members@.len(),
            seen == outside::members_view(members@),
            forall|k: int| 0 <= k < i ==> (#[trigger] seen[k]).0 != ASSIGNMENTS_STORE_KEY@,
        decreases members@.len() - i,
    {
        if text::same(&members[i].0, ASSIGNMENTS_STORE_KEY) {
            proof {
                lemma_member_at(seen, ASSIGNMENTS_STORE_KEY@, i as int);
            }
            let entries: &Vec<String> = match &members[i].1 {
                Some(entries) => entries,
                None => {
                    return Err(
                        LegacyImportError::InvalidStore {
                            reason: "the assignments key must hold an array".to_owned(),
                        },
                    );
                },
            };
            assert(seen[i as int].1 == Some(text::views(entries@)));
            match bounded_entries(entries, "the assignment source") {
                Ok(_) => {},
                Err(error) => {
                    return Err(error);
                },
            }
            return Ok(text::copy_all(entries));
        }
        assert(seen[i as int].0 == members@[i as int].0@);
        i = i + 1;
    }
    proof {
        lemma_member_at(seen, ASSIGNMENTS_STORE_KEY@, i as int);
    }
    Ok(Vec::new())
}

/// The words for bytes that hold no JSON object.
fn not_json(path: &str, words: &str) -> (r: LegacyImportError)
    ensures
        r matches LegacyImportError::InvalidStore { reason } && reason@ == path@
            + " is not valid JSON: "@ + words@,
{
    let mut reason: String = text::joined(path, " is not valid JSON: ");
    reason.append(words);
    LegacyImportError::InvalidStore { reason }
}

/// Reads the assignments store.
pub fn read_assignments_store(path: &str, bytes: &[u8]) -> (r: Result<
    Vec<String>,
    LegacyImportError,
>)
    ensures
        match outside::json_members(bytes@) {
            Ok(members) => assignments_result(members, r),
            Err(words) => r matches Err(LegacyImportError::InvalidStore { reason }) && reason@
                == path@ + " is not valid JSON: "@ + words,
        },
{
    match outside::parse_json_members(bytes) {
        Ok(members) => assignment_entries(&members),
        Err(words) => Err(not_json(path, &words)),
    }
}

/// The member holds the todos of a session.
pub open spec fn is_session(key: Seq<char>) -> bool {
    text::begins_with(key, TODOS_STORE_KEY_PREFIX@)
}

/// The session of a key.
pub open spec fn session_of(key: Seq<char>) -> Seq<char> {
    key.skip(TODOS_STORE_KEY_PREFIX@.len() as int)
}

/// How a session is named in an error.
pub open spec fn session_words(key: Seq<char>) -> Seq<char> {
    "todo session '"@ + key + "'"@
}

/// What is wrong with a member of the todos store.
pub open spec fn session_fault(member: MemberView) -> Option<Seq<char>> {
    if !is_session(member.0) {
        None
    } else {
        match member.1 {
            None => Some(session_words(member.0) + " must hold an array"@),
            Some(array) => if array.len() > MAX_JSON_SOURCE_ENTRIES {
                Some(cap_words(session_words(member.0)))
            } else {
                None
            },
        }
    }
}

/// What is wrong with the todos store: the fault of its first faulty member.
pub open spec fn todos_fault(members: Seq<MemberView>) -> Option<Seq<char>>
    decreases members.len(),
{
    if members.len() == 0 {
        None
    } else {
        let earlier = todos_fault(members.drop_last());
        if earlier is Some {
            earlier
        } else {
            session_fault(members.last())
        }
    }
}

/// The entries of each session.
pub open spec fn sessions_of(members: Seq<MemberView>) -> Map<Seq<char>, Seq<Seq<char>>>
    decreases members.len(),
{
    if members.len() == 0 {
        Map::empty()
    } else {
        let earlier = sessions_of(members.drop_last());
        let last = members.last();
        if is_session(last.0) && last.1 is Some {
            earlier.insert(session_of(last.0), last.1->0)
        } else {
            earlier
        }
    }
}

/// What the todos store holds.
pub open spec fn todos_result(
    members: Seq<MemberView>,
    r: Result<Table<Vec<String>>, LegacyImportError>,
) -> bool {
    match r {
        Ok(sessions) => {
            &&& todos_fault(members) is None
            &&& sessions.wf()
            &&& sessions@.map_values(|entries: Vec<String>| text::views(entries@)) == sessions_of(
                members,
            )
        },
        Err(LegacyImportError::InvalidStore { reason }) => todos_fault(members) == Some(reason@),
        Err(_) => false,
    }
}

/// A first fault stays the first fault.
proof fn lemma_fault_stays(members: Seq<MemberView>, at: int)
    requires
        0 <= at <= members.len(),
        todos_fault(members.take(at)) is Some,
    ensures
        todos_fault(members) == todos_fault(members.take(at)),
    decreases members.len(),
{
    if at == members.len() {
        assert(members.take(at) =~= members);
    } else {
        assert(members.drop_last().take(at) =~= members.take(at));
        lemma_fault_stays(members.drop_last(), at);
    }
}

/// The entries of each session, in the order of the sessions.
pub fn todo_sessions(members: &Vec<Member>) -> (r: Result<Table<Vec<String>>, LegacyImportError>)
    ensures
        todos_result(outside::members_view(members@), r),
{
    let ghost seen = outside::members_view(members@);
    let mut sessions: Table<Vec<String>> = Table::new();
    let mut i: usize = 0;
    assert(seen.take(0) =~= Seq::empty());
    assert(sessions@.map_values(|entries: Vec<String>| text::views(entries@)) =~= Map::empty());
    while i < members.len()
        invariant
            i <= members@.len(),
            seen == outside::members_view(members@),
            sessions.wf(),
            todos_fault(seen.take(i as int)) is None,
            sessions@.map_values(|entries: Vec<String>| text::views(entries@)) == sessions_of(
                seen.take(i as int),
            ),
        decreases members@.len() - i,
    {
        let key: &String = &members[i].0;
        proof {
            assert(seen.take(i + 1).drop_last() =~= seen.take(i as int));
            assert(seen.take(i + 1).last() == seen[i as int]);
            assert(seen[i as int].0 == key@);
        }
        if text::starts(key, TODOS_STORE_KEY_PREFIX) {
            let mut name: String = text::joined("todo session '", key);
            name.append("'");
            let entries: &Vec<String> = match &members[i].1 {
                Some(entries) => entries,
                None => {
                    name.append(" must hold an array");
                    proof {
                        assert(seen[i as int].1 is None);
                        lemma_fault_stays(seen, i + 1);
                    }
                    return Err(LegacyImportError::InvalidStore { reason: name });
                },
            };
            assert(seen[i as int].1 == Some(text::views(entries@)));
            match bounded_entries(entries, &name) {
                Ok(_) => {},
                Err(error) => {
                    proof {
                        lemma_fault_stays(seen, i + 1);
                    }
                    return Err(error);
                },
            }
            let chars: Vec<char> = text::chars_of(key);
            let prefix: usize = text::chars_of(TODOS_STORE_KEY_PREFIX).len();
            let session: String = text::text_of(&chars, prefix, chars.len());
            proof {
                assert(session@ =~= session_of(key@));
            }
            let ghost before = sessions@;
            let copied: Vec<String> = text::copy_all(entries);
            let ghost added = copied;
            sessions.put(session, copied);
            assert(sessions@.map_values(|entries: Vec<String>| text::views(entries@))
                =~= before.map_values(|entries: Vec<String>| text::views(entries@)).insert(
                session_of(key@),
                text::views(added@),
            ));
        }
        i = i + 1;
    }
    assert(seen.take(i as int) =~= seen);
    Ok(sessions)
}

/// Reads the todos store.
pub fn read_todos_store(path: &str, bytes: &[u8]) -> (r: Result<
    Table<Vec<String>>,
    LegacyImportError,
>)
    ensures
        match outside::json_members(bytes@) {
            Ok(members) => todos_result(members, r),
            Err(words) => r matches Err(LegacyImportError::InvalidStore { reason }) && reason@
                == path@ + " is not valid JSON: "@ + words,
        },
{
    match outside::parse_json_members(bytes) {
        Ok(members) => todo_sessions(&members),
        Err(words) => Err(not_json(path, &words)),
    }
}

} // verus!
