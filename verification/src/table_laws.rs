//! What a table holds and lists, said of its entries.
use vstd::prelude::*;
use vstd::string::*;
use crate::legacy_import::LegacyImportError;
use crate::remote_worker_notification::{
    NotificationProposalRecord, NotificationScope, Notifications, RemoteWorkerNotificationError,
};
use crate::stable_sort::SortKey;
use crate::text;

verus! {

/// A map holds exactly the entries: every one under its key, and nothing under any other.
pub proof fn law_map_holds_the_entries<V>(entries: Seq<(Seq<char>, V)>, i: int, key: Seq<char>)
    requires
        crate::table::ascending(entries),
        0 <= i < entries.len(),
    ensures
        crate::table::as_map(entries).contains_key(entries[i].0),
        crate::table::as_map(entries)[entries[i].0] == entries[i].1,
        (forall|k: int| 0 <= k < entries.len() ==> (#[trigger] entries[k]).0 != key)
            ==> !crate::table::as_map(entries).contains_key(key),
        forall|a: int, b: int|
            0 <= a < b < entries.len() ==> text::lt(
                (#[trigger] entries[a]).0,
                (#[trigger] entries[b]).0,
            ),
{
    let at = crate::table::key_position(entries, entries[i].0);
    assert(crate::table::has_key(entries, entries[i].0));
    assert(0 <= at < entries.len() && entries[at].0 == entries[i].0);
    if at < i {
        assert(text::lt(entries[at].0, entries[i].0));
        text::law_order_irreflexive(entries[i].0);
    }
    if i < at {
        assert(text::lt(entries[i].0, entries[at].0));
        text::law_order_irreflexive(entries[i].0);
    }
}

/// The rows of the entries.
pub open spec fn rows_of<V>(entries: Seq<(Seq<char>, V)>) -> Seq<V> {
    Seq::new(entries.len(), |i: int| entries[i].1)
}

/// What is selected are the rows that are to be kept, in order.
pub proof fn law_selection_is_a_filter<V>(
    entries: Seq<(Seq<char>, V)>,
    keep: spec_fn(V) -> bool,
)
    ensures
        crate::table::select(entries, keep) == rows_of(entries).filter(keep),
    decreases entries.len(),
{
    reveal(Seq::filter);
    if entries.len() > 0 {
        law_selection_is_a_filter(entries.drop_last(), keep);
        assert(rows_of(entries).drop_last() =~= rows_of(entries.drop_last()));
        assert(rows_of(entries).last() == entries.last().1);
    } else {
        assert(rows_of(entries) =~= Seq::<V>::empty());
    }
}

/// An ordered list of a table has every row that is to be kept, and only those.
pub proof fn law_ordered_list_has_what_is_kept<V>(
    list: Seq<V>,
    map: Map<Seq<char>, V>,
    keep: spec_fn(V) -> bool,
    key: Seq<char>,
    i: int,
)
    requires
        crate::table::lists_in_order(list, map, keep),
        0 <= i < list.len(),
    ensures
        map.contains_key(key) && keep(map[key]) ==> list.contains(map[key]),
        keep(list[i]),
        exists|found: Seq<char>| #[trigger] map.contains_key(found) && map[found] == list[i],
{
    let entries = choose|entries: Seq<(Seq<char>, V)>| #[trigger]
        crate::table::ascending(entries) && crate::table::as_map(entries) == map && list
            == crate::table::select(entries, keep);
    law_selection_is_a_filter(entries, keep);
    let rows = rows_of(entries);
    lemma_filter_both_ways(rows, keep);
    assert(rows.filter(keep)[i] == list[i]);
    let from = choose|k: int| 0 <= k < rows.len() && rows[k] == list[i];
    law_map_holds_the_entries(entries, from, key);
    assert(map.contains_key(entries[from].0) && map[entries[from].0] == list[i]);
    if map.contains_key(key) && keep(map[key]) {
        let at = crate::table::key_position(entries, key);
        assert(crate::table::has_key(entries, key));
        assert(rows[at] == map[key]);
    }
}

/// A filter keeps what it is to keep, and only that.
proof fn lemma_filter_both_ways<V>(all: Seq<V>, keep: spec_fn(V) -> bool)
    ensures
        forall|k: int|
            0 <= k < all.len() && keep(#[trigger] all[k]) ==> all.filter(keep).contains(all[k]),
        forall|k: int|
            0 <= k < all.filter(keep).len() ==> keep(#[trigger] all.filter(keep)[k])
                && all.contains(all.filter(keep)[k]),
    decreases all.len(),
{
    reveal(Seq::filter);
    if all.len() > 0 {
        let shorter = all.drop_last();
        lemma_filter_both_ways(shorter, keep);
        let kept = all.filter(keep);
        let before = shorter.filter(keep);
        assert forall|k: int| 0 <= k < all.len() && keep(#[trigger] all[k]) implies kept.contains(
            all[k],
        ) by {
            if k < shorter.len() {
                assert(shorter[k] == all[k]);
                assert(before.contains(shorter[k]));
                let j = choose|j: int| 0 <= j < before.len() && before[j] == all[k];
                assert(kept[j] == all[k]);
            } else {
                assert(kept[kept.len() - 1] == all[k]);
            }
        }
        assert forall|k: int| 0 <= k < kept.len() implies keep(#[trigger] kept[k]) && all.contains(
            kept[k],
        ) by {
            if k < before.len() {
                assert(kept[k] == before[k]);
                assert(shorter.contains(before[k]));
                let j = choose|j: int| 0 <= j < shorter.len() && shorter[j] == before[k];
                assert(all[j] == kept[k]);
            } else {
                assert(all[all.len() - 1] == kept[k]);
            }
        }
    }
}

/// Rows are ordered by their rank first, and by their name where the ranks are the same.
pub proof fn law_rank_goes_before_the_name(a: SortKey, b: SortKey)
    ensures
        a.rank < b.rank ==> crate::stable_sort::key_lt(a, b) && !crate::stable_sort::key_lt(b, a),
        a.rank == b.rank ==> (crate::stable_sort::key_lt(a, b) <==> text::lt(a.name@, b.name@)),
{
}

/// The notifications of a scope are those of its organization and workspace, every one of them and
/// no other; a record of another version is never handed out.
pub proof fn law_scope_lists_its_own_records(
    state: Notifications,
    scope: NotificationScope,
    list: Vec<NotificationProposalRecord>,
    key: Seq<char>,
    i: int,
)
    requires
        crate::notification_repository::records_result(state, scope, Ok(list)),
        0 <= i < list@.len(),
    ensures
        list@[i].scope.organization_id.value@ == scope.organization_id.value@,
        list@[i].scope.workspace_id.value@ == scope.workspace_id.value@,
        list@[i].schema_version == 1,
        state.proposals.contains_key(key) && state.proposals[key].scope.organization_id.value@
            == scope.organization_id.value@ && state.proposals[key].scope.workspace_id.value@
            == scope.workspace_id.value@ ==> list@.contains(state.proposals[key]),
{
    let keep = |record: NotificationProposalRecord|
        crate::notification_repository::owns(scope, record);
    law_ordered_list_has_what_is_kept(list@, state.proposals, keep, key, i);
}

/// A list that is not handed out names a record of the scope with another version, and that version.
pub proof fn law_outdated_record_is_named(
    state: Notifications,
    scope: NotificationScope,
    error: RemoteWorkerNotificationError,
) -> (r: (Seq<char>, u16))
    requires
        crate::notification_repository::records_result(state, scope, Err(error)),
    ensures
        error is Database,
        r.1 != 1,
        error->Database_reason@ == "notification proposal "@ + r.0 + " has schema version "@
            + text::decimal(r.1 as nat) + ", expected "@ + text::decimal(1),
        exists|key: Seq<char>| #[trigger]
            state.proposals.contains_key(key) && state.proposals[key].delivery_id@ == r.0
                && state.proposals[key].schema_version == r.1
                && state.proposals[key].scope.organization_id.value@
                == scope.organization_id.value@ && state.proposals[key].scope.workspace_id.value@
                == scope.workspace_id.value@,
{
    let (list, at) = choose|list: Seq<NotificationProposalRecord>, at: int|
        {
            &&& #[trigger] crate::notification_repository::is_record_list(list, state, scope)
            &&& #[trigger] crate::notification_repository::is_first_outdated(list, at)
            &&& error matches RemoteWorkerNotificationError::Database { reason }
            &&& reason@ == crate::notification_repository::version_words(
                list[at].delivery_id@,
                list[at].schema_version,
            )
        };
    let keep = |record: NotificationProposalRecord|
        crate::notification_repository::owns(scope, record);
    law_ordered_list_has_what_is_kept(list, state.proposals, keep, Seq::empty(), at);
    (list[at].delivery_id@, list[at].schema_version)
}

/// A store that could be read is its bytes; one that could not is refused by its path and the reason.
pub proof fn law_stores_are_read_as_they_are(
    path: Seq<char>,
    read: Result<Vec<u8>, String>,
    r: Result<Vec<u8>, LegacyImportError>,
)
    requires
        crate::legacy_store::bytes_result(path, read, r),
    ensures
        read is Ok <==> r is Ok,
        read is Ok ==> r->Ok_0 == read->Ok_0,
        read is Err ==> r->Err_0 is InvalidStore && r->Err_0->InvalidStore_reason@ == path
            + " is unreadable: "@ + read->Err_0@,
{
}

/// A list of a table, in whatever order, has every row that is to be kept, and only those.
pub proof fn law_list_has_what_is_kept<V>(
    list: Seq<V>,
    map: Map<Seq<char>, V>,
    keep: spec_fn(V) -> bool,
    key: Seq<char>,
    i: int,
)
    requires
        crate::table::lists(list, map, keep),
        0 <= i < list.len(),
    ensures
        map.contains_key(key) && keep(map[key]) ==> list.contains(map[key]),
        keep(list[i]),
        exists|found: Seq<char>| #[trigger] map.contains_key(found) && map[found] == list[i],
{
    let keys = choose|keys: Seq<Seq<char>>|
        {
            &&& keys.len() == list.len()
            &&& keys.no_duplicates()
            &&& forall|i: int|
                0 <= i < keys.len() ==> map.contains_key(#[trigger] keys[i]) && map[keys[i]]
                    == list[i] && keep(list[i])
            &&& forall|key: Seq<char>| #[trigger]
                map.contains_key(key) && keep(map[key]) ==> keys.contains(key)
        };
    assert(map.contains_key(keys[i]) && map[keys[i]] == list[i]);
    if map.contains_key(key) && keep(map[key]) {
        assert(keys.contains(key));
        let k = choose|k: int| 0 <= k < keys.len() && keys[k] == key;
        assert(list[k] == map[key]);
    }
}

/// Of two rows the one with the smaller rank goes first, of equal ranks the one with the smaller
/// name, and of equal keys the one that stood first.
pub proof fn law_equal_rows_stay_in_order(keys: Seq<SortKey>, i: int, j: int)
    requires
        0 <= i < keys.len(),
        0 <= j < keys.len(),
        i != j,
    ensures
        keys[i].rank < keys[j].rank ==> crate::stable_sort::precedes(keys, i, j)
            && !crate::stable_sort::precedes(keys, j, i),
        keys[i].rank == keys[j].rank && text::lt(keys[i].name@, keys[j].name@)
            ==> crate::stable_sort::precedes(keys, i, j) && !crate::stable_sort::precedes(
            keys,
            j,
            i,
        ),
        keys[i].rank == keys[j].rank && keys[i].name@ == keys[j].name@ ==> (
        crate::stable_sort::precedes(keys, i, j) <==> i < j),
{
    text::law_order_irreflexive(keys[i].name@);
    if text::lt(keys[i].name@, keys[j].name@) && text::lt(keys[j].name@, keys[i].name@) {
        text::law_order_transitive(keys[i].name@, keys[j].name@, keys[i].name@);
    }
}

} // verus!
