//! A table of rows under text keys, kept in key order.
use vstd::prelude::*;
use crate::text;

verus! {

/// Rows under text keys. The keys are strictly ascending, so no key occurs twice and the rows
/// are walked in key order whatever the order in which they came.
pub struct Table<V> {
    keys: Vec<String>,
    rows: Vec<V>,
}

/// The keys of a sequence of entries are strictly ascending.
pub open spec fn ascending<V>(entries: Seq<(Seq<char>, V)>) -> bool {
    forall|i: int, j: int|
        0 <= i < j < entries.len() ==> text::lt((#[trigger] entries[i]).0, (#[trigger] entries[j]).0)
}

/// The key occurs among the entries.
pub open spec fn has_key<V>(entries: Seq<(Seq<char>, V)>, key: Seq<char>) -> bool {
    exists|i: int| 0 <= i < entries.len() && (#[trigger] entries[i]).0 == key
}

/// The position of a key that occurs among the entries.
pub open spec fn key_position<V>(entries: Seq<(Seq<char>, V)>, key: Seq<char>) -> int {
    choose|i: int| 0 <= i < entries.len() && (#[trigger] entries[i]).0 == key
}

/// The entries as a map from key to row.
pub open spec fn as_map<V>(entries: Seq<(Seq<char>, V)>) -> Map<Seq<char>, V> {
    Map::new(
        |key: Seq<char>| has_key(entries, key),
        |key: Seq<char>| entries[key_position(entries, key)].1,
    )
}

/// The rows that satisfy `keep`, in order.
pub open spec fn select<V>(entries: Seq<(Seq<char>, V)>, keep: spec_fn(V) -> bool) -> Seq<V>
    decreases entries.len(),
{
    if entries.len() == 0 {
        Seq::empty()
    } else if keep(entries.last().1) {
        select(entries.drop_last(), keep).push(entries.last().1)
    } else {
        select(entries.drop_last(), keep)
    }
}

/// In ascending entries a key stands at one position only.
pub proof fn lemma_position_unique<V>(entries: Seq<(Seq<char>, V)>, i: int)
    requires
        ascending(entries),
        0 <= i < entries.len(),
    ensures
        has_key(entries, entries[i].0),
        key_position(entries, entries[i].0) == i,
        as_map(entries).contains_key(entries[i].0),
        as_map(entries)[entries[i].0] == entries[i].1,
{
    let p = key_position(entries, entries[i].0);
    assert(entries[i].0 == entries[i].0);
    assert(0 <= p < entries.len() && entries[p].0 == entries[i].0);
    text::law_order_irreflexive(entries[i].0);
    if p < i {
        assert(text::lt(entries[p].0, entries[i].0));
    } else if i < p {
        assert(text::lt(entries[i].0, entries[p].0));
    }
}

/// Ascending entries are determined by the map they stand for: whatever the order of the
/// insertions, the same rows are walked in the same order.
pub proof fn law_entries_determined_by_map<V>(a: Seq<(Seq<char>, V)>, b: Seq<(Seq<char>, V)>)
    requires
        ascending(a),
        ascending(b),
        as_map(a) == as_map(b),
    ensures
        a == b,
    decreases a.len(),
{
    if a.len() == 0 {
        if b.len() > 0 {
            lemma_position_unique(b, 0);
            assert(as_map(a).contains_key(b[0].0));
        }
        assert(a =~= b);
    } else if b.len() == 0 {
        lemma_position_unique(a, 0);
        assert(as_map(b).contains_key(a[0].0));
    } else {
        let x = a.last();
        let y = b.last();
        lemma_position_unique(a, a.len() - 1);
        lemma_position_unique(b, b.len() - 1);
        assert(has_key(b, x.0));
        assert(has_key(a, y.0));
        let px = key_position(b, x.0);
        let py = key_position(a, y.0);
        assert(0 <= px < b.len() && b[px].0 == x.0);
        assert(0 <= py < a.len() && a[py].0 == y.0);
        if x.0 != y.0 {
            assert(text::lt(b[px].0, y.0));
            assert(text::lt(a[py].0, x.0));
            text::law_order_total(x.0, y.0);
        }
        assert(x.1 == y.1);
        let da = a.drop_last();
        let db = b.drop_last();
        lemma_drop_last_map(a);
        lemma_drop_last_map(b);
        law_entries_determined_by_map(da, db);
        assert(a =~= da.push(x));
        assert(b =~= db.push(y));
    }
}

/// Dropping the last of ascending entries removes its key from the map.
proof fn lemma_drop_last_map<V>(a: Seq<(Seq<char>, V)>)
    requires
        ascending(a),
        a.len() > 0,
    ensures
        ascending(a.drop_last()),
        as_map(a.drop_last()) == as_map(a).remove(a.last().0),
{
    let d = a.drop_last();
    let m = as_map(a).remove(a.last().0);
    assert forall|k: Seq<char>| as_map(d).contains_key(k) == #[trigger] m.contains_key(k) by {
        if has_key(d, k) {
            let p = key_position(d, k);
            assert(d[p].0 == k);
            assert(a[p].0 == k);
            text::law_order_irreflexive(k);
            assert(text::lt(a[p].0, a[a.len() - 1].0));
        }
        if m.contains_key(k) {
            let p = key_position(a, k);
            assert(a[p].0 == k && p < a.len() - 1);
            assert(d[p].0 == k);
        }
    }
    assert forall|k: Seq<char>| #[trigger] m.contains_key(k) implies as_map(d)[k] == m[k] by {
        let p = key_position(d, k);
        assert(has_key(d, k));
        assert(d[p].0 == k && 0 <= p < d.len());
        lemma_position_unique(a, p);
        lemma_position_unique(d, p);
    }
    assert(as_map(d) =~= m);
}

/// Ascending entries have as many keys as there are entries.
proof fn lemma_keys_counted<V>(a: Seq<(Seq<char>, V)>)
    requires
        ascending(a),
    ensures
        as_map(a).dom().finite(),
        as_map(a).dom().len() == a.len(),
    decreases a.len(),
{
    if a.len() == 0 {
        assert(as_map(a).dom() =~= Set::empty());
    } else {
        lemma_drop_last_map(a);
        lemma_keys_counted(a.drop_last());
        lemma_position_unique(a, a.len() - 1);
        let key = a.last().0;
        assert(as_map(a).dom() =~= as_map(a.drop_last()).dom().insert(key));
    }
}

impl<V> Table<V> {
    /// The keys with their rows, in key order.
    pub closed spec fn entries(&self) -> Seq<(Seq<char>, V)> {
        Seq::new(self.keys@.len(), |i: int| (self.keys@[i]@, self.rows@[i]))
    }

    /// Every key has its row and the keys are strictly ascending.
    pub closed spec fn wf(&self) -> bool {
        &&& self.keys@.len() == self.rows@.len()
        &&& ascending(self.entries())
    }

    /// A well-formed table walks its keys in ascending order.
    pub proof fn lemma_wf_ascending(&self)
        requires
            self.wf(),
        ensures
            ascending(self.entries()),
    {
    }
}

impl<V> View for Table<V> {
    type V = Map<Seq<char>, V>;

    open spec fn view(&self) -> Map<Seq<char>, V> {
        as_map(self.entries())
    }
}

impl<V> Table<V> {
    /// A table without rows.
    pub fn new() -> (r: Self)
        ensures
            r.wf(),
            r.entries() == Seq::<(Seq<char>, V)>::empty(),
            r@ == Map::<Seq<char>, V>::empty(),
    {
        let r: Self = Table { keys: Vec::new(), rows: Vec::new() };
        assert(r.entries() =~= Seq::empty());
        assert(r@ =~= Map::empty());
        r
    }

    /// The number of rows.
    pub fn len(&self) -> (r: usize)
        requires
            self.wf(),
        ensures
            r == self.entries().len(),
            r == self@.dom().len(),
    {
        proof {
            lemma_keys_counted(self.entries());
        }
        self.keys.len()
    }

    /// The row at a position.
    pub fn row(&self, i: usize) -> (r: &V)
        requires
            self.wf(),
            i < self.entries().len(),
        ensures
            *r == self.entries()[i as int].1,
    {
        &self.rows[i]
    }

    /// The key at a position.
    pub fn key(&self, i: usize) -> (r: &String)
        requires
            self.wf(),
            i < self.entries().len(),
        ensures
            r@ == self.entries()[i as int].0,
    {
        &self.keys[i]
    }

    /// The first position whose key is not ordered before `key`.
    fn seek(&self, key: &str) -> (r: usize)
        requires
            self.wf(),
        ensures
            r <= self.entries().len(),
            forall|k: int| 0 <= k < r ==> text::lt((#[trigger] self.entries()[k]).0, key@),
            r < self.entries().len() ==> !text::lt(self.entries()[r as int].0, key@),
    {
        let mut i: usize = 0;
        while i < self.keys.len() && text::before(&self.keys[i], key)
            invariant
                self.wf(),
                i <= self.keys@.len(),
                forall|k: int| 0 <= k < i ==> text::lt((#[trigger] self.entries()[k]).0, key@),
            decreases self.keys@.len() - i,
        {
            assert(self.entries()[i as int].0 == self.keys@[i as int]@);
            i = i + 1;
        }
        if i < self.keys.len() {
            assert(self.entries()[i as int].0 == self.keys@[i as int]@);
        }
        i
    }

    /// Either the sought position holds the key, or the key does not occur.
    proof fn lemma_seek(&self, key: Seq<char>, at: int)
        requires
            self.wf(),
            0 <= at <= self.entries().len(),
            forall|k: int| 0 <= k < at ==> text::lt((#[trigger] self.entries()[k]).0, key),
            at < self.entries().len() ==> !text::lt(self.entries()[at].0, key),
        ensures
            self@.contains_key(key) <==> at < self.entries().len() && self.entries()[at].0 == key,
            forall|k: int|
                at <= k < self.entries().len() && (at < self.entries().len() ==> self.entries()[at].0
                    != key) ==> text::lt(key, (#[trigger] self.entries()[k]).0),
    {
        let e = self.entries();
        if at < e.len() && e[at].0 == key {
            lemma_position_unique(e, at);
        } else {
            assert forall|k: int| at <= k < e.len() implies text::lt(key, (#[trigger] e[k]).0) by {
                text::law_order_total(key, e[at].0);
                if k > at {
                    assert(text::lt(e[at].0, e[k].0));
                    text::law_order_transitive(key, e[at].0, e[k].0);
                }
            }
            if has_key(e, key) {
                let p = key_position(e, key);
                assert(e[p].0 == key);
                text::law_order_irreflexive(key);
                if p < at {
                    assert(text::lt(e[p].0, key));
                } else {
                    assert(text::lt(key, e[p].0));
                }
            }
        }
    }

    /// The row under a key.
    pub fn get(&self, key: &str) -> (r: Option<&V>)
        requires
            self.wf(),
        ensures
            match r {
                Some(row) => self@.contains_key(key@) && *row == self@[key@],
                None => !self@.contains_key(key@),
            },
    {
        let at: usize = self.seek(key);
        proof {
            self.lemma_seek(key@, at as int);
        }
        if at < self.keys.len() && text::same(&self.keys[at], key) {
            proof {
                lemma_position_unique(self.entries(), at as int);
            }
            Some(&self.rows[at])
        } else {
            None
        }
    }

    /// Whether a key has a row.
    pub fn has(&self, key: &str) -> (r: bool)
        requires
            self.wf(),
        ensures
            r == self@.contains_key(key@),
    {
        self.get(key).is_some()
    }

    /// Puts a row under a key, in place of the row that stood there.
    pub fn put(&mut self, key: String, row: V)
        requires
            old(self).wf(),
        ensures
            final(self).wf(),
            final(self)@ == old(self)@.insert(key@, row),
    {
        let at: usize = self.seek(&key);
        proof {
            self.lemma_seek(key@, at as int);
        }
        let ghost before = self.entries();
        if at < self.keys.len() && text::same(&self.keys[at], &key) {
            self.rows.set(at, row);
            proof {
                let after = self.entries();
                assert(after =~= before.update(at as int, (key@, row)));
                assert(ascending(after));
                lemma_update_map(before, at as int, row);
            }
        } else {
            let ghost name = key@;
            self.keys.insert(at, key);
            self.rows.insert(at, row);
            proof {
                let after = self.entries();
                assert(after =~= before.insert(at as int, (name, row)));
                lemma_insert_map(before, at as int, name, row);
            }
        }
    }
}

proof fn lemma_update_map<V>(e: Seq<(Seq<char>, V)>, at: int, row: V)
    requires
        ascending(e),
        0 <= at < e.len(),
    ensures
        as_map(e.update(at, (e[at].0, row))) == as_map(e).insert(e[at].0, row),
{
    let key = e[at].0;
    let a = e.update(at, (key, row));
    let m = as_map(e).insert(key, row);
    assert(ascending(a));
    assert forall|k: Seq<char>| as_map(a).contains_key(k) == #[trigger] m.contains_key(k) by {
        if has_key(a, k) {
            let p = key_position(a, k);
            assert(a[p].0 == k);
            assert(e[p].0 == k);
        }
        if m.contains_key(k) {
            if k == key {
                assert(a[at].0 == k);
            } else {
                let p = key_position(e, k);
                assert(e[p].0 == k);
                assert(a[p].0 == k);
            }
        }
    }
    assert forall|k: Seq<char>| #[trigger] m.contains_key(k) implies as_map(a)[k] == m[k] by {
        assert(has_key(a, k));
        let p = key_position(a, k);
        assert(a[p].0 == k && 0 <= p < a.len());
        lemma_position_unique(a, p);
        lemma_position_unique(e, p);
        lemma_position_unique(a, at);
    }
    assert(as_map(a) =~= m);
}

proof fn lemma_insert_map<V>(e: Seq<(Seq<char>, V)>, at: int, key: Seq<char>, row: V)
    requires
        ascending(e),
        0 <= at <= e.len(),
        forall|k: int| 0 <= k < at ==> text::lt((#[trigger] e[k]).0, key),
        forall|k: int| at <= k < e.len() ==> text::lt(key, (#[trigger] e[k]).0),
    ensures
        ascending(e.insert(at, (key, row))),
        as_map(e.insert(at, (key, row))) == as_map(e).insert(key, row),
{
    let a = e.insert(at, (key, row));
    assert forall|i: int, j: int| 0 <= i < j < a.len() implies text::lt(
        (#[trigger] a[i]).0,
        (#[trigger] a[j]).0,
    ) by {
        let x = if i < at { i } else { i - 1 };
        let y = if j < at { j } else { j - 1 };
        if i == at {
            assert(a[j] == e[y]);
        } else if j == at {
            assert(a[i] == e[x]);
        } else {
            assert(a[i] == e[x]);
            assert(a[j] == e[y]);
        }
    }
    let m = as_map(e).insert(key, row);
    assert forall|k: Seq<char>| as_map(a).contains_key(k) == #[trigger] m.contains_key(k) by {
        if has_key(a, k) {
            let p = key_position(a, k);
            assert(a[p].0 == k);
            if p < at {
                assert(e[p].0 == k);
            } else if p > at {
                assert(e[p - 1].0 == k);
            }
        }
        if m.contains_key(k) {
            if k == key {
                assert(a[at].0 == k);
            } else {
                let p = key_position(e, k);
                assert(e[p].0 == k);
                let q = if p < at { p } else { p + 1 };
                assert(a[q].0 == k);
            }
        }
    }
    assert forall|k: Seq<char>| #[trigger] m.contains_key(k) implies as_map(a)[k] == m[k] by {
        assert(has_key(a, k));
        let p = key_position(a, k);
        assert(a[p].0 == k && 0 <= p < a.len());
        lemma_position_unique(a, p);
        if p != at {
            let q = if p < at { p } else { p - 1 };
            lemma_position_unique(e, q);
            assert(e[q] == a[p]);
            if k == key {
                text::law_order_irreflexive(key);
            }
        } else {
            assert(k == key);
        }
    }
    assert(as_map(a) =~= m);
}

/// `list` holds the rows of the map that satisfy `keep`, each under one key, in some order.
pub open spec fn lists<V>(list: Seq<V>, map: Map<Seq<char>, V>, keep: spec_fn(V) -> bool) -> bool {
    exists|keys: Seq<Seq<char>>|
        {
            &&& keys.len() == list.len()
            &&& keys.no_duplicates()
            &&& forall|i: int|
                0 <= i < keys.len() ==> map.contains_key(#[trigger] keys[i]) && map[keys[i]]
                    == list[i] && keep(list[i])
            &&& forall|key: Seq<char>| #[trigger]
                map.contains_key(key) && keep(map[key]) ==> keys.contains(key)
        }
}

/// `list` holds the rows of the map that satisfy `keep`, in key order.
pub open spec fn lists_in_order<V>(
    list: Seq<V>,
    map: Map<Seq<char>, V>,
    keep: spec_fn(V) -> bool,
) -> bool {
    exists|entries: Seq<(Seq<char>, V)>| #[trigger]
        ascending(entries) && as_map(entries) == map && list == select(entries, keep)
}

/// The rows in key order are determined by the map: two lists of them are the same, whatever the
/// order in which the rows came.
pub proof fn law_ordered_list_is_determined_by_map<V>(
    a: Seq<V>,
    b: Seq<V>,
    map: Map<Seq<char>, V>,
    keep: spec_fn(V) -> bool,
)
    requires
        lists_in_order(a, map, keep),
        lists_in_order(b, map, keep),
    ensures
        a == b,
{
    let x = choose|entries: Seq<(Seq<char>, V)>| #[trigger]
        ascending(entries) && as_map(entries) == map && a == select(entries, keep);
    let y = choose|entries: Seq<(Seq<char>, V)>| #[trigger]
        ascending(entries) && as_map(entries) == map && b == select(entries, keep);
    law_entries_determined_by_map(x, y);
}

/// The positions of the entries that satisfy `keep`, in order.
pub open spec fn select_at<V>(entries: Seq<(Seq<char>, V)>, keep: spec_fn(V) -> bool) -> Seq<int>
    decreases entries.len(),
{
    if entries.len() == 0 {
        Seq::empty()
    } else if keep(entries.last().1) {
        select_at(entries.drop_last(), keep).push(entries.len() - 1)
    } else {
        select_at(entries.drop_last(), keep)
    }
}

/// The selected positions ascend and hold the selected rows.
proof fn lemma_select_at<V>(entries: Seq<(Seq<char>, V)>, keep: spec_fn(V) -> bool)
    ensures
        select_at(entries, keep).len() == select(entries, keep).len(),
        forall|i: int|
            0 <= i < select_at(entries, keep).len() ==> 0 <= (#[trigger] select_at(
                entries,
                keep,
            )[i]) < entries.len(),
        forall|i: int|
            0 <= i < select(entries, keep).len() ==> (#[trigger] select(entries, keep)[i])
                == entries[select_at(entries, keep)[i]].1,
        forall|i: int|
            0 <= i < select(entries, keep).len() ==> keep(#[trigger] select(entries, keep)[i]),
        forall|i: int, j: int|
            0 <= i < j < select_at(entries, keep).len() ==> (#[trigger] select_at(
                entries,
                keep,
            )[i]) < (#[trigger] select_at(entries, keep)[j]),
    decreases entries.len(),
{
    if entries.len() > 0 {
        let rest = entries.drop_last();
        lemma_select_at(rest, keep);
        let before = select_at(rest, keep);
        let at = select_at(entries, keep);
        let list = select(entries, keep);
        assert forall|i: int| 0 <= i < at.len() implies 0 <= (#[trigger] at[i]) < entries.len() by {
            if i < before.len() {
                assert(at[i] == before[i]);
            }
        }
        assert forall|i: int| 0 <= i < list.len() implies (#[trigger] list[i])
            == entries[at[i]].1 && keep(list[i]) by {
            if i < before.len() {
                assert(at[i] == before[i]);
                assert(list[i] == select(rest, keep)[i]);
                assert(rest[before[i]] == entries[at[i]]);
            }
        }
        assert forall|i: int, j: int| 0 <= i < j < at.len() implies (#[trigger] at[i]) < (
        #[trigger] at[j]) by {
            assert(at[i] == before[i]);
            if j < before.len() {
                assert(at[j] == before[j]);
            }
        }
    }
}

/// Every entry that satisfies the condition is selected.
proof fn lemma_select_complete<V>(entries: Seq<(Seq<char>, V)>, keep: spec_fn(V) -> bool, k: int)
    requires
        0 <= k < entries.len(),
        keep(entries[k].1),
    ensures
        select_at(entries, keep).contains(k),
    decreases entries.len(),
{
    let rest = entries.drop_last();
    let at = select_at(entries, keep);
    if k < rest.len() {
        lemma_select_complete(rest, keep, k);
        let before = select_at(rest, keep);
        let i = choose|i: int| 0 <= i < before.len() && before[i] == k;
        assert(at[i] == k);
    } else {
        assert(at[at.len() - 1] == k);
    }
}

/// The selected rows of ascending entries are the map's rows that satisfy the condition.
pub proof fn lemma_select_lists<V>(entries: Seq<(Seq<char>, V)>, keep: spec_fn(V) -> bool)
    requires
        ascending(entries),
    ensures
        lists(select(entries, keep), as_map(entries), keep),
{
    lemma_select_at(entries, keep);
    let at = select_at(entries, keep);
    let keys = Seq::new(at.len(), |i: int| entries[at[i]].0);
    let list = select(entries, keep);
    let map = as_map(entries);
    assert forall|i: int| 0 <= i < keys.len() implies map.contains_key(#[trigger] keys[i])
        && map[keys[i]] == list[i] && keep(list[i]) by {
        assert(0 <= at[i] < entries.len());
        assert(list[i] == entries[at[i]].1);
        lemma_position_unique(entries, at[i]);
    }
    assert forall|i: int, j: int| 0 <= i < keys.len() && 0 <= j < keys.len() && i != j implies
        keys[i] != keys[j] by {
        text::law_order_irreflexive(keys[i]);
        if i < j {
            assert(at[i] < at[j]);
            assert(text::lt(entries[at[i]].0, entries[at[j]].0));
        } else {
            assert(at[j] < at[i]);
            assert(text::lt(entries[at[j]].0, entries[at[i]].0));
        }
    }
    assert forall|key: Seq<char>| #[trigger] map.contains_key(key) && keep(map[key]) implies
        keys.contains(key) by {
        assert(has_key(entries, key));
        let k = key_position(entries, key);
        assert(0 <= k < entries.len() && entries[k].0 == key);
        assert(map[key] == entries[k].1);
        lemma_select_complete(entries, keep, k);
        let i = choose|i: int| 0 <= i < at.len() && at[i] == k;
        assert(keys[i] == key);
    }
    assert(keys.no_duplicates());
}

} // verus!
