//! The local history of executed queries: newest first, capped, with
//! favourites.
use crate::paths::{joined_path, path_join};
use crate::text::text_of;
use vstd::prelude::*;

verus! {

/// The most entries kept.
pub const MAX_ENTRIES: usize = 500;

/// One executed query.
#[derive(Clone, Debug)]
pub struct QueryHistoryEntry {
    pub id: u128,
    pub connection_id: u128,
    pub connection_name: String,
    pub sql: String,
    /// RFC 3339 time of execution.
    pub executed_at: String,
    pub duration_ms: u64,
    pub row_count: u64,
    pub favorite: bool,
}

/// Where the history of a data directory is kept.
pub struct QueryHistoryStore {
    pub path: String,
}

impl QueryHistoryStore {
    /// The history kept in `query_history.json` under `data_dir`.
    pub fn new(data_dir: &str) -> (s: QueryHistoryStore)
        ensures
            s.path@ == joined_path(data_dir@, "query_history.json"@),
    {
        QueryHistoryStore { path: path_join(data_dir, "query_history.json") }
    }
}

/// The history after recording `e`: `e` first, then the older entries, at
/// most `MAX_ENTRIES` in all.
pub open spec fn appended(entries: Seq<QueryHistoryEntry>, e: QueryHistoryEntry) -> Seq<
    QueryHistoryEntry,
> {
    let all = seq![e] + entries;
    if all.len() > MAX_ENTRIES {
        all.take(MAX_ENTRIES as int)
    } else {
        all
    }
}

/// Records `e` as the newest entry, dropping the oldest beyond the cap.
pub fn append_entry(entries: &mut Vec<QueryHistoryEntry>, e: QueryHistoryEntry)
    ensures
        final(entries)@ == appended(old(entries)@, e),
{
    entries.insert(0, e);
    assert(old(entries)@.insert(0, e) =~= seq![e] + old(entries)@);
    if entries.len() > MAX_ENTRIES {
        entries.truncate(MAX_ENTRIES);
    }
}

/// The entry belongs to the connection (every entry does when none is given).
pub open spec fn belongs_to(e: QueryHistoryEntry, connection_id: Option<u128>) -> bool {
    match connection_id {
        Some(id) => e.connection_id == id,
        None => true,
    }
}

/// The entries of the connection, in history order.
pub open spec fn of_connection(entries: Seq<QueryHistoryEntry>, connection_id: Option<u128>) -> Seq<
    QueryHistoryEntry,
>
    decreases entries.len(),
{
    if entries.len() == 0 {
        seq![]
    } else {
        let rest = of_connection(entries.drop_last(), connection_id);
        if belongs_to(entries.last(), connection_id) {
            rest.push(entries.last())
        } else {
            rest
        }
    }
}

/// At most the first `n` elements.
pub open spec fn first_n<T>(s: Seq<T>, n: nat) -> Seq<T> {
    if n < s.len() {
        s.take(n as int)
    } else {
        s
    }
}

/// A field-by-field copy.
pub fn copy_entry(e: &QueryHistoryEntry) -> (c: QueryHistoryEntry)
    ensures
        c == *e,
{
    QueryHistoryEntry {
        id: e.id,
        connection_id: e.connection_id,
        connection_name: e.connection_name.clone(),
        sql: e.sql.clone(),
        executed_at: e.executed_at.clone(),
        duration_ms: e.duration_ms,
        row_count: e.row_count,
        favorite: e.favorite,
    }
}

proof fn lemma_of_connection_len(entries: Seq<QueryHistoryEntry>, connection_id: Option<u128>)
    ensures
        of_connection(entries, connection_id).len() <= entries.len(),
    decreases entries.len(),
{
    if entries.len() > 0 {
        lemma_of_connection_len(entries.drop_last(), connection_id);
    }
}

/// The newest `limit` entries of the connection (of all connections when
/// none is given).
pub fn list_entries(entries: &Vec<QueryHistoryEntry>, connection_id: Option<u128>, limit: usize) -> (r:
    Vec<QueryHistoryEntry>)
    ensures
        r@ == first_n(of_connection(entries@, connection_id), limit as nat),
{
    let mut r: Vec<QueryHistoryEntry> = Vec::new();
    let mut i: usize = 0;
    while i < entries.len() && r.len() < limit
        invariant
            i <= entries@.len(),
            r@ == of_connection(entries@.take(i as int), connection_id),
            r@.len() <= limit,
        decreases entries@.len() - i,
    {
        assert(entries@.take(i + 1).drop_last() == entries@.take(i as int));
        let e = &entries[i];
        let keep = match connection_id {
            Some(id) => e.connection_id == id,
            None => true,
        };
        if keep {
            r.push(copy_entry(e));
        }
        i = i + 1;
    }
    proof {
        if i == entries@.len() {
            assert(entries@.take(i as int) == entries@);
        } else {
            lemma_of_connection_prefix(entries@, connection_id, i as int);
        }
    }
    r
}

/// Once a prefix holds `n` matching entries, the first `n` matches are those.
proof fn lemma_of_connection_prefix(
    entries: Seq<QueryHistoryEntry>,
    connection_id: Option<u128>,
    i: int,
)
    requires
        0 <= i <= entries.len(),
    ensures
        of_connection(entries, connection_id).take(
            of_connection(entries.take(i), connection_id).len() as int,
        ) == of_connection(entries.take(i), connection_id),
        of_connection(entries.take(i), connection_id).len() <= of_connection(
            entries,
            connection_id,
        ).len(),
    decreases entries.len() - i,
{
    let pre = of_connection(entries.take(i), connection_id);
    if i == entries.len() {
        assert(entries.take(i) == entries);
        assert(pre.take(pre.len() as int) == pre);
    } else {
        lemma_of_connection_prefix(entries, connection_id, i + 1);
        assert(entries.take(i + 1).drop_last() == entries.take(i));
        let pre1 = of_connection(entries.take(i + 1), connection_id);
        let all = of_connection(entries, connection_id);
        assert(all.take(pre1.len() as int) == pre1);
        assert(pre1.take(pre.len() as int) == pre);
        assert(all.take(pre.len() as int) == pre);
    }
}

/// The position of the first entry with `id`, if any.
pub open spec fn position_of(entries: Seq<QueryHistoryEntry>, id: u128) -> Option<int> {
    if exists|k: int| 0 <= k < entries.len() && entries[k].id == id {
        Some(
            choose|k: int|
                0 <= k < entries.len() && entries[k].id == id && forall|j: int|
                    0 <= j < k ==> entries[j].id != id,
        )
    } else {
        None
    }
}

pub open spec fn not_found_message() -> Seq<char> {
    "history entry not found"@
}

/// Flips the favourite flag of the first entry with `id` and returns its new
/// value; an error when there is none.
pub fn toggle_favorite(entries: &mut Vec<QueryHistoryEntry>, id: u128) -> (r: Result<bool, String>)
    ensures
        final(entries)@ == favorite_toggled(old(entries)@, id),
        match position_of(old(entries)@, id) {
            Some(k) => {
                let e = old(entries)@[k];
                let flipped = QueryHistoryEntry { favorite: !e.favorite, ..e };
                &&& r == Ok::<bool, String>(!e.favorite)
                &&& final(entries)@ == old(entries)@.update(k, flipped)
            },
            None => {
                &&& r matches Err(m)
                &&& m@ == not_found_message()
                &&& final(entries)@ == old(entries)@
            },
        },
{
    let mut i: usize = 0;
    while i < entries.len()
        invariant
            i <= entries@.len(),
            entries@ == old(entries)@,
            forall|j: int| 0 <= j < i ==> entries@[j].id != id,
        decreases entries@.len() - i,
    {
        if entries[i].id == id {
            let mut e = entries.remove(i);
            e.favorite = !e.favorite;
            let fav = e.favorite;
            entries.insert(i, e);
            proof {
                let k = i as int;
                assert(old(entries)@[k].id == id);
                let p = choose|k: int|
                    0 <= k < old(entries)@.len() && old(entries)@[k].id == id && forall|j: int|
                        0 <= j < k ==> old(entries)@[j].id != id;
                assert(p == k) by {
                    if p < k {
                    } else if p > k {
                    }
                }
                assert(entries@ =~= old(entries)@.update(k, e));
            }
            return Ok(fav);
        }
        i = i + 1;
    }
    Err(text_of("history entry not found"))
}

/// Recording puts the new entry first and never keeps more than the cap.
pub proof fn law_append_newest_first(entries: Seq<QueryHistoryEntry>, e: QueryHistoryEntry)
    ensures
        appended(entries, e)[0] == e,
        appended(entries, e).len() <= MAX_ENTRIES,
        entries.len() < MAX_ENTRIES ==> appended(entries, e).len() == entries.len() + 1,
        entries.len() <= MAX_ENTRIES ==> appended(entries, e).len() <= entries.len() + 1,
{
}

/// Listing is newest first and never returns more than asked, nor an entry of
/// another connection.
pub proof fn law_list_bounded(entries: Seq<QueryHistoryEntry>, connection_id: Option<u128>, limit: nat)
    ensures
        first_n(of_connection(entries, connection_id), limit).len() <= limit,
        forall|k: int|
            0 <= k < first_n(of_connection(entries, connection_id), limit).len() ==> belongs_to(
                #[trigger] first_n(of_connection(entries, connection_id), limit)[k],
                connection_id,
            ),
{
    lemma_of_connection_belongs(entries, connection_id);
}

proof fn lemma_of_connection_belongs(entries: Seq<QueryHistoryEntry>, connection_id: Option<u128>)
    ensures
        forall|k: int|
            0 <= k < of_connection(entries, connection_id).len() ==> belongs_to(
                #[trigger] of_connection(entries, connection_id)[k],
                connection_id,
            ),
    decreases entries.len(),
{
    if entries.len() > 0 {
        let rest = of_connection(entries.drop_last(), connection_id);
        lemma_of_connection_belongs(entries.drop_last(), connection_id);
        let all = of_connection(entries, connection_id);
        assert forall|k: int| 0 <= k < all.len() implies belongs_to(#[trigger] all[k], connection_id) by {
            if k < rest.len() {
                assert(all[k] == rest[k]);
            }
        }
    }
}

/// The history after flipping the favourite flag of the first entry with
/// `id` (unchanged when there is none).
pub open spec fn favorite_toggled(entries: Seq<QueryHistoryEntry>, id: u128) -> Seq<QueryHistoryEntry> {
    match position_of(entries, id) {
        Some(k) => entries.update(k, QueryHistoryEntry { favorite: !entries[k].favorite, ..entries[k] }),
        None => entries,
    }
}

proof fn lemma_position_is_first(entries: Seq<QueryHistoryEntry>, id: u128, k: int)
    requires
        0 <= k < entries.len(),
        entries[k].id == id,
        forall|j: int| 0 <= j < k ==> entries[j].id != id,
    ensures
        position_of(entries, id) == Some(k),
{
    let p = choose|p: int|
        0 <= p < entries.len() && entries[p].id == id && forall|j: int|
            0 <= j < p ==> entries[j].id != id;
    assert(p == k) by {
        if p < k {
        } else if p > k {
        }
    }
}

proof fn lemma_position_props(entries: Seq<QueryHistoryEntry>, id: u128)
    ensures
        match position_of(entries, id) {
            Some(k) => 0 <= k < entries.len() && entries[k].id == id && forall|j: int|
                0 <= j < k ==> entries[j].id != id,
            None => forall|j: int| 0 <= j < entries.len() ==> entries[j].id != id,
        },
{
    if exists|k: int| 0 <= k < entries.len() && entries[k].id == id {
        let w = choose|k: int| 0 <= k < entries.len() && entries[k].id == id;
        lemma_first_index(entries, id, w);
    }
}

proof fn lemma_first_index(entries: Seq<QueryHistoryEntry>, id: u128, w: int)
    requires
        0 <= w < entries.len(),
        entries[w].id == id,
    ensures
        exists|k: int|
            0 <= k < entries.len() && entries[k].id == id && forall|j: int|
                0 <= j < k ==> entries[j].id != id,
    decreases w,
{
    if exists|j: int| 0 <= j < w && entries[j].id == id {
        let j = choose|j: int| 0 <= j < w && entries[j].id == id;
        lemma_first_index(entries, id, j);
    } else {
        assert(forall|j: int| 0 <= j < w ==> entries[j].id != id);
    }
}

/// Toggling a favourite twice gives back the history as it was.
pub proof fn law_toggle_twice(entries: Seq<QueryHistoryEntry>, id: u128)
    ensures
        favorite_toggled(favorite_toggled(entries, id), id) == entries,
{
    lemma_position_props(entries, id);
    match position_of(entries, id) {
        Some(k) => {
            let e = entries[k];
            let once = entries.update(k, QueryHistoryEntry { favorite: !e.favorite, ..e });
            assert(favorite_toggled(entries, id) == once);
            assert(once[k].id == id);
            assert forall|j: int| 0 <= j < k implies once[j].id != id by {
                assert(once[j] == entries[j]);
            }
            lemma_position_is_first(once, id, k);
            assert(favorite_toggled(once, id) =~= entries);
        },
        None => {
        },
    }
}

} // verus!
