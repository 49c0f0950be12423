//! The saved connection list (passwords are never part of it) and the
//! operations on it.
use crate::error::prefixed;
use crate::paths::{joined_path, path_join};
use crate::text::text_of;
use crate::types::{ConnectionConfig, SshConfig};
use vstd::prelude::*;

verus! {

/// Why the connection list could not be used.
#[derive(Debug)]
pub enum PersistenceError {
    Read(String),
    Write(String),
    NotFound,
}

pub open spec fn persistence_error_text(e: PersistenceError) -> Seq<char> {
    match e {
        PersistenceError::Read(m) => "read failed: "@ + m@,
        PersistenceError::Write(m) => "write failed: "@ + m@,
        PersistenceError::NotFound => "connection not found"@,
    }
}

impl PersistenceError {
    /// The one-line description of the error.
    pub fn describe(&self) -> (s: String)
        ensures
            s@ == persistence_error_text(*self),
    {
        match self {
            PersistenceError::Read(m) => prefixed("read failed: ", m.as_str()),
            PersistenceError::Write(m) => prefixed("write failed: ", m.as_str()),
            PersistenceError::NotFound => text_of("connection not found"),
        }
    }
}

/// Where the connection list of a data directory is kept.
pub struct ConnectionPersistence {
    pub data_dir: String,
}

impl ConnectionPersistence {
    pub fn new(data_dir: &str) -> (p: ConnectionPersistence)
        ensures
            p.data_dir@ == data_dir@,
    {
        ConnectionPersistence { data_dir: text_of(data_dir) }
    }

    /// `connections.json` under the data directory.
    pub fn file_path(&self) -> (p: String)
        ensures
            p@ == joined_path(self.data_dir@, "connections.json"@),
    {
        path_join(self.data_dir.as_str(), "connections.json")
    }
}

/// A copy of an optional string.
pub fn copy_opt(o: &Option<String>) -> (c: Option<String>)
    ensures
        c == *o,
{
    match o {
        Some(s) => Some(s.clone()),
        None => None,
    }
}

/// A field-by-field copy.
pub fn copy_config(c: &ConnectionConfig) -> (r: ConnectionConfig)
    ensures
        r == *c,
{
    ConnectionConfig {
        id: c.id,
        name: c.name.clone(),
        kind: c.kind,
        host: c.host.clone(),
        port: c.port,
        database: c.database.clone(),
        username: c.username.clone(),
        ssl_mode: c.ssl_mode,
        ssh: SshConfig {
            enabled: c.ssh.enabled,
            host: c.ssh.host.clone(),
            port: c.ssh.port,
            username: c.ssh.username.clone(),
            private_key_path: copy_opt(&c.ssh.private_key_path),
        },
        read_only: c.read_only,
        environment: copy_opt(&c.environment),
        color: copy_opt(&c.color),
        created_at: c.created_at.clone(),
        updated_at: c.updated_at.clone(),
    }
}

/// Some connection of the list has `id`.
pub open spec fn has_id(all: Seq<ConnectionConfig>, id: u128) -> bool {
    exists|k: int| 0 <= k < all.len() && all[k].id == id
}

/// `k` is the first position holding `id`.
pub open spec fn is_first_with_id(all: Seq<ConnectionConfig>, id: u128, k: int) -> bool {
    &&& 0 <= k < all.len()
    &&& all[k].id == id
    &&& forall|j: int| 0 <= j < k ==> all[j].id != id
}

/// The first position holding `id` (meaningful when `has_id`).
pub open spec fn first_with_id(all: Seq<ConnectionConfig>, id: u128) -> int {
    choose|k: int| is_first_with_id(all, id, k)
}

proof fn lemma_first_with_id(all: Seq<ConnectionConfig>, id: u128, k: int)
    requires
        is_first_with_id(all, id, k),
    ensures
        first_with_id(all, id) == k,
{
    let p = first_with_id(all, id);
    assert(is_first_with_id(all, id, p));
    if p < k {
        assert(all[p].id != id);
    } else if p > k {
        assert(all[k].id != id);
    }
}

proof fn lemma_min_witness(all: Seq<ConnectionConfig>, id: u128) -> (k: int)
    requires
        has_id(all, id),
    ensures
        is_first_with_id(all, id, k),
    decreases all.len(),
{
    let init = all.drop_last();
    if has_id(init, id) {
        let k = lemma_min_witness(init, id);
        assert forall|j: int| 0 <= j < k implies all[j].id != id by {
            assert(all[j] == init[j]);
        }
        assert(all[k] == init[k]);
        k
    } else {
        let k = all.len() - 1;
        let w = choose|w: int| 0 <= w < all.len() && all[w].id == id;
        if w < k {
            assert(init[w].id == id);
        }
        assert forall|j: int| 0 <= j < k implies all[j].id != id by {
            if all[j].id == id {
                assert(init[j].id == id);
            }
        }
        k
    }
}

/// When some connection has `id`, `first_with_id` is the first of them.
pub proof fn lemma_first_exists(all: Seq<ConnectionConfig>, id: u128)
    requires
        has_id(all, id),
    ensures
        is_first_with_id(all, id, first_with_id(all, id)),
{
    let k = lemma_min_witness(all, id);
    lemma_first_with_id(all, id, k);
}

/// `ConnectionPersistence::get`: the first saved connection with `id`.
pub fn find_connection(all: &Vec<ConnectionConfig>, id: u128) -> (r: Result<
    ConnectionConfig,
    PersistenceError,
>)
    ensures
        has_id(all@, id) ==> r == Ok::<ConnectionConfig, PersistenceError>(
            all@[first_with_id(all@, id)],
        ),
        !has_id(all@, id) ==> r matches Err(PersistenceError::NotFound),
{
    let mut i: usize = 0;
    while i < all.len()
        invariant
            i <= all@.len(),
            forall|j: int| 0 <= j < i ==> all@[j].id != id,
        decreases all@.len() - i,
    {
        if all[i].id == id {
            proof {
                lemma_first_with_id(all@, id, i as int);
            }
            return Ok(copy_config(&all[i]));
        }
        i = i + 1;
    }
    Err(PersistenceError::NotFound)
}

/// The list after saving `c`: it replaces the first connection with its id,
/// or is appended.
pub open spec fn upserted(all: Seq<ConnectionConfig>, c: ConnectionConfig) -> Seq<ConnectionConfig> {
    if has_id(all, c.id) {
        all.update(first_with_id(all, c.id), c)
    } else {
        all.push(c)
    }
}

/// Saves `c` into the list: replaces the first connection with its id, or
/// appends it.
pub fn upsert_connection(all: &mut Vec<ConnectionConfig>, c: ConnectionConfig)
    ensures
        final(all)@ == upserted(old(all)@, c),
{
    let mut i: usize = 0;
    while i < all.len()
        invariant
            i <= all@.len(),
            all@ == old(all)@,
            forall|j: int| 0 <= j < i ==> all@[j].id != c.id,
        decreases all@.len() - i,
    {
        if all[i].id == c.id {
            proof {
                lemma_first_with_id(all@, c.id, i as int);
            }
            all.set(i, c);
            return;
        }
        i = i + 1;
    }
    all.push(c);
}

/// The list without the connections that have `id`.
pub open spec fn without_id(all: Seq<ConnectionConfig>, id: u128) -> Seq<ConnectionConfig>
    decreases all.len(),
{
    if all.len() == 0 {
        seq![]
    } else {
        let rest = without_id(all.drop_last(), id);
        if all.last().id == id {
            rest
        } else {
            rest.push(all.last())
        }
    }
}

proof fn lemma_without_id_len(all: Seq<ConnectionConfig>, id: u128)
    ensures
        without_id(all, id).len() <= all.len(),
        without_id(all, id).len() == all.len() <==> !has_id(all, id),
        !has_id(all, id) ==> without_id(all, id) == all,
    decreases all.len(),
{
    if all.len() > 0 {
        let init = all.drop_last();
        lemma_without_id_len(init, id);
        if has_id(init, id) {
            let k = choose|k: int| 0 <= k < init.len() && init[k].id == id;
            assert(all[k].id == id);
        }
        if !has_id(all, id) {
            assert(all.last().id != id) by {
                assert(all[all.len() - 1].id != id);
            }
            assert(!has_id(init, id)) by {
                if has_id(init, id) {
                    let k = choose|k: int| 0 <= k < init.len() && init[k].id == id;
                    assert(all[k].id == id);
                }
            }
            assert(all == init.push(all.last()));
        }
        if all.last().id == id {
            assert(all[all.len() - 1].id == id);
        }
    }
}

/// Deletes every connection with `id`; `NotFound` (and the list unchanged)
/// when there is none.
pub fn remove_connection(all: &mut Vec<ConnectionConfig>, id: u128) -> (r: Result<
    (),
    PersistenceError,
>)
    ensures
        has_id(old(all)@, id) ==> r is Ok && final(all)@ == without_id(old(all)@, id),
        !has_id(old(all)@, id) ==> (r matches Err(PersistenceError::NotFound)) && final(all)@ == old(
            all,
        )@,
{
    let ghost start = all@;
    let mut kept: Vec<ConnectionConfig> = Vec::new();
    let mut removed = false;
    let n = all.len();
    let mut i: usize = 0;
    while i < n
        invariant
            n == start.len(),
            all@ == start,
            i <= n,
            kept@ == without_id(start.take(i as int), id),
            removed == has_id(start.take(i as int), id),
        decreases n - i,
    {
        assert(start.take(i + 1).drop_last() == start.take(i as int));
        proof {
            let pre = start.take(i as int);
            let pre1 = start.take(i + 1);
            if has_id(pre, id) {
                let k = choose|k: int| 0 <= k < pre.len() && pre[k].id == id;
                assert(pre1[k].id == id);
            }
            if start[i as int].id == id {
                assert(pre1[i as int].id == id);
            }
            if has_id(pre1, id) && !has_id(pre, id) {
                let k = choose|k: int| 0 <= k < pre1.len() && pre1[k].id == id;
                if k < i {
                    assert(pre[k].id == id);
                }
            }
        }
        if all[i].id == id {
            removed = true;
        } else {
            kept.push(copy_config(&all[i]));
        }
        i = i + 1;
    }
    assert(start.take(n as int) == start);
    if !removed {
        return Err(PersistenceError::NotFound);
    }
    *all = kept;
    Ok(())
}

/// Saving then finding a connection gives back what was saved.
pub proof fn law_find_after_upsert(all: Seq<ConnectionConfig>, c: ConnectionConfig)
    ensures
        has_id(upserted(all, c), c.id),
        upserted(all, c)[first_with_id(upserted(all, c), c.id)] == c,
{
    let u = upserted(all, c);
    if has_id(all, c.id) {
        lemma_first_exists(all, c.id);
        let k = first_with_id(all, c.id);
        assert forall|j: int| 0 <= j < k implies u[j].id != c.id by {
            assert(u[j] == all[j]);
        }
        assert(u[k].id == c.id);
        lemma_first_with_id(u, c.id, k);
    } else {
        let k = all.len() as int;
        assert(u[k].id == c.id);
        assert forall|j: int| 0 <= j < k implies u[j].id != c.id by {
            assert(u[j] == all[j]);
        }
        lemma_first_with_id(u, c.id, k);
    }
}

/// Saving never changes the number of connections with another id, and adds
/// one entry only for a new id.
pub proof fn law_upsert_len(all: Seq<ConnectionConfig>, c: ConnectionConfig)
    ensures
        has_id(all, c.id) ==> upserted(all, c).len() == all.len(),
        !has_id(all, c.id) ==> upserted(all, c).len() == all.len() + 1,
{
    if has_id(all, c.id) {
        lemma_first_exists(all, c.id);
    }
}

/// After a delete no connection with the id is left, and a second delete of
/// the same id is refused.
pub proof fn law_delete_removes(all: Seq<ConnectionConfig>, id: u128)
    ensures
        !has_id(without_id(all, id), id),
    decreases all.len(),
{
    if all.len() > 0 {
        law_delete_removes(all.drop_last(), id);
        let rest = without_id(all.drop_last(), id);
        let w = without_id(all, id);
        if has_id(w, id) {
            let k = choose|k: int| 0 <= k < w.len() && w[k].id == id;
            if k < rest.len() {
                assert(rest[k].id == id);
            }
        }
    }
}

} // verus!
