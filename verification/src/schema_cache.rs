//! Schema metadata cached per connection for completion and the schema tree.
use crate::types::SchemaMeta;
use std::collections::HashMap;
use vstd::prelude::*;

verus! {

broadcast use vstd::std_specs::hash::group_hash_axioms;

/// Cached schema metadata, one entry per connection id.
pub struct SchemaCache {
    inner: HashMap<u128, SchemaMeta>,
}

impl View for SchemaCache {
    type V = Map<u128, SchemaMeta>;

    closed spec fn view(&self) -> Map<u128, SchemaMeta> {
        self.inner@
    }
}

/// The cached metadata of `id`, if any.
pub open spec fn cached(m: Map<u128, SchemaMeta>, id: u128) -> Option<SchemaMeta> {
    if m.contains_key(id) {
        Some(m[id])
    } else {
        None
    }
}

impl SchemaCache {
    /// An empty cache.
    pub fn new() -> (c: SchemaCache)
        ensures
            c@ == Map::<u128, SchemaMeta>::empty(),
    {
        SchemaCache { inner: HashMap::new() }
    }

    /// The cached metadata of `id`.
    pub fn get(&self, id: u128) -> (r: Option<&SchemaMeta>)
        ensures
            match r {
                Some(m) => cached(self@, id) == Some(*m),
                None => cached(self@, id) is None,
            },
    {
        self.inner.get(&id)
    }

    /// Caches `meta` for `id`, replacing what was cached.
    pub fn set(&mut self, id: u128, meta: SchemaMeta)
        ensures
            final(self)@ == old(self)@.insert(id, meta),
    {
        self.inner.insert(id, meta);
    }

    /// Forgets what is cached for `id`.
    pub fn invalidate(&mut self, id: u128)
        ensures
            final(self)@ == old(self)@.remove(id),
    {
        self.inner.remove(&id);
    }
}

impl Default for SchemaCache {
    fn default() -> (c: SchemaCache)
        ensures
            c@ == Map::<u128, SchemaMeta>::empty(),
    {
        SchemaCache::new()
    }
}

/// A read gives back what the last write for the same connection stored.
pub proof fn law_get_after_set(m: Map<u128, SchemaMeta>, id: u128, meta: SchemaMeta)
    ensures
        cached(m.insert(id, meta), id) == Some(meta),
{
}

/// After invalidation nothing is cached for the connection.
pub proof fn law_get_after_invalidate(m: Map<u128, SchemaMeta>, id: u128)
    ensures
        cached(m.remove(id), id) is None,
{
}

/// Writing or invalidating one connection leaves the others' entries as they
/// were.
pub proof fn law_other_connections_kept(
    m: Map<u128, SchemaMeta>,
    id: u128,
    other: u128,
    meta: SchemaMeta,
)
    requires
        other != id,
    ensures
        cached(m.insert(id, meta), other) == cached(m, other),
        cached(m.remove(id), other) == cached(m, other),
{
}

} // verus!
