//! The per-connection queue of statements held back until the user commits
//! (safe mode).
use crate::text::views;
use std::collections::HashMap;
use vstd::prelude::*;

verus! {

broadcast use vstd::std_specs::hash::group_hash_axioms;

/// The uncommitted work of one connection.
#[derive(Debug)]
pub struct TransactionState {
    pub active: bool,
    pub pending_sql: Vec<String>,
}

/// What the user interface is told of a connection's transaction.
#[derive(Clone, Copy, Debug)]
pub struct TransactionStatus {
    pub active: bool,
    pub pending_count: usize,
}

/// A session as the contracts see it: whether it is active, and the
/// statements it holds, in the order they were queued.
pub type SessionView = (bool, Seq<Seq<char>>);

pub open spec fn session_view(s: TransactionState) -> SessionView {
    (s.active, views(s.pending_sql@))
}

/// The statements held for `id` (none when there is no session).
pub open spec fn pending_of(m: Map<u128, SessionView>, id: u128) -> Seq<Seq<char>> {
    if m.contains_key(id) {
        m[id].1
    } else {
        seq![]
    }
}

/// Whether `id` has an active transaction.
pub open spec fn active_of(m: Map<u128, SessionView>, id: u128) -> bool {
    m.contains_key(id) && m[id].0
}

/// The sessions after `begin_if_needed(id)`: an active empty session is
/// opened unless one exists.
pub open spec fn begun(m: Map<u128, SessionView>, id: u128) -> Map<u128, SessionView> {
    if m.contains_key(id) {
        m
    } else {
        m.insert(id, (true, seq![]))
    }
}

/// The sessions after `queue_sql(id, sql)`: the session becomes active and
/// `sql` is appended to it.
pub open spec fn queued(m: Map<u128, SessionView>, id: u128, sql: Seq<char>) -> Map<
    u128,
    SessionView,
> {
    m.insert(id, (true, pending_of(m, id).push(sql)))
}

/// The sessions after `clear(id)`.
pub open spec fn cleared(m: Map<u128, SessionView>, id: u128) -> Map<u128, SessionView> {
    m.remove(id)
}

/// The safe-mode queues of all connections.
pub struct TransactionManager {
    sessions: HashMap<u128, TransactionState>,
}

impl View for TransactionManager {
    type V = Map<u128, SessionView>;

    closed spec fn view(&self) -> Map<u128, SessionView> {
        self.sessions@.map_values(|s: TransactionState| session_view(s))
    }
}

impl TransactionManager {
    /// No sessions.
    pub fn new() -> (t: TransactionManager)
        ensures
            t@ == Map::<u128, SessionView>::empty(),
    {
        let t = TransactionManager { sessions: HashMap::new() };
        assert(t@ =~= Map::<u128, SessionView>::empty());
        t
    }

    /// Whether `id` has an active transaction and how many statements it holds.
    pub fn status(&self, id: u128) -> (st: TransactionStatus)
        ensures
            st.active == active_of(self@, id),
            st.pending_count == pending_of(self@, id).len(),
    {
        match self.sessions.get(&id) {
            Some(s) => TransactionStatus { active: s.active, pending_count: s.pending_sql.len() },
            None => TransactionStatus { active: false, pending_count: 0 },
        }
    }

    /// Opens an active empty session for `id` unless one exists.
    pub fn begin_if_needed(&mut self, id: u128)
        ensures
            final(self)@ == begun(old(self)@, id),
    {
        if !self.sessions.contains_key(&id) {
            let st = TransactionState { active: true, pending_sql: Vec::new() };
            assert(session_view(st) == (true, Seq::<Seq<char>>::empty())) by {
                assert(views(st.pending_sql@) =~= Seq::<Seq<char>>::empty());
            }
            self.sessions.insert(id, st);
            assert(self@ =~= begun(old(self)@, id));
        }
    }

    /// Appends `sql` to the session of `id`, opening it if needed, and marks
    /// it active.
    pub fn queue_sql(&mut self, id: u128, sql: String)
        ensures
            final(self)@ == queued(old(self)@, id, sql@),
    {
        let mut state = match self.sessions.remove(&id) {
            Some(s) => s,
            None => TransactionState { active: false, pending_sql: Vec::new() },
        };
        let ghost before = views(state.pending_sql@);
        assert(before == pending_of(old(self)@, id));
        state.active = true;
        state.pending_sql.push(sql);
        assert(views(state.pending_sql@) == before.push(sql@));
        self.sessions.insert(id, state);
        assert(self@ =~= queued(old(self)@, id, sql@));
    }

    /// The statements held for `id`, in queue order.
    pub fn pending_sql(&self, id: u128) -> (v: Vec<String>)
        ensures
            views(v@) == pending_of(self@, id),
    {
        let mut out: Vec<String> = Vec::new();
        match self.sessions.get(&id) {
            Some(s) => {
                let mut i: usize = 0;
                while i < s.pending_sql.len()
                    invariant
                        i <= s.pending_sql@.len(),
                        out@ == s.pending_sql@.take(i as int),
                    decreases s.pending_sql@.len() - i,
                {
                    out.push(s.pending_sql[i].clone());
                    i = i + 1;
                    assert(out@ =~= s.pending_sql@.take(i as int));
                }
                assert(s.pending_sql@.take(s.pending_sql@.len() as int) =~= s.pending_sql@);
            },
            None => {
                assert(views(out@) =~= seq![]);
            },
        }
        out
    }

    /// Drops the session of `id`.
    pub fn clear(&mut self, id: u128)
        ensures
            final(self)@ == cleared(old(self)@, id),
    {
        self.sessions.remove(&id);
        assert(self@ =~= cleared(old(self)@, id));
    }
}

impl Default for TransactionManager {
    fn default() -> (t: TransactionManager)
        ensures
            t@ == Map::<u128, SessionView>::empty(),
    {
        TransactionManager::new()
    }
}

/// Queueing appends: after `queue_sql(id, sql)` the session of `id` is active
/// and holds what it held before followed by `sql`.
pub proof fn law_queue_appends(m: Map<u128, SessionView>, id: u128, sql: Seq<char>)
    ensures
        active_of(queued(m, id, sql), id),
        pending_of(queued(m, id, sql), id) == pending_of(m, id).push(sql),
        pending_of(queued(m, id, sql), id).len() == pending_of(m, id).len() + 1,
{
}

/// Queueing for one connection leaves every other connection's session as it
/// was.
pub proof fn law_queue_isolated(m: Map<u128, SessionView>, id: u128, other: u128, sql: Seq<char>)
    requires
        other != id,
    ensures
        active_of(queued(m, id, sql), other) == active_of(m, other),
        pending_of(queued(m, id, sql), other) == pending_of(m, other),
{
}

/// Clearing (commit or rollback) leaves no active transaction and nothing
/// pending for the connection.
pub proof fn law_clear_resets(m: Map<u128, SessionView>, id: u128)
    ensures
        !active_of(cleared(m, id), id),
        pending_of(cleared(m, id), id) == Seq::<Seq<char>>::empty(),
{
}

/// Opening a session is idempotent, keeps what is pending, and leaves the
/// session active when none existed before.
pub proof fn law_begin_idempotent(m: Map<u128, SessionView>, id: u128)
    ensures
        begun(begun(m, id), id) == begun(m, id),
        pending_of(begun(m, id), id) == pending_of(m, id),
        !m.contains_key(id) ==> active_of(begun(m, id), id),
{
}

} // verus!
