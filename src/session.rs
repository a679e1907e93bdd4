//! The session store: conversation histories keyed by session id, each with
//! the time it was last used, evicted once idle too long.

use vstd::prelude::*;
use crate::json::same_text;
use crate::models::{copy_turns, Message, Role};

verus! {

/// How long a session may stay unused before a sweep evicts it, in milliseconds.
pub const SESSION_TIMEOUT_MS: u64 = 1_800_000;

/// The least time between two sweeps, in milliseconds.
pub const SWEEP_INTERVAL_MS: u64 = 60_000;

/// One conversation: its turns and when it was last used (milliseconds on a
/// monotonic clock).
#[derive(Debug)]
pub struct ChatSession {
    pub messages: Vec<Message>,
    pub last_active: u64,
}

/// The idle time of a session at `now`; zero where `now` is not later.
pub open spec fn idle_ms(s: ChatSession, now: u64) -> int {
    if now >= s.last_active {
        now - s.last_active
    } else {
        0
    }
}

/// A session that a sweep at `now` evicts.
pub open spec fn expired(s: ChatSession, now: u64, timeout: u64) -> bool {
    idle_ms(s, now) > timeout
}

/// The sessions of `m` that a sweep at `now` keeps.
pub open spec fn swept(m: Map<Seq<char>, ChatSession>, now: u64, timeout: u64) -> Map<
    Seq<char>,
    ChatSession,
> {
    Map::new(|k: Seq<char>| m.contains_key(k) && !expired(m[k], now, timeout), |k: Seq<char>| m[k])
}

/// The sessions that a list of entries holds, keyed by id.
pub open spec fn map_of(entries: Seq<(String, ChatSession)>) -> Map<Seq<char>, ChatSession>
    decreases entries.len(),
{
    if entries.len() == 0 {
        Map::empty()
    } else {
        map_of(entries.drop_last()).insert(entries.last().0@, entries.last().1)
    }
}

/// No two entries share an id.
pub open spec fn unique_ids(entries: Seq<(String, ChatSession)>) -> bool {
    forall|i: int, j: int|
        0 <= i < entries.len() && 0 <= j < entries.len() && i != j ==> entries[i].0@
            != entries[j].0@
}

/// The number of entries with id `id`.
pub open spec fn records_with(entries: Seq<(String, ChatSession)>, id: Seq<char>) -> nat
    decreases entries.len(),
{
    if entries.len() == 0 {
        0
    } else {
        records_with(entries.drop_last(), id) + if entries.last().0@ == id {
            1nat
        } else {
            0nat
        }
    }
}

proof fn lemma_map_of_keys(entries: Seq<(String, ChatSession)>, k: Seq<char>)
    ensures
        map_of(entries).contains_key(k) <==> exists|i: int|
            0 <= i < entries.len() && entries[i].0@ == k,
    decreases entries.len(),
{
    if entries.len() > 0 {
        let init = entries.drop_last();
        lemma_map_of_keys(init, k);
        if map_of(entries).contains_key(k) && entries.last().0@ != k {
            let i = choose|i: int| 0 <= i < init.len() && init[i].0@ == k;
            assert(entries[i] == init[i]);
        }
        if exists|i: int| 0 <= i < entries.len() && entries[i].0@ == k {
            let i = choose|i: int| 0 <= i < entries.len() && entries[i].0@ == k;
            if i < entries.len() - 1 {
                assert(init[i] == entries[i]);
            }
        }
    }
}

proof fn lemma_map_of_at(entries: Seq<(String, ChatSession)>, i: int)
    requires
        unique_ids(entries),
        0 <= i < entries.len(),
    ensures
        map_of(entries).contains_key(entries[i].0@),
        map_of(entries)[entries[i].0@] == entries[i].1,
    decreases entries.len(),
{
    let init = entries.drop_last();
    if i < entries.len() - 1 {
        assert(init[i] == entries[i]);
        assert(unique_ids(init)) by {
            assert forall|a: int, b: int|
                0 <= a < init.len() && 0 <= b < init.len() && a != b implies init[a].0@
                != init[b].0@ by {
                assert(init[a] == entries[a] && init[b] == entries[b]);
            }
        }
        lemma_map_of_at(init, i);
    }
}

proof fn lemma_records_unique(entries: Seq<(String, ChatSession)>, i: int)
    requires
        unique_ids(entries),
        0 <= i < entries.len(),
    ensures
        records_with(entries, entries[i].0@) == 1,
    decreases entries.len(),
{
    let init = entries.drop_last();
    let k = entries[i].0@;
    assert(unique_ids(init)) by {
        assert forall|a: int, b: int|
            0 <= a < init.len() && 0 <= b < init.len() && a != b implies init[a].0@
            != init[b].0@ by {
            assert(init[a] == entries[a] && init[b] == entries[b]);
        }
    }
    if i < entries.len() - 1 {
        assert(init[i] == entries[i]);
        lemma_records_unique(init, i);
    } else {
        lemma_records_absent(init, k);
    }
}

proof fn lemma_records_absent(entries: Seq<(String, ChatSession)>, k: Seq<char>)
    requires
        forall|j: int| 0 <= j < entries.len() ==> entries[j].0@ != k,
    ensures
        records_with(entries, k) == 0,
    decreases entries.len(),
{
    if entries.len() > 0 {
        let init = entries.drop_last();
        assert forall|j: int| 0 <= j < init.len() implies init[j].0@ != k by {
            assert(init[j] == entries[j]);
        }
        lemma_records_absent(init, k);
    }
}

proof fn lemma_map_of_update(entries: Seq<(String, ChatSession)>, i: int, s: ChatSession)
    requires
        unique_ids(entries),
        0 <= i < entries.len(),
    ensures
        map_of(entries.update(i, (entries[i].0, s))) == map_of(entries).insert(entries[i].0@, s),
    decreases entries.len(),
{
    let k = entries[i].0@;
    let upd = entries.update(i, (entries[i].0, s));
    let init = entries.drop_last();
    if i == entries.len() - 1 {
        assert(upd.drop_last() =~= init);
        assert(map_of(upd) =~= map_of(entries).insert(k, s));
    } else {
        assert(unique_ids(init)) by {
            assert forall|a: int, b: int|
                0 <= a < init.len() && 0 <= b < init.len() && a != b implies init[a].0@
                != init[b].0@ by {
                assert(init[a] == entries[a] && init[b] == entries[b]);
            }
        }
        assert(init[i] == entries[i]);
        lemma_map_of_update(init, i, s);
        assert(upd.drop_last() =~= init.update(i, (init[i].0, s)));
        assert(entries.last().0@ != k);
        assert(map_of(upd) =~= map_of(entries).insert(k, s));
    }
}

/// All sessions, keyed by id, and the time of the last sweep. The sessions
/// are a list of `(id, session)` pairs with each id once, so that every
/// lookup compares ids by their characters.
pub struct SessionStore {
    entries: Vec<(String, ChatSession)>,
    last_sweep: u64,
}

impl View for SessionStore {
    type V = Map<Seq<char>, ChatSession>;

    /// The sessions, keyed by id.
    closed spec fn view(&self) -> Map<Seq<char>, ChatSession> {
        map_of(self.entries@)
    }
}

impl SessionStore {
    /// Each id has at most one record.
    pub closed spec fn wf(&self) -> bool {
        unique_ids(self.entries@)
    }

    /// How many records the store holds for `id`.
    pub closed spec fn records(&self, id: Seq<char>) -> nat {
        records_with(self.entries@, id)
    }

    /// When the last sweep ran.
    pub closed spec fn last_sweep_spec(&self) -> u64 {
        self.last_sweep
    }

    /// An empty store whose sweep clock starts at `now`.
    pub fn new(now: u64) -> (r: SessionStore)
        ensures
            r.wf(),
            r@ == Map::<Seq<char>, ChatSession>::empty(),
            r.last_sweep_spec() == now,
    {
        let r = SessionStore { entries: Vec::new(), last_sweep: now };
        assert(r@ =~= Map::<Seq<char>, ChatSession>::empty());
        r
    }

    /// The number of sessions.
    pub fn len(&self) -> (r: usize)
        requires
            self.wf(),
        ensures
            r == self@.len(),
    {
        proof { self.lemma_len(); }
        self.entries.len()
    }

    proof fn lemma_len(&self)
        requires
            self.wf(),
        ensures
            self@.len() == self.entries@.len(),
            self@.dom().finite(),
    {
        lemma_map_len(self.entries@);
    }

    /// Where the record of `id` stands, if there is one.
    fn position(&self, id: &str) -> (r: Option<usize>)
        ensures
            match r {
                Some(i) => i < self.entries@.len() && self.entries@[i as int].0@ == id@,
                None => forall|j: int|
                    0 <= j < self.entries@.len() ==> self.entries@[j].0@ != id@,
            },
    {
        let mut i: usize = 0;
        while i < self.entries.len()
            invariant
                i <= self.entries@.len(),
                forall|j: int| 0 <= j < i ==> self.entries@[j].0@ != id@,
            decreases self.entries@.len() - i,
        {
            if same_text(self.entries[i].0.as_str(), id) {
                return Some(i);
            }
            i = i + 1;
        }
        None
    }

    /// Whether a session `id` exists.
    pub fn contains(&self, id: &str) -> (r: bool)
        requires
            self.wf(),
        ensures
            r == self@.contains_key(id@),
    {
        proof { lemma_map_of_keys(self.entries@, id@); }
        match self.position(id) {
            Some(_) => true,
            None => false,
        }
    }

    /// A copy of the turns of session `id`, if it exists.
    pub fn history(&self, id: &str) -> (r: Option<Vec<Message>>)
        requires
            self.wf(),
        ensures
            match r {
                Some(v) => self@.contains_key(id@) && v@ == self@[id@].messages@,
                None => !self@.contains_key(id@),
            },
    {
        proof { lemma_map_of_keys(self.entries@, id@); }
        match self.position(id) {
            Some(i) => {
                proof { lemma_map_of_at(self.entries@, i as int); }
                Some(copy_turns(&self.entries[i].1.messages))
            },
            None => None,
        }
    }

    /// Looks up session `id`: an existing one is marked used at `now` (its
    /// time never goes back) and a copy of its turns returned; an unseen id
    /// gets a new empty session. Either way the store then holds exactly one
    /// record for `id`.
    pub fn get_or_create(&mut self, id: &str, now: u64) -> (r: Vec<Message>)
        requires
            old(self).wf(),
        ensures
            final(self).wf(),
            final(self).last_sweep_spec() == old(self).last_sweep_spec(),
            final(self).records(id@) == 1,
            old(self)@.contains_key(id@) ==> {
                &&& r@ == old(self)@[id@].messages@
                &&& final(self)@ == old(self)@.insert(
                    id@,
                    ChatSession {
                        messages: old(self)@[id@].messages,
                        last_active: if now >= old(self)@[id@].last_active {
                            now
                        } else {
                            old(self)@[id@].last_active
                        },
                    },
                )
            },
            !old(self)@.contains_key(id@) ==> {
                &&& r@ == Seq::<Message>::empty()
                &&& final(self)@.contains_key(id@)
                &&& final(self)@[id@].messages@ == Seq::<Message>::empty()
                &&& final(self)@[id@].last_active == now
                &&& final(self)@.remove(id@) == old(self)@
            },
    {
        proof { lemma_map_of_keys(self.entries@, id@); }
        match self.position(id) {
            Some(i) => {
                proof { lemma_map_of_at(self.entries@, i as int); }
                let ghost before = self.entries@;
                let (key, session) = self.entries.remove(i);
                let last = if now >= session.last_active { now } else { session.last_active };
                let snapshot = copy_turns(&session.messages);
                let updated = ChatSession { messages: session.messages, last_active: last };
                self.entries.insert(i, (key, updated));
                proof {
                    assert(self.entries@ =~= before.update(
                        i as int,
                        (before[i as int].0, self.entries@[i as int].1),
                    ));
                    lemma_map_of_update(before, i as int, self.entries@[i as int].1);
                    assert(unique_ids(self.entries@)) by {
                        assert forall|a: int, b: int|
                            0 <= a < self.entries@.len() && 0 <= b < self.entries@.len() && a
                                != b implies self.entries@[a].0@ != self.entries@[b].0@ by {
                            assert(self.entries@[a].0@ == before[a].0@);
                            assert(self.entries@[b].0@ == before[b].0@);
                        }
                    }
                    lemma_records_unique(self.entries@, i as int);
                }
                snapshot
            },
            None => {
                let ghost before = self.entries@;
                let fresh = ChatSession { messages: Vec::new(), last_active: now };
                self.entries.push((id.to_owned(), fresh));
                proof {
                    assert(self.entries@.drop_last() =~= before);
                    assert(unique_ids(self.entries@)) by {
                        assert forall|a: int, b: int|
                            0 <= a < self.entries@.len() && 0 <= b < self.entries@.len() && a
                                != b implies self.entries@[a].0@ != self.entries@[b].0@ by {
                            if a < before.len() {
                                assert(self.entries@[a] == before[a]);
                            }
                            if b < before.len() {
                                assert(self.entries@[b] == before[b]);
                            }
                        }
                    }
                    lemma_records_unique(self.entries@, before.len() as int);
                    assert(self@.remove(id@) =~= old(self)@);
                }
                Vec::new()
            },
        }
    }

    /// Appends one assistant turn to session `id`; where the session is gone
    /// (cleared or evicted meanwhile) nothing changes.
    pub fn append_assistant(&mut self, id: &str, text: String)
        requires
            old(self).wf(),
        ensures
            final(self).wf(),
            final(self).last_sweep_spec() == old(self).last_sweep_spec(),
            forall|k: Seq<char>| #[trigger] final(self).records(k) == old(self).records(k),
            old(self)@.contains_key(id@) ==> final(self)@ == old(self)@.insert(
                id@,
                ChatSession {
                    messages: final(self)@[id@].messages,
                    last_active: old(self)@[id@].last_active,
                },
            ) && final(self)@[id@].messages@ == old(self)@[id@].messages@.push(
                Message { role: Role::Assistant, content: text },
            ),
            !old(self)@.contains_key(id@) ==> final(self)@ == old(self)@,
    {
        proof { lemma_map_of_keys(self.entries@, id@); }
        match self.position(id) {
            Some(i) => {
                proof { lemma_map_of_at(self.entries@, i as int); }
                let ghost before = self.entries@;
                let (key, mut session) = self.entries.remove(i);
                session.messages.push(Message { role: Role::Assistant, content: text });
                self.entries.insert(i, (key, session));
                proof {
                    assert(self.entries@ =~= before.update(
                        i as int,
                        (before[i as int].0, self.entries@[i as int].1),
                    ));
                    lemma_map_of_update(before, i as int, self.entries@[i as int].1);
                    assert(unique_ids(self.entries@)) by {
                        assert forall|a: int, b: int|
                            0 <= a < self.entries@.len() && 0 <= b < self.entries@.len() && a
                                != b implies self.entries@[a].0@ != self.entries@[b].0@ by {
                            assert(self.entries@[a].0@ == before[a].0@);
                            assert(self.entries@[b].0@ == before[b].0@);
                        }
                    }
                    assert forall|k: Seq<char>| #[trigger]
                        records_with(self.entries@, k) == records_with(before, k) by {
                        lemma_records_same_keys(before, self.entries@, k);
                    }
                }
            },
            None => {},
        }
    }
}

impl SessionStore {
    /// Appends copies of `turns` to session `id`, in order; where the session
    /// is gone nothing changes.
    pub fn append_turns(&mut self, id: &str, turns: &Vec<Message>)
        requires
            old(self).wf(),
        ensures
            final(self).wf(),
            final(self).last_sweep_spec() == old(self).last_sweep_spec(),
            forall|k: Seq<char>| #[trigger] final(self).records(k) == old(self).records(k),
            old(self)@.contains_key(id@) ==> final(self)@ == old(self)@.insert(
                id@,
                ChatSession {
                    messages: final(self)@[id@].messages,
                    last_active: old(self)@[id@].last_active,
                },
            ) && final(self)@[id@].messages@ == old(self)@[id@].messages@ + turns@,
            !old(self)@.contains_key(id@) ==> final(self)@ == old(self)@,
    {
        proof { lemma_map_of_keys(self.entries@, id@); }
        match self.position(id) {
            Some(i) => {
                proof { lemma_map_of_at(self.entries@, i as int); }
                let ghost before = self.entries@;
                let (key, mut session) = self.entries.remove(i);
                let ghost start = session.messages@;
                let mut k: usize = 0;
                while k < turns.len()
                    invariant
                        k <= turns@.len(),
                        session.messages@ == start + turns@.subrange(0, k as int),
                        self.entries@ == before.remove(i as int),
                        key == before[i as int].0,
                        session.last_active == before[i as int].1.last_active,
                        i < before.len(),
                        old(self).entries@ == before,
                        self.last_sweep == old(self).last_sweep,
                    decreases turns@.len() - k,
                {
                    session.messages.push(turns[k].clone());
                    assert(session.messages@ =~= start + turns@.subrange(0, k + 1));
                    k = k + 1;
                }
                assert(turns@.subrange(0, turns@.len() as int) =~= turns@);
                self.entries.insert(i, (key, session));
                proof {
                    assert(self.entries@ =~= before.update(
                        i as int,
                        (before[i as int].0, self.entries@[i as int].1),
                    ));
                    lemma_map_of_update(before, i as int, self.entries@[i as int].1);
                    assert(unique_ids(self.entries@)) by {
                        assert forall|a: int, b: int|
                            0 <= a < self.entries@.len() && 0 <= b < self.entries@.len() && a
                                != b implies self.entries@[a].0@ != self.entries@[b].0@ by {
                            assert(self.entries@[a].0@ == before[a].0@);
                            assert(self.entries@[b].0@ == before[b].0@);
                        }
                    }
                    assert forall|k: Seq<char>| #[trigger]
                        records_with(self.entries@, k) == records_with(before, k) by {
                        lemma_records_same_keys(before, self.entries@, k);
                    }
                }
            },
            None => {},
        }
    }
}

/// Whether a filter pass drops the session `k`: by id where `id` is given,
/// else by idleness at `now`.
spec fn dropped_by(id: Option<Seq<char>>, now: u64, timeout: u64, k: Seq<char>, s: ChatSession) -> bool {
    match id {
        Some(x) => k == x,
        None => expired(s, now, timeout),
    }
}

spec fn kept_of(m: Map<Seq<char>, ChatSession>, id: Option<Seq<char>>, now: u64, timeout: u64) -> Map<
    Seq<char>,
    ChatSession,
> {
    Map::new(
        |k: Seq<char>| m.contains_key(k) && !dropped_by(id, now, timeout, k, m[k]),
        |k: Seq<char>| m[k],
    )
}

impl SessionStore {
    /// Drops every session that `dropped_by` names, keeping the others in order.
    fn drop_where(&mut self, id: Option<&str>, now: u64, timeout: u64)
        requires
            old(self).wf(),
        ensures
            final(self).wf(),
            final(self).last_sweep_spec() == old(self).last_sweep_spec(),
            final(self)@ == kept_of(
                old(self)@,
                match id {
                    Some(x) => Some(x@),
                    None => None,
                },
                now,
                timeout,
            ),
    {
        let ghost gid = match id {
            Some(x) => Some(x@),
            None => None,
        };
        let mut all: Vec<(String, ChatSession)> = Vec::new();
        std::mem::swap(&mut self.entries, &mut all);
        let ghost orig = all@;
        let mut kept: Vec<(String, ChatSession)> = Vec::new();
        assert(orig.subrange(0, 0) =~= Seq::<(String, ChatSession)>::empty());
        assert(map_of(kept@) =~= kept_of(map_of(orig.subrange(0, 0)), gid, now, timeout));
        for e in it: all.into_iter()
            invariant
                it.seq() == orig,
                unique_ids(orig),
                unique_ids(kept@),
                gid == match id {
                    Some(x) => Some(x@),
                    None => None,
                },
                map_of(kept@) == kept_of(
                    map_of(orig.subrange(0, it.index() as int)),
                    gid,
                    now,
                    timeout,
                ),
                forall|j: int|
                    0 <= j < kept@.len() ==> exists|i: int|
                        0 <= i < it.index() && #[trigger] kept@[j].0@ == orig[i].0@,
        {
            let ghost idx = it.index() as int;
            let ghost prefix = orig.subrange(0, idx);
            let ghost next = orig.subrange(0, idx + 1);
            assert(next.drop_last() =~= prefix);
            assert(orig[idx] == e);
            let drop = match id {
                Some(x) => same_text(e.0.as_str(), x),
                None => {
                    let s = &e.1;
                    now >= s.last_active && now - s.last_active > timeout
                },
            };
            proof {
                lemma_map_of_keys(prefix, e.0@);
                if map_of(prefix).contains_key(e.0@) {
                    let i = choose|i: int| 0 <= i < prefix.len() && prefix[i].0@ == e.0@;
                    assert(prefix[i] == orig[i]);
                }
            }
            if drop {
                assert(map_of(kept@) =~= kept_of(map_of(next), gid, now, timeout));
            } else {
                let ghost before = kept@;
                kept.push(e);
                proof {
                    assert(kept@.drop_last() =~= before);
                    assert(map_of(kept@) =~= kept_of(map_of(next), gid, now, timeout));
                    assert forall|a: int, b: int|
                        0 <= a < kept@.len() && 0 <= b < kept@.len() && a != b implies kept@[a].0@
                        != kept@[b].0@ by {
                        if a < before.len() && b < before.len() {
                            assert(kept@[a] == before[a] && kept@[b] == before[b]);
                        } else if a < before.len() {
                            assert(kept@[a] == before[a]);
                            let i = choose|i: int| 0 <= i < idx && #[trigger] before[a].0@ == orig[i].0@;
                        } else {
                            assert(kept@[b] == before[b]);
                            let i = choose|i: int| 0 <= i < idx && #[trigger] before[b].0@ == orig[i].0@;
                        }
                    }
                    assert forall|j: int| 0 <= j < kept@.len() implies exists|i: int|
                        0 <= i < idx + 1 && #[trigger] kept@[j].0@ == orig[i].0@ by {
                        if j < before.len() {
                            assert(kept@[j] == before[j]);
                            let i = choose|i: int| 0 <= i < idx && #[trigger] before[j].0@ == orig[i].0@;
                            assert(kept@[j].0@ == orig[i].0@);
                        } else {
                            assert(kept@[j].0@ == orig[idx].0@);
                        }
                    }
                }
            }
        }
        assert(orig.subrange(0, orig.len() as int) =~= orig);
        self.entries = kept;
    }

    /// Ends session `id`; true where it existed.
    pub fn clear(&mut self, id: &str) -> (r: bool)
        requires
            old(self).wf(),
        ensures
            final(self).wf(),
            final(self).last_sweep_spec() == old(self).last_sweep_spec(),
            r == old(self)@.contains_key(id@),
            final(self)@ == old(self)@.remove(id@),
    {
        let existed = self.contains(id);
        self.drop_where(Some(id), 0, 0);
        assert(self@ =~= old(self)@.remove(id@));
        existed
    }

    /// Evicts every session idle for longer than `timeout` at `now`.
    pub fn sweep(&mut self, now: u64, timeout: u64)
        requires
            old(self).wf(),
        ensures
            final(self).wf(),
            final(self).last_sweep_spec() == old(self).last_sweep_spec(),
            final(self)@ == swept(old(self)@, now, timeout),
    {
        self.drop_where(None, now, timeout);
        assert(self@ =~= swept(old(self)@, now, timeout));
    }

    /// Sweeps with the standard timeout where more than the sweep interval has
    /// passed since the last sweep, and then records `now` as its time; true
    /// where it swept.
    pub fn maybe_sweep(&mut self, now: u64) -> (r: bool)
        requires
            old(self).wf(),
        ensures
            final(self).wf(),
            r == (now >= old(self).last_sweep_spec() && now - old(self).last_sweep_spec()
                > SWEEP_INTERVAL_MS),
            r ==> final(self)@ == swept(old(self)@, now, SESSION_TIMEOUT_MS)
                && final(self).last_sweep_spec() == now,
            !r ==> final(self)@ == old(self)@ && final(self).last_sweep_spec()
                == old(self).last_sweep_spec(),
    {
        if now >= self.last_sweep && now - self.last_sweep > SWEEP_INTERVAL_MS {
            self.sweep(now, SESSION_TIMEOUT_MS);
            self.last_sweep = now;
            true
        } else {
            false
        }
    }
}

/// Evicts every session of `sessions` idle for longer than the session
/// timeout at `now`.
pub fn cleanup_old_sessions(sessions: &mut SessionStore, now: u64)
    requires
        old(sessions).wf(),
    ensures
        final(sessions).wf(),
        final(sessions)@ == swept(old(sessions)@, now, SESSION_TIMEOUT_MS),
{
    sessions.sweep(now, SESSION_TIMEOUT_MS);
}

/// A well-formed store never holds two records for one id: a session that
/// exists has exactly one record, any other id none. Every operation of the
/// store keeps it well formed, so calls on one id, however they interleave
/// under the store's lock, never leave two independently created records.
pub proof fn lemma_one_record_per_id(s: SessionStore, id: Seq<char>)
    requires
        s.wf(),
    ensures
        s.records(id) <= 1,
        s@.contains_key(id) <==> s.records(id) == 1,
{
    lemma_map_of_keys(s.entries@, id);
    if s@.contains_key(id) {
        let i = choose|i: int| 0 <= i < s.entries@.len() && s.entries@[i].0@ == id;
        lemma_records_unique(s.entries@, i);
    } else {
        lemma_records_absent(s.entries@, id);
    }
}

/// A session last used at `t` survives a sweep at `t + timeout - eps` and
/// is evicted by one at `t + timeout + eps`, for any `0 < eps <= timeout`.
pub proof fn lemma_idle_window(
    m: Map<Seq<char>, ChatSession>,
    id: Seq<char>,
    t: u64,
    timeout: u64,
    eps: u64,
)
    requires
        m.contains_key(id),
        m[id].last_active == t,
        0 < eps <= timeout,
        t + timeout + eps <= u64::MAX,
    ensures
        swept(m, (t + timeout - eps) as u64, timeout).contains_key(id),
        !swept(m, (t + timeout + eps) as u64, timeout).contains_key(id),
{
}

proof fn lemma_records_same_keys(
    a: Seq<(String, ChatSession)>,
    b: Seq<(String, ChatSession)>,
    k: Seq<char>,
)
    requires
        a.len() == b.len(),
        forall|j: int| 0 <= j < a.len() ==> a[j].0@ == b[j].0@,
    ensures
        records_with(a, k) == records_with(b, k),
    decreases a.len(),
{
    if a.len() > 0 {
        let (ia, ib) = (a.drop_last(), b.drop_last());
        assert forall|j: int| 0 <= j < ia.len() implies ia[j].0@ == ib[j].0@ by {
            assert(ia[j] == a[j] && ib[j] == b[j]);
        }
        lemma_records_same_keys(ia, ib, k);
    }
}

proof fn lemma_map_len(entries: Seq<(String, ChatSession)>)
    requires
        unique_ids(entries),
    ensures
        map_of(entries).dom().finite(),
        map_of(entries).len() == entries.len(),
    decreases entries.len(),
{
    if entries.len() > 0 {
        let init = entries.drop_last();
        assert(unique_ids(init)) by {
            assert forall|a: int, b: int|
                0 <= a < init.len() && 0 <= b < init.len() && a != b implies init[a].0@
                != init[b].0@ by {
                assert(init[a] == entries[a] && init[b] == entries[b]);
            }
        }
        lemma_map_len(init);
        lemma_map_of_keys(init, entries.last().0@);
        if map_of(init).contains_key(entries.last().0@) {
            let i = choose|i: int| 0 <= i < init.len() && init[i].0@ == entries.last().0@;
            assert(init[i] == entries[i]);
        }
    }
}

} // verus!
