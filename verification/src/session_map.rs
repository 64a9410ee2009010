//! The map of the active sessions.

use crate::types::SessionHandle;
use dashmap::DashMap;
use vstd::prelude::*;

verus! {

/// What a map of sessions holds, by the text of its keys.
pub uninterp spec fn session_entries(map: DashMap<String, SessionHandle>) -> Map<
    Seq<char>,
    SessionHandle,
>;

/// `DashMap::new`: the map holds nothing.
#[verifier::external_body]
fn new_session_map() -> (created: DashMap<String, SessionHandle>)
    ensures
        (session_entries(created) == Map::<Seq<char>, SessionHandle>::empty()),
{
    DashMap::new()
}

/// `DashMap::get`, with the entry's value copied out: the value under the key,
/// and `None` when the key is absent.
#[verifier::external_body]
fn get_session(map: &DashMap<String, SessionHandle>, key: &str) -> (value: Option<SessionHandle>)
    ensures
        value == (if session_entries(*map).contains_key(key@) {
            Some(session_entries(*map)[key@])
        } else {
            None
        }),
{
    map.get(key).map(|entry| *entry)
}

/// `DashMap::insert`: the key maps to the value afterwards, every other entry
/// stays as it was.
#[verifier::external_body]
fn insert_session(map: &mut DashMap<String, SessionHandle>, key: String, value: SessionHandle)
    ensures
        session_entries(*final(map)) == session_entries(*old(map)).insert(key@, value),
{
    map.insert(key, value);
}

/// Whether a list holds every entry of a map once, in whatever order, and
/// nothing else.
pub open spec fn lists_entries(
    list: Seq<(String, SessionHandle)>,
    entries: Map<Seq<char>, SessionHandle>,
) -> bool {
    &&& forall|i: int|
        #![trigger list[i]]
        0 <= i < list.len() ==> entries.contains_key(list[i].0@) && entries[list[i].0@] == list[i].1
    &&& forall|i: int, j: int|
        #![trigger list[i], list[j]]
        0 <= i < j < list.len() ==> list[i].0@ != list[j].0@
    &&& forall|key: Seq<char>| #[trigger]
        entries.contains_key(key) ==> exists|i: int|
            0 <= i < list.len() && (#[trigger] list[i]).0@ == key
}

/// `DashMap::iter`, with each entry copied out: every entry of the map comes
/// up once. Nothing is said of their order.
#[verifier::external_body]
fn list_sessions(map: &DashMap<String, SessionHandle>) -> (list: Vec<(String, SessionHandle)>)
    ensures
        lists_entries(list@, session_entries(*map)),
{
    map.iter().map(|entry| (entry.key().clone(), *entry.value())).collect()
}

/// Whether a number is in a list.
pub(crate) fn is_listed_number(numbers: &Vec<u64>, number: u64) -> (listed: bool)
    ensures
        listed == numbers@.contains(number),
{
    let mut i: usize = 0;
    while i < numbers.len()
        invariant
            i <= numbers.len(),
            forall|j: int| 0 <= j < i ==> #[trigger] numbers[j] != number,
        decreases numbers.len() - i,
    {
        if numbers[i] == number {
            assert(numbers@[i as int] == number);
            return true;
        }
        i = i + 1;
    }
    false
}

/// Which sessions a cleanup keeps: those whose actor runs and that were used
/// at or after the cutoff.
#[derive(Debug)]
pub struct KeepRule {
    /// The actors that have stopped.
    pub closed: Vec<u64>,
    /// The time, on the monotonic clock, since which a session must have been
    /// used.
    pub cutoff: u128,
}

impl KeepRule {
    /// Whether the actor of a session runs.
    pub open spec fn runs(self, handle: SessionHandle) -> bool {
        !self.closed@.contains(handle.actor)
    }

    /// Whether a session is kept.
    pub open spec fn keeps(self, handle: SessionHandle) -> bool {
        self.runs(handle) && handle.last_activity >= self.cutoff
    }

    /// Whether a session has expired: its actor runs, but nobody has used it
    /// since the cutoff.
    pub open spec fn expires(self, handle: SessionHandle) -> bool {
        self.runs(handle) && handle.last_activity < self.cutoff
    }

    /// Whether the actor of a session has stopped.
    pub fn is_closed(&self, handle: &SessionHandle) -> (closed: bool)
        ensures
            closed == !self.runs(*handle),
    {
        is_listed_number(&self.closed, handle.actor)
    }

    /// Whether a session is kept.
    pub fn is_kept(&self, handle: &SessionHandle) -> (kept: bool)
        ensures
            kept == self.keeps(*handle),
    {
        !self.is_closed(handle) && handle.last_activity >= self.cutoff
    }

    /// Whether a session has expired.
    pub fn is_expired(&self, handle: &SessionHandle) -> (expired: bool)
        ensures
            expired == self.expires(*handle),
    {
        !self.is_closed(handle) && handle.last_activity < self.cutoff
    }
}

/// The entries that a cleanup keeps.
pub open spec fn kept_entries(
    entries: Map<Seq<char>, SessionHandle>,
    rule: KeepRule,
) -> Map<Seq<char>, SessionHandle> {
    entries.restrict(
        Set::new(|key: Seq<char>| entries.contains_key(key) && rule.keeps(entries[key])),
    )
}

/// `DashMap::retain`, by the rule of a cleanup: exactly the entries that the
/// rule keeps stay, as they were.
#[verifier::external_body]
fn retain_sessions(map: &mut DashMap<String, SessionHandle>, rule: &KeepRule)
    ensures
        session_entries(*final(map)) == kept_entries(session_entries(*old(map)), *rule),
{
    map.retain(|_key, handle| rule.is_kept(handle));
}

/// The active sessions, by connection.
#[derive(Debug)]
pub struct SessionMap {
    sessions: DashMap<String, SessionHandle>,
}

impl View for SessionMap {
    type V = Map<Seq<char>, SessionHandle>;

    closed spec fn view(&self) -> Map<Seq<char>, SessionHandle> {
        session_entries(self.sessions)
    }
}

impl SessionMap {
    /// A map without sessions.
    pub fn new() -> (map: Self)
        ensures
            map@ == Map::<Seq<char>, SessionHandle>::empty(),
    {
        SessionMap { sessions: new_session_map() }
    }

    /// The session of a connection.
    pub fn get(&self, id: &str) -> (handle: Option<SessionHandle>)
        ensures
            handle == (if self@.contains_key(id@) {
                Some(self@[id@])
            } else {
                None
            }),
    {
        get_session(&self.sessions, id)
    }

    /// Makes a session the one of a connection.
    pub fn insert(&mut self, id: String, handle: SessionHandle)
        ensures
            final(self)@ == old(self)@.insert(id@, handle),
    {
        insert_session(&mut self.sessions, id, handle);
    }

    /// All sessions, in whatever order.
    pub fn list(&self) -> (list: Vec<(String, SessionHandle)>)
        ensures
            lists_entries(list@, self@),
    {
        list_sessions(&self.sessions)
    }

    /// Drops the sessions that a rule does not keep.
    pub fn retain(&mut self, rule: &KeepRule)
        ensures
            final(self)@ == kept_entries(old(self)@, *rule),
    {
        retain_sessions(&mut self.sessions, rule);
    }
}

/// A session is kept exactly when its actor has not stopped and it was used at or
/// after the cutoff; it has expired exactly when its actor has not stopped and it
/// was not used since.
pub proof fn law_keeping_goes_by_actor_and_last_use(rule: KeepRule, handle: SessionHandle)
    ensures
        rule.runs(handle) <==> !rule.closed@.contains(handle.actor),
        rule.keeps(handle) <==> !rule.closed@.contains(handle.actor) && rule.cutoff
            <= handle.last_activity,
        rule.expires(handle) <==> !rule.closed@.contains(handle.actor) && rule.cutoff
            > handle.last_activity,
{
}

/// What a cleanup keeps is there as it was, and nothing else is.
pub proof fn law_kept_sessions_are_as_they_were(
    entries: Map<Seq<char>, SessionHandle>,
    rule: KeepRule,
    key: Seq<char>,
)
    ensures
        ({
            let kept = kept_entries(entries, rule);
            &&& kept.contains_key(key) <==> entries.contains_key(key) && !rule.closed@.contains(
                entries[key].actor,
            ) && rule.cutoff <= entries[key].last_activity
            &&& kept.contains_key(key) ==> kept[key] == entries[key]
        }),
{
}

/// A list of all entries has one element for each of them, with its key and its
/// session.
pub proof fn law_listed_entries_are_the_entries(
    list: Seq<(String, SessionHandle)>,
    entries: Map<Seq<char>, SessionHandle>,
    key: Seq<char>,
    handle: SessionHandle,
)
    requires
        lists_entries(list, entries),
    ensures
        (entries.contains_key(key) && entries[key] == handle) <==> exists|i: int|
            0 <= i < list.len() && (#[trigger] list[i]).0@ == key && list[i].1 == handle,
        forall|i: int, j: int|
            0 <= i < list.len() && 0 <= j < list.len() && (#[trigger] list[i]).0@ == (
            #[trigger] list[j]).0@ ==> i == j,
{
    if entries.contains_key(key) && entries[key] == handle {
        let i = choose|i: int| 0 <= i < list.len() && (#[trigger] list[i]).0@ == key;
        assert(list[i].1 == handle);
    }
    assert forall|i: int, j: int|
        0 <= i < list.len() && 0 <= j < list.len() && (#[trigger] list[i]).0@ == (
        #[trigger] list[j]).0@ implies i == j by {
        if i < j {
            assert(list[i].0@ != list[j].0@);
        }
        if j < i {
            assert(list[j].0@ != list[i].0@);
        }
    }
}

/// Nothing lists what has no entries, and a list of all entries, with a further
/// entry at its end, lists what has that entry too.
pub proof fn law_lists_grow_with_the_entries(
    list: Seq<(String, SessionHandle)>,
    entries: Map<Seq<char>, SessionHandle>,
    key: String,
    handle: SessionHandle,
)
    requires
        lists_entries(list, entries),
        !entries.contains_key(key@),
    ensures
        lists_entries(Seq::empty(), Map::empty()),
        lists_entries(list.push((key, handle)), entries.insert(key@, handle)),
{
    let longer = list.push((key, handle));
    let more = entries.insert(key@, handle);
    assert(longer[list.len() as int].0@ == key@);
    assert forall|other: Seq<char>| #[trigger] more.contains_key(other) implies exists|i: int|
        0 <= i < longer.len() && (#[trigger] longer[i]).0@ == other by {
        if other != key@ {
            assert(entries.contains_key(other));
            let i = choose|i: int| 0 <= i < list.len() && (#[trigger] list[i]).0@ == other;
            assert(longer[i] == list[i]);
        }
    }
    assert forall|i: int|
        #![trigger longer[i]]
        0 <= i < longer.len() implies more.contains_key(longer[i].0@) && more[longer[i].0@]
        == longer[i].1 by {
        if i < list.len() {
            assert(longer[i] == list[i]);
        }
    }
    assert forall|i: int, j: int|
        #![trigger longer[i], longer[j]]
        0 <= i < j < longer.len() implies longer[i].0@ != longer[j].0@ by {
        assert(longer[i] == list[i]);
        if j < list.len() {
            assert(longer[j] == list[j]);
        }
    }
}

} // verus!
