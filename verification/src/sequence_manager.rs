//! Sequence lifecycle management.
//!
//! A connection runs many thought chains over time. The manager knows which
//! chain is the active one of each connection and hands out the chain numbers:
//!
//! ```text
//! connection_id (one per agent session)
//!   └── sequence_id (many thought chains per connection)
//!         └── thought_number (many thoughts per chain: 1, 2, 3...)
//! ```

use dashmap::DashMap;
use vstd::prelude::*;

verus! {

/// `dashmap::DashMap`, the sharded hash map that holds the active sequences
/// and the active sessions.
#[verifier::external_type_specification]
#[verifier::external_body]
#[verifier::reject_recursive_types(K)]
#[verifier::reject_recursive_types(V)]
#[verifier::reject_recursive_types(S)]
pub struct ExDashMap<K, V, S>(dashmap::DashMap<K, V, S>);

/// What a map of sequence numbers holds, by the text of its keys.
pub uninterp spec fn sequence_entries(map: DashMap<String, u64>) -> Map<Seq<char>, u64>;

/// `DashMap::new`: the map holds nothing.
#[verifier::external_body]
fn new_sequence_map() -> (created: DashMap<String, u64>)
    ensures
        (sequence_entries(created) == Map::<Seq<char>, u64>::empty()),
{
    DashMap::new()
}

/// `DashMap::get`, with the entry's value copied out: the value under the key,
/// and `None` when the key is absent.
#[verifier::external_body]
fn get_sequence(map: &DashMap<String, u64>, key: &str) -> (value: Option<u64>)
    ensures
        value == (if sequence_entries(*map).contains_key(key@) {
            Some(sequence_entries(*map)[key@])
        } else {
            None
        }),
{
    map.get(key).map(|entry| *entry)
}

/// `DashMap::insert`: the key maps to the value afterwards, every other entry
/// stays as it was.
#[verifier::external_body]
fn insert_sequence(map: &mut DashMap<String, u64>, key: String, value: u64)
    ensures
        sequence_entries(*final(map)) == sequence_entries(*old(map)).insert(key@, value),
{
    map.insert(key, value);
}

/// `DashMap::remove`, with the key dropped: hands out the value under the key
/// and takes the entry away, every other entry stays as it was.
#[verifier::external_body]
fn remove_sequence(map: &mut DashMap<String, u64>, key: &str) -> (value: Option<u64>)
    ensures
        sequence_entries(*final(map)) == sequence_entries(*old(map)).remove(key@),
        value == (if sequence_entries(*old(map)).contains_key(key@) {
            Some(sequence_entries(*old(map))[key@])
        } else {
            None
        }),
{
    map.remove(key).map(|entry| entry.1)
}

/// The sequence state: the active sequence of each connection, and the number
/// that the next new sequence gets.
#[verifier::ext_equal]
pub struct SequenceView {
    pub current: Map<Seq<char>, u64>,
    pub next_id: u64,
}

impl SequenceView {
    /// The active sequence of a connection.
    pub open spec fn active(self, connection: Seq<char>) -> Option<u64> {
        if self.current.contains_key(connection) {
            Some(self.current[connection])
        } else {
            None
        }
    }

    /// Whether a thought starts a new sequence: the first thought of a chain
    /// always does, and so does any thought of a connection without one.
    pub open spec fn starts_sequence(self, connection: Seq<char>, thought_number: u32) -> bool {
        thought_number == 1 || !self.current.contains_key(connection)
    }

    /// The state after a new sequence was started for a connection.
    pub open spec fn with_new_sequence(self, connection: Seq<char>) -> SequenceView {
        SequenceView {
            current: self.current.insert(connection, self.next_id),
            next_id: if self.next_id == u64::MAX {
                0
            } else {
                (self.next_id + 1) as u64
            },
        }
    }

    /// The state after a thought was resolved.
    pub open spec fn resolved(self, connection: Seq<char>, thought_number: u32) -> SequenceView {
        if self.starts_sequence(connection, thought_number) {
            self.with_new_sequence(connection)
        } else {
            self
        }
    }

    /// The state after the sequence of a connection was cleaned up.
    pub open spec fn cleaned(self, connection: Seq<char>) -> SequenceView {
        SequenceView { current: self.current.remove(connection), next_id: self.next_id }
    }

    /// No active sequence has a number that is still to be handed out, and no
    /// two connections share one.
    pub open spec fn ids_are_used_once(self) -> bool {
        &&& forall|c: Seq<char>| #[trigger]
            self.current.contains_key(c) ==> self.current[c] < self.next_id
        &&& forall|c: Seq<char>, d: Seq<char>|
            #![trigger self.current.contains_key(c), self.current.contains_key(d)]
            self.current.contains_key(c) && self.current.contains_key(d) && c != d
                ==> self.current[c] != self.current[d]
    }
}

/// Manages sequence lifecycle per connection.
///
/// Each connection can have multiple thought sequences over time. The manager
/// tracks which sequence is active for each connection and generates new
/// sequence numbers, counting from 1.
#[derive(Debug)]
pub struct SequenceManager {
    /// Active sequence per connection.
    current_sequence: DashMap<String, u64>,
    /// Number of the next new sequence.
    next_id: u64,
}

impl View for SequenceManager {
    type V = SequenceView;

    closed spec fn view(&self) -> SequenceView {
        SequenceView { current: sequence_entries(self.current_sequence), next_id: self.next_id }
    }
}

impl SequenceManager {
    /// Creates a manager without any active sequence.
    #[must_use]
    pub fn new() -> (manager: Self)
        ensures
            manager@ == (SequenceView { current: Map::empty(), next_id: 1 }),
            manager@.ids_are_used_once(),
    {
        SequenceManager { current_sequence: new_sequence_map(), next_id: 1 }
    }

    /// Resolves the sequence of a thought.
    ///
    /// A new sequence is started when the connection has no active sequence,
    /// or when `thought_number == 1` (an explicit new chain start).
    ///
    /// Returns `(sequence_id, is_new_sequence, previous_sequence_id)`.
    pub fn resolve(&mut self, connection_id: &str, thought_number: u32) -> (result: (
        u64,
        bool,
        Option<u64>,
    ))
        ensures
            final(self)@ == old(self)@.resolved(connection_id@, thought_number),
            old(self)@.starts_sequence(connection_id@, thought_number) ==> result == (
                old(self)@.next_id,
                true,
                old(self)@.active(connection_id@),
            ),
            !old(self)@.starts_sequence(connection_id@, thought_number) ==> result == (
                old(self)@.current[connection_id@],
                false,
                None::<u64>,
            ),
    {
        if thought_number == 1 {
            let previous: Option<u64> = remove_sequence(&mut self.current_sequence, connection_id);
            let new_seq: u64 = self.next_id;
            self.next_id = self.next_id.wrapping_add(1);
            insert_sequence(&mut self.current_sequence, connection_id.to_string(), new_seq);
            assert(final(self)@ =~= old(self)@.with_new_sequence(connection_id@));
            return (new_seq, true, previous);
        }
        if let Some(seq_id) = get_sequence(&self.current_sequence, connection_id) {
            return (seq_id, false, None);
        }
        let new_seq: u64 = self.next_id;
        self.next_id = self.next_id.wrapping_add(1);
        insert_sequence(&mut self.current_sequence, connection_id.to_string(), new_seq);
        (new_seq, true, None)
    }

    /// The active sequence of a connection, if there is one.
    #[must_use]
    pub fn current(&self, connection_id: &str) -> (sequence: Option<u64>)
        ensures
            sequence == self@.active(connection_id@),
    {
        get_sequence(&self.current_sequence, connection_id)
    }

    /// Cleans up the sequence of a connection (called when a chain completes).
    pub fn cleanup(&mut self, connection_id: &str)
        ensures
            final(self)@ == old(self)@.cleaned(connection_id@),
    {
        let _removed: Option<u64> = remove_sequence(&mut self.current_sequence, connection_id);
    }
}

impl Default for SequenceManager {
    fn default() -> (manager: Self)
        ensures
            manager@ == (SequenceView { current: Map::empty(), next_id: 1 }),
    {
        Self::new()
    }
}

/// Resolving keeps the numbers used once, as long as they have not run out.
pub proof fn law_resolve_keeps_ids_used_once(
    state: SequenceView,
    connection: Seq<char>,
    thought_number: u32,
)
    requires
        state.ids_are_used_once(),
        state.next_id < u64::MAX,
    ensures
        state.resolved(connection, thought_number).ids_are_used_once(),
{
}

/// Cleaning up keeps the numbers used once.
pub proof fn law_cleanup_keeps_ids_used_once(state: SequenceView, connection: Seq<char>)
    requires
        state.ids_are_used_once(),
    ensures
        state.cleaned(connection).ids_are_used_once(),
{
}

/// A new sequence gets a number that no connection has, and the numbers handed
/// out grow strictly.
pub proof fn law_new_sequences_are_fresh(
    state: SequenceView,
    connection: Seq<char>,
    thought_number: u32,
)
    requires
        state.ids_are_used_once(),
        state.next_id < u64::MAX,
        state.starts_sequence(connection, thought_number),
    ensures
        forall|c: Seq<char>| #[trigger]
            state.current.contains_key(c) ==> state.current[c] != state.next_id,
        state.resolved(connection, thought_number).next_id > state.next_id,
{
}

/// After a thought was resolved its connection has an active sequence, and
/// every further thought but the first of a chain stays in that sequence.
pub proof fn law_chain_stays_in_its_sequence(
    state: SequenceView,
    connection: Seq<char>,
    first: u32,
    later: u32,
)
    requires
        later != 1,
    ensures
        ({
            let after = state.resolved(connection, first);
            &&& after.active(connection) is Some
            &&& !after.starts_sequence(connection, later)
            &&& after.resolved(connection, later) == after
        }),
{
}

/// What happens on one connection leaves the sequences of the others alone.
pub proof fn law_connections_are_isolated(
    state: SequenceView,
    connection: Seq<char>,
    thought_number: u32,
    other: Seq<char>,
)
    requires
        other != connection,
    ensures
        state.resolved(connection, thought_number).active(other) == state.active(other),
        state.cleaned(connection).active(other) == state.active(other),
{
}

/// After cleanup the next thought of the connection starts a new sequence,
/// whatever its number, and knows of no previous one.
pub proof fn law_cleanup_ends_the_sequence(
    state: SequenceView,
    connection: Seq<char>,
    thought_number: u32,
)
    ensures
        state.cleaned(connection).active(connection) is None,
        state.cleaned(connection).starts_sequence(connection, thought_number),
{
}

/// A thought with the number 1, and any thought of a connection without a
/// sequence, starts the next sequence; every other thought changes nothing. The
/// numbers count up by one, and no other connection is touched.
pub proof fn law_sequences_are_numbered_in_order(
    state: SequenceView,
    connection: Seq<char>,
    thought_number: u32,
    other: Seq<char>,
)
    requires
        other != connection,
    ensures
        ({
            let after = state.resolved(connection, thought_number);
            let starts = thought_number == 1 || !state.current.contains_key(connection);
            &&& state.starts_sequence(connection, thought_number) <==> starts
            &&& after.current.contains_key(connection)
            &&& starts ==> after.current[connection] == state.next_id
            &&& starts && state.next_id < u64::MAX ==> after.next_id == state.next_id + 1
            &&& starts && state.next_id == u64::MAX ==> after.next_id == 0
            &&& !starts ==> after.current[connection] == state.current[connection] && after.next_id
                == state.next_id
            &&& after.current.contains_key(other) == state.current.contains_key(other)
            &&& state.current.contains_key(other) ==> after.current[other] == state.current[other]
        }),
        state.current.contains_key(connection) ==> state.active(connection) == Some(
            state.current[connection],
        ),
        !state.current.contains_key(connection) ==> state.active(connection) is None,
        !state.cleaned(connection).current.contains_key(connection),
        state.cleaned(connection).next_id == state.next_id,
        state.cleaned(connection).current.contains_key(other) == state.current.contains_key(other),
        state.current.contains_key(other) ==> state.cleaned(connection).current[other]
            == state.current[other],
{
}

} // verus!
