//! Cleaning up old sessions on disk.
//!
//! Every hour the directories of the store are gone through, one by one. A
//! session that nobody has used for longer than the configured age is deleted.

use crate::clock::wall_elapsed_since;
use crate::restore::SessionRead;
use crate::types::{
    clone_text, PersistedSessionFile, PersistenceCommand, PersistenceConfig, SessionMetadataFile,
};
use vstd::prelude::*;

verus! {

/// Nanoseconds between two cleanups of the disk: one hour.
pub const DISK_CLEANUP_INTERVAL: u128 = 3_600_000_000_000;

/// What a store keeps in the file `session.json` of a session directory.
#[derive(Debug, Clone, Copy, PartialEq, Eq)]
pub enum StoreLayout {
    /// The whole session. One that cannot be understood is of no use, and is
    /// deleted.
    SessionFiles,
    /// The metadata of the session, beside one file per thought. One that
    /// cannot be understood is left alone.
    ThoughtFiles,
}

/// What a cleanup wants to know of a session: its id, and when it was last
/// used, on the wall clock.
#[derive(Debug)]
pub struct SessionStamp {
    pub session_id: String,
    pub last_activity: i128,
}

/// The id and the age mark of a session.
#[verifier::ext_equal]
pub struct StampView {
    pub session_id: Seq<char>,
    pub last_activity: i128,
}

impl View for SessionStamp {
    type V = StampView;

    open spec fn view(&self) -> StampView {
        StampView { session_id: self.session_id@, last_activity: self.last_activity }
    }
}

impl PersistedSessionFile {
    /// What a cleanup wants to know of the session.
    pub fn stamp(&self) -> (stamp: SessionStamp)
        ensures
            stamp@ == (StampView {
                session_id: self.session_id@,
                last_activity: self.last_activity,
            }),
    {
        SessionStamp { session_id: self.session_id.clone(), last_activity: self.last_activity }
    }
}

impl SessionMetadataFile {
    /// What a cleanup wants to know of the session.
    pub fn stamp(&self) -> (stamp: SessionStamp)
        ensures
            stamp@ == (StampView {
                session_id: self.session_id@,
                last_activity: self.last_activity,
            }),
    {
        SessionStamp { session_id: self.session_id.clone(), last_activity: self.last_activity }
    }
}

impl View for SessionRead<SessionStamp> {
    type V = SessionRead<StampView>;

    open spec fn view(&self) -> SessionRead<StampView> {
        match *self {
            SessionRead::Unreadable => SessionRead::Unreadable,
            SessionRead::Corrupt => SessionRead::Corrupt,
            SessionRead::Parsed(stamp) => SessionRead::Parsed(stamp@),
        }
    }
}

/// A request of a cleanup about one entry of the store's directory.
#[derive(Debug, PartialEq, Eq)]
pub enum EntryRequest<T> {
    /// Is the entry a directory?
    Kind,
    /// Read the session in the file with this name in it.
    ReadFile(T),
}

/// The outcome of a request about an entry.
#[derive(Debug)]
pub enum EntryEvent<S> {
    /// Whether the entry is a directory, if that could be found out.
    Kind(Option<bool>),
    /// What came of reading the session, and the time on the wall clock.
    Read { read: SessionRead<S>, wall_now: i128 },
}

/// The check of one entry of the store's directory. `T` is a text; `name` is
/// the entry's name, when it is a text.
#[derive(Debug, PartialEq, Eq)]
pub enum EntryCheck<T> {
    /// Is the entry a directory?
    Kind { layout: StoreLayout, cleanup_after: u128, name: Option<T> },
    /// It is: read the session in it.
    Read { layout: StoreLayout, cleanup_after: u128, name: Option<T> },
    /// The entry is left alone.
    Keep,
    /// The session is to be deleted.
    Delete { session_id: T },
}

/// A check, by views.
pub type EntryCheckView = EntryCheck<Seq<char>>;

/// An outcome, by views.
pub type EntryEventView = EntryEvent<StampView>;

/// The view of an optional name.
pub open spec fn name_view(name: Option<String>) -> Option<Seq<char>> {
    match name {
        Some(n) => Some(n@),
        None => None,
    }
}

/// The view of an optional request.
pub open spec fn entry_request_view(request: Option<EntryRequest<String>>) -> Option<
    EntryRequest<Seq<char>>,
> {
    match request {
        Some(EntryRequest::Kind) => Some(EntryRequest::Kind),
        Some(EntryRequest::ReadFile(name)) => Some(EntryRequest::ReadFile(name@)),
        None => None,
    }
}

impl View for EntryEvent<SessionStamp> {
    type V = EntryEventView;

    open spec fn view(&self) -> EntryEventView {
        match *self {
            EntryEvent::Kind(kind) => EntryEvent::Kind(kind),
            EntryEvent::Read { read, wall_now } => EntryEvent::Read { read: read@, wall_now },
        }
    }
}

impl View for EntryCheck<String> {
    type V = EntryCheckView;

    open spec fn view(&self) -> EntryCheckView {
        match *self {
            EntryCheck::Kind { layout, cleanup_after, name } => EntryCheck::Kind {
                layout,
                cleanup_after,
                name: name_view(name),
            },
            EntryCheck::Read { layout, cleanup_after, name } => EntryCheck::Read {
                layout,
                cleanup_after,
                name: name_view(name),
            },
            EntryCheck::Keep => EntryCheck::Keep,
            EntryCheck::Delete { session_id } => EntryCheck::Delete { session_id: session_id@ },
        }
    }
}

/// What becomes of an entry whose session cannot be understood: in a store of
/// session files it is deleted, under the name of its directory.
pub open spec fn corrupt_entry(layout: StoreLayout, name: Option<Seq<char>>) -> EntryCheckView {
    match (layout, name) {
        (StoreLayout::SessionFiles, Some(session_id)) => EntryCheck::Delete { session_id },
        _ => EntryCheck::Keep,
    }
}

/// What becomes of a session by its age: it is deleted once nobody has used it
/// for longer than `cleanup_after`.
pub open spec fn aged_entry(stamp: StampView, cleanup_after: u128, wall_now: i128) -> EntryCheckView {
    if crate::clock::wall_elapsed(stamp.last_activity, wall_now) > cleanup_after {
        EntryCheck::Delete { session_id: stamp.session_id }
    } else {
        EntryCheck::Keep
    }
}

/// A check at its start.
pub open spec fn entry_check(
    layout: StoreLayout,
    cleanup_after: u128,
    name: Option<Seq<char>>,
) -> EntryCheckView {
    EntryCheck::Kind { layout, cleanup_after, name }
}

impl EntryCheck<Seq<char>> {
    /// The request that comes next.
    pub open spec fn request(self) -> Option<EntryRequest<Seq<char>>> {
        match self {
            EntryCheck::Kind { .. } => Some(EntryRequest::Kind),
            EntryCheck::Read { .. } => Some(EntryRequest::ReadFile("session.json"@)),
            EntryCheck::Keep => None,
            EntryCheck::Delete { .. } => None,
        }
    }

    /// The check after an outcome. An outcome that does not answer the request
    /// changes nothing.
    pub open spec fn step(self, event: EntryEventView) -> EntryCheckView {
        match (self, event) {
            (EntryCheck::Kind { layout, cleanup_after, name }, EntryEvent::Kind(kind)) => if kind
                == Some(true) {
                EntryCheck::Read { layout, cleanup_after, name }
            } else {
                EntryCheck::Keep
            },
            (
                EntryCheck::Read { layout, cleanup_after, name },
                EntryEvent::Read { read, wall_now },
            ) => match read {
                SessionRead::Unreadable => EntryCheck::Keep,
                SessionRead::Corrupt => corrupt_entry(layout, name),
                SessionRead::Parsed(stamp) => aged_entry(stamp, cleanup_after, wall_now),
            },
            _ => self,
        }
    }

    /// The check after a list of outcomes.
    pub open spec fn run(self, events: Seq<EntryEventView>) -> EntryCheckView
        decreases events.len(),
    {
        if events.len() == 0 {
            self
        } else {
            self.run(events.drop_last()).step(events.last())
        }
    }
}

/// What becomes of an entry whose session cannot be understood.
fn decide_corrupt(layout: StoreLayout, name: Option<String>) -> (check: EntryCheck<String>)
    ensures
        check@ == corrupt_entry(layout, name_view(name)),
{
    match (layout, name) {
        (StoreLayout::SessionFiles, Some(session_id)) => EntryCheck::Delete { session_id },
        _ => EntryCheck::Keep,
    }
}

/// What becomes of a session by its age.
fn decide_aged(stamp: SessionStamp, cleanup_after: u128, wall_now: i128) -> (check: EntryCheck<
    String,
>)
    ensures
        check@ == aged_entry(stamp@, cleanup_after, wall_now),
{
    if wall_elapsed_since(stamp.last_activity, wall_now) > cleanup_after {
        EntryCheck::Delete { session_id: stamp.session_id }
    } else {
        EntryCheck::Keep
    }
}

impl EntryCheck<String> {
    /// The request that comes next, until the check is over.
    pub fn next_request(&self) -> (request: Option<EntryRequest<String>>)
        ensures
            entry_request_view(request) == self@.request(),
    {
        match self {
            EntryCheck::Kind { .. } => Some(EntryRequest::Kind),
            EntryCheck::Read { .. } => Some(EntryRequest::ReadFile("session.json".to_string())),
            EntryCheck::Keep => None,
            EntryCheck::Delete { .. } => None,
        }
    }

    /// Goes on with the outcome of the request.
    pub fn advance(self, event: EntryEvent<SessionStamp>) -> (next: Self)
        ensures
            next@ == self@.step(event@),
    {
        match (self, event) {
            (EntryCheck::Kind { layout, cleanup_after, name }, EntryEvent::Kind(kind)) =>
                match kind {
                Some(true) => EntryCheck::Read { layout, cleanup_after, name },
                _ => EntryCheck::Keep,
            },
            (
                EntryCheck::Read { layout, cleanup_after, name },
                EntryEvent::Read { read, wall_now },
            ) => match read {
                SessionRead::Unreadable => EntryCheck::Keep,
                SessionRead::Corrupt => decide_corrupt(layout, name),
                SessionRead::Parsed(stamp) => decide_aged(stamp, cleanup_after, wall_now),
            },
            (check, _) => check,
        }
    }

    /// The command that deletes the session, when the check came to that.
    pub fn command(&self) -> (command: Option<PersistenceCommand>)
        ensures
            match command {
                Some(PersistenceCommand::Delete { session_id: id }) =>
                    self@ matches EntryCheck::Delete { session_id } && session_id == id@,
                Some(_) => false,
                None => !(self@ is Delete),
            },
    {
        match self {
            EntryCheck::Delete { session_id } => Some(
                PersistenceCommand::Delete { session_id: session_id.clone() },
            ),
            _ => None,
        }
    }
}

/// Starts the check of an entry of the store's directory. `name` is the name of
/// the entry, when it is a text.
pub fn start_entry_check(
    config: &PersistenceConfig,
    layout: StoreLayout,
    name: &Option<String>,
) -> (check: EntryCheck<String>)
    ensures
        check@ == entry_check(layout, config.cleanup_after, name_view(*name)),
{
    EntryCheck::Kind { layout, cleanup_after: config.cleanup_after, name: clone_text(name) }
}

/// Sessions that somebody used within the configured age are kept, and so are
/// those whose last use seems to lie in the future.
pub proof fn law_used_sessions_are_kept(
    layout: StoreLayout,
    cleanup_after: u128,
    name: Option<Seq<char>>,
    stamp: StampView,
    wall_now: i128,
)
    requires
        wall_now <= stamp.last_activity + cleanup_after,
    ensures
        entry_check(layout, cleanup_after, name).step(EntryEvent::Kind(Some(true))).step(
            EntryEvent::Read { read: SessionRead::Parsed(stamp), wall_now },
        ) == EntryCheckView::Keep,
{
}

/// Sessions that nobody has used for longer than the configured age are
/// deleted.
pub proof fn law_old_sessions_are_deleted(
    layout: StoreLayout,
    cleanup_after: u128,
    name: Option<Seq<char>>,
    stamp: StampView,
    wall_now: i128,
)
    requires
        wall_now > stamp.last_activity + cleanup_after,
    ensures
        entry_check(layout, cleanup_after, name).step(EntryEvent::Kind(Some(true))).step(
            EntryEvent::Read { read: SessionRead::Parsed(stamp), wall_now },
        ) == (EntryCheckView::Delete { session_id: stamp.session_id }),
{
}

/// Whether a list of outcomes gives a reason to delete a session: the session
/// was read and is too old, or could not be understood.
pub open spec fn gives_reason(
    cleanup_after: u128,
    session_id: Seq<char>,
    name: Option<Seq<char>>,
    event: EntryEventView,
) -> bool {
    match event {
        EntryEvent::Read { read: SessionRead::Parsed(stamp), wall_now } => stamp.session_id
            == session_id && wall_now > stamp.last_activity + cleanup_after,
        EntryEvent::Read { read: SessionRead::Corrupt, wall_now } => name == Some(session_id),
        _ => false,
    }
}

/// Nothing is deleted without a reason: whatever the file system answers, a
/// session is deleted only after it was read and found too old or corrupt.
pub proof fn law_nothing_is_deleted_without_reason(
    layout: StoreLayout,
    cleanup_after: u128,
    name: Option<Seq<char>>,
    events: Seq<EntryEventView>,
)
    ensures
        match entry_check(layout, cleanup_after, name).run(events) {
            EntryCheck::Delete { session_id } => exists|i: int|
                0 <= i < events.len() && gives_reason(
                    cleanup_after,
                    session_id,
                    name,
                    #[trigger] events[i],
                ),
            EntryCheck::Keep => true,
            EntryCheck::Kind { layout: l, cleanup_after: c, name: n } => l == layout && c
                == cleanup_after && n == name,
            EntryCheck::Read { layout: l, cleanup_after: c, name: n } => l == layout && c
                == cleanup_after && n == name,
        },
    decreases events.len(),
{
    if events.len() > 0 {
        let rest = events.drop_last();
        law_nothing_is_deleted_without_reason(layout, cleanup_after, name, rest);
        match entry_check(layout, cleanup_after, name).run(rest) {
            EntryCheck::Delete { session_id } => {
                let i = choose|i: int|
                    0 <= i < rest.len() && gives_reason(
                        cleanup_after,
                        session_id,
                        name,
                        #[trigger] rest[i],
                    );
                assert(events[i] == rest[i]);
            },
            _ => {
                assert(events[events.len() - 1] == events.last());
            },
        }
    }
}

/// Only directories are looked into, at the file `session.json` in them.
pub proof fn law_only_directories_are_looked_into(
    layout: StoreLayout,
    cleanup_after: u128,
    name: Option<Seq<char>>,
)
    ensures
        ({
            let start = entry_check(layout, cleanup_after, name);
            let looking = start.step(EntryEvent::Kind(Some(true)));
            &&& start.request() == Some(EntryRequest::<Seq<char>>::Kind)
            &&& looking.request() == Some(EntryRequest::ReadFile("session.json"@))
            &&& start.step(EntryEvent::Kind(Some(false))) == EntryCheckView::Keep
            &&& start.step(EntryEvent::Kind(None)) == EntryCheckView::Keep
            &&& EntryCheckView::Keep.request() is None
        }),
{
}

/// A file that cannot be read is left alone. One that is not a session is deleted
/// from a store of session files, under the name of its directory, when that is a
/// text; from a store of thought files it is not.
pub proof fn law_corrupt_sessions_go_from_session_files_only(
    cleanup_after: u128,
    name: Seq<char>,
    layout: StoreLayout,
    wall_now: i128,
)
    ensures
        (EntryCheckView::Read { layout, cleanup_after, name: Some(name) }).step(
            EntryEvent::Read { read: SessionRead::Unreadable, wall_now },
        ) == EntryCheckView::Keep,
        (EntryCheckView::Read {
            layout: StoreLayout::SessionFiles,
            cleanup_after,
            name: Some(name),
        }).step(EntryEvent::Read { read: SessionRead::Corrupt, wall_now }) == (
        EntryCheckView::Delete { session_id: name }),
        (EntryCheckView::Read { layout: StoreLayout::SessionFiles, cleanup_after, name: None }).step(
            EntryEvent::Read { read: SessionRead::Corrupt, wall_now },
        ) == EntryCheckView::Keep,
        (EntryCheckView::Read {
            layout: StoreLayout::ThoughtFiles,
            cleanup_after,
            name: Some(name),
        }).step(EntryEvent::Read { read: SessionRead::Corrupt, wall_now }) == EntryCheckView::Keep,
        (EntryCheckView::Read { layout: StoreLayout::ThoughtFiles, cleanup_after, name: None }).step(
            EntryEvent::Read { read: SessionRead::Corrupt, wall_now },
        ) == EntryCheckView::Keep,
{
}

/// Stamps, names and outcomes are seen as they are.
pub proof fn law_entries_are_seen_as_they_are(
    stamp: SessionStamp,
    name: String,
    wall_now: i128,
    kind: Option<bool>,
)
    ensures
        stamp@.session_id == stamp.session_id@,
        stamp@.last_activity == stamp.last_activity,
        name_view(Some(name)) == Some(name@),
        name_view(None) is None,
        EntryEvent::<SessionStamp>::Kind(kind)@ == EntryEventView::Kind(kind),
        (EntryEvent::Read { read: SessionRead::Parsed(stamp), wall_now })@ == (
        EntryEventView::Read { read: SessionRead::Parsed(stamp@), wall_now }),
        (EntryEvent::<SessionStamp>::Read { read: SessionRead::Corrupt, wall_now })@ == (
        EntryEventView::Read { read: SessionRead::Corrupt, wall_now }),
        (EntryEvent::<SessionStamp>::Read { read: SessionRead::Unreadable, wall_now })@ == (
        EntryEventView::Read { read: SessionRead::Unreadable, wall_now }),
{
}

/// A check that is over stays what it came to and asks for nothing; before that,
/// an outcome that answers another question than the one that was asked changes
/// nothing. A file that cannot be read is left alone, whatever its directory is
/// called.
pub proof fn law_entry_checks_wait_for_their_answer(
    check: EntryCheckView,
    event: EntryEventView,
    wall_now: i128,
)
    ensures
        check is Keep || check is Delete ==> check.step(event) == check && (check.request()
            is None),
        check is Kind && !(event is Kind) ==> check.step(event) == check,
        check is Read && !(event is Read) ==> check.step(event) == check,
        check is Read ==> check.step(
            EntryEvent::Read { read: SessionRead::Unreadable, wall_now },
        ) == EntryCheckView::Keep,
{
}

/// A stored session goes by the time since its last use alone: it is deleted, under
/// its own id, exactly when that is longer than the configured age, and one that
/// was last used in the future stays.
pub proof fn law_stored_sessions_age_from_their_last_use(
    layout: StoreLayout,
    cleanup_after: u128,
    name: Option<Seq<char>>,
    stamp: StampView,
    wall_now: i128,
)
    ensures
        ({
            let verdict = (EntryCheckView::Read { layout, cleanup_after, name }).step(
                EntryEvent::Read { read: SessionRead::Parsed(stamp), wall_now },
            );
            &&& wall_now - stamp.last_activity > cleanup_after ==> verdict == (
            EntryCheckView::Delete { session_id: stamp.session_id })
            &&& wall_now - stamp.last_activity <= cleanup_after ==> verdict == EntryCheckView::Keep
        }),
{
}

} // verus!
