//! Checks and requests of the session store.
//!
//! The store works in steps: a job says which request to the file system comes
//! next, and goes on with its outcome.

use crate::path::SessionPath;
use vstd::prelude::*;

verus! {

/// A request to the file system. `P` is a path, `T` a text.
#[derive(Debug, PartialEq, Eq)]
pub enum DiskRequest<P, T> {
    /// Does something exist under this path?
    Exists(P),
    /// Create this directory and the missing ones above it.
    CreateDir(P),
    /// Resolve this path: absolute, without links and without `.` and `..`.
    Resolve(P),
    /// Write the session as text.
    Serialize,
    /// Create this file, or empty it.
    CreateFile(P),
    /// Write the text to this file.
    WriteFile(P, T),
    /// Bring this file's contents to the physical disk.
    SyncFile(P),
    /// Rename the first file to the second, replacing it, in one step.
    Rename(P, P),
    /// Remove this directory and everything in it.
    RemoveDir(P),
}

/// The outcome of a request to the file system.
#[derive(Debug, PartialEq, Eq)]
pub enum DiskEvent<P, T> {
    /// Whether something exists under the path.
    Exists(bool),
    /// Whether the request was carried out.
    Done(bool),
    /// The resolved path, if it could be resolved.
    Resolved(Option<P>),
    /// The text that was asked for, or why it could not be written.
    Serialized(Result<T, T>),
}

/// A request to the file system, by views.
pub type DiskRequestView = DiskRequest<crate::path::PathView, Seq<char>>;

/// An outcome of a request, by views.
pub type DiskEventView = DiskEvent<crate::path::PathView, Seq<char>>;

impl View for DiskRequest<SessionPath, String> {
    type V = DiskRequestView;

    open spec fn view(&self) -> DiskRequestView {
        match *self {
            DiskRequest::Exists(p) => DiskRequest::Exists(p@),
            DiskRequest::CreateDir(p) => DiskRequest::CreateDir(p@),
            DiskRequest::Resolve(p) => DiskRequest::Resolve(p@),
            DiskRequest::Serialize => DiskRequest::Serialize,
            DiskRequest::CreateFile(p) => DiskRequest::CreateFile(p@),
            DiskRequest::WriteFile(p, t) => DiskRequest::WriteFile(p@, t@),
            DiskRequest::SyncFile(p) => DiskRequest::SyncFile(p@),
            DiskRequest::Rename(p, q) => DiskRequest::Rename(p@, q@),
            DiskRequest::RemoveDir(p) => DiskRequest::RemoveDir(p@),
        }
    }
}

impl View for DiskEvent<SessionPath, String> {
    type V = DiskEventView;

    open spec fn view(&self) -> DiskEventView {
        match *self {
            DiskEvent::Exists(b) => DiskEvent::Exists(b),
            DiskEvent::Done(b) => DiskEvent::Done(b),
            DiskEvent::Resolved(Some(p)) => DiskEvent::Resolved(Some(p@)),
            DiskEvent::Resolved(None) => DiskEvent::Resolved(None),
            DiskEvent::Serialized(Ok(text)) => DiskEvent::Serialized(Ok(text@)),
            DiskEvent::Serialized(Err(error)) => DiskEvent::Serialized(Err(error@)),
        }
    }
}

/// The view of an optional request.
pub open spec fn request_view(
    request: Option<DiskRequest<SessionPath, String>>,
) -> Option<DiskRequestView> {
    match request {
        Some(r) => Some(r@),
        None => None,
    }
}

/// Why a path is refused.
#[derive(Debug, Clone, Copy, PartialEq, Eq)]
pub enum PathFailure {
    /// The base directory could not be created.
    CreateBase,
    /// The base directory could not be resolved.
    ResolveBase,
    /// The path could not be resolved.
    ResolvePath,
    /// The directory above the path could not be resolved.
    ResolveParent,
    /// The directory above the path does not exist, and lies outside the base.
    ParentEscapes,
    /// The path does not end in a name.
    NoFileName,
    /// There is no directory above the path.
    NoParent,
    /// The path leads out of the base directory.
    Escapes,
}

/// The text of a path.
pub open spec fn path_text(path: crate::path::PathView) -> Seq<char>
    decreases path.len(),
{
    if path.len() == 0 {
        Seq::empty()
    } else if path.len() == 1 || path.drop_last() == seq![crate::path::root_part()] {
        path_text(path.drop_last()) + path.last()
    } else {
        path_text(path.drop_last()) + "/"@ + path.last()
    }
}

/// The text of a refusal. `path` is the path that was refused, `base` the
/// resolved base directory.
pub open spec fn refusal_text(
    failure: PathFailure,
    path: crate::path::PathView,
    base: crate::path::PathView,
) -> Seq<char> {
    match failure {
        PathFailure::CreateBase => "Failed to create sessions base directory"@,
        PathFailure::ResolveBase => "Failed to canonicalize base directory"@,
        PathFailure::ResolvePath => "Failed to canonicalize path"@,
        PathFailure::ResolveParent => "Failed to canonicalize parent"@,
        PathFailure::ParentEscapes => "Directory traversal detected: parent '"@ + path_text(path)
            + "' escapes base '"@ + path_text(base) + "'"@,
        PathFailure::NoFileName => "Path has no filename"@,
        PathFailure::NoParent => "Path has no parent directory"@,
        PathFailure::Escapes => "Directory traversal detected: '"@ + path_text(path)
            + "' escapes base '"@ + path_text(base) + "'"@,
    }
}

/// Writes a path as text.
pub fn display_path(path: &SessionPath) -> (text: String)
    ensures
        text@ == path_text(path@),
{
    proof {
        reveal_strlit("/");
        assert("/"@ =~= crate::path::root_part());
    }
    let mut text = String::new();
    let mut i: usize = 0;
    let ghost whole = path@;
    assert(whole.take(0) =~= Seq::<Seq<char>>::empty());
    assert(text@ =~= path_text(whole.take(0)));
    while i < path.parts.len()
        invariant
            i <= path.parts.len(),
            whole == path@,
            "/"@ == crate::path::root_part(),
            text@ == path_text(whole.take(i as int)),
        decreases path.parts.len() - i,
    {
        let ghost before = whole.take(i as int);
        proof {
            assert(whole.take(i + 1).drop_last() =~= before);
            assert(whole.take(i + 1).last() == path.parts[i as int]@);
            if i == 1 {
                assert(before =~= seq![path.parts[0]@]);
                assert(before[0] == path.parts[0]@);
                assert(seq![crate::path::root_part()][0] == crate::path::root_part());
            }
        }
        if i > 0 && !(i == 1 && path.parts[0] == "/".to_string()) {
            text.append("/");
        }
        text.append(path.parts[i].as_str());
        assert(text@ =~= path_text(whole.take(i + 1)));
        i = i + 1;
    }
    assert(whole.take(i as int) =~= whole);
    text
}

impl PathFailure {
    /// The text of the refusal of a path, given the resolved base directory.
    pub fn message(&self, path: &SessionPath, base: &SessionPath) -> (text: String)
        ensures
            text@ == refusal_text(*self, path@, base@),
    {
        match self {
            PathFailure::CreateBase => "Failed to create sessions base directory".to_string(),
            PathFailure::ResolveBase => "Failed to canonicalize base directory".to_string(),
            PathFailure::ResolvePath => "Failed to canonicalize path".to_string(),
            PathFailure::ResolveParent => "Failed to canonicalize parent".to_string(),
            PathFailure::ParentEscapes => {
                let mut text = "Directory traversal detected: parent '".to_string();
                text.append(display_path(path).as_str());
                text.append("' escapes base '");
                text.append(display_path(base).as_str());
                text.append("'");
                text
            },
            PathFailure::NoFileName => "Path has no filename".to_string(),
            PathFailure::NoParent => "Path has no parent directory".to_string(),
            PathFailure::Escapes => {
                let mut text = "Directory traversal detected: '".to_string();
                text.append(display_path(path).as_str());
                text.append("' escapes base '");
                text.append(display_path(base).as_str());
                text.append("'");
                text
            },
        }
    }
}

/// The check that a path stays within a base directory.
#[derive(Debug)]
pub enum PathCheck<P> {
    /// Does the base directory exist?
    ProbeBase { path: P, base: P },
    /// It does not: create it.
    CreateBase { path: P, base: P },
    /// Resolve the base directory.
    ResolveBase { path: P, base: P },
    /// Does the path exist? From here on the base is the resolved one.
    ProbePath { path: P, base: P },
    /// It does: resolve it.
    ResolvePath { path: P, base: P },
    /// It does not: does the directory above it exist?
    ProbeParent { path: P, parent: P, base: P },
    /// It does: resolve it.
    ResolveParent { path: P, parent: P, base: P },
    /// The resolved path lies within the resolved base.
    Inside { path: P, base: P },
    /// The path is refused.
    Refused { failure: PathFailure, path: P, base: P },
}

/// The state of a path check, by views.
pub type PathCheckView = PathCheck<crate::path::PathView>;

impl View for PathCheck<SessionPath> {
    type V = PathCheckView;

    open spec fn view(&self) -> PathCheckView {
        match *self {
            PathCheck::ProbeBase { path, base } => PathCheck::ProbeBase {
                path: path@,
                base: base@,
            },
            PathCheck::CreateBase { path, base } => PathCheck::CreateBase {
                path: path@,
                base: base@,
            },
            PathCheck::ResolveBase { path, base } => PathCheck::ResolveBase {
                path: path@,
                base: base@,
            },
            PathCheck::ProbePath { path, base } => PathCheck::ProbePath {
                path: path@,
                base: base@,
            },
            PathCheck::ResolvePath { path, base } => PathCheck::ResolvePath {
                path: path@,
                base: base@,
            },
            PathCheck::ProbeParent { path, parent, base } => PathCheck::ProbeParent {
                path: path@,
                parent: parent@,
                base: base@,
            },
            PathCheck::ResolveParent { path, parent, base } => PathCheck::ResolveParent {
                path: path@,
                parent: parent@,
                base: base@,
            },
            PathCheck::Inside { path, base } => PathCheck::Inside { path: path@, base: base@ },
            PathCheck::Refused { failure, path, base } => PathCheck::Refused {
                failure,
                path: path@,
                base: base@,
            },
        }
    }
}

/// The verdict on a resolved path.
pub open spec fn verdict(
    path: crate::path::PathView,
    base: crate::path::PathView,
) -> PathCheckView {
    if crate::path::within(path, base) {
        PathCheck::Inside { path, base }
    } else {
        PathCheck::Refused { failure: PathFailure::Escapes, path, base }
    }
}

/// The verdict on a path that does not exist, by the resolved directory above
/// it.
pub open spec fn verdict_below(
    parent: crate::path::PathView,
    path: crate::path::PathView,
    base: crate::path::PathView,
) -> PathCheckView {
    match crate::path::file_name_of(path) {
        Some(name) => verdict(parent.push(name), base),
        None => PathCheck::Refused { failure: PathFailure::NoFileName, path, base },
    }
}

impl PathCheck<crate::path::PathView> {
    /// The request that comes next.
    pub open spec fn request(self) -> Option<DiskRequestView> {
        match self {
            PathCheck::ProbeBase { path, base } => Some(DiskRequest::Exists(base)),
            PathCheck::CreateBase { path, base } => Some(DiskRequest::CreateDir(base)),
            PathCheck::ResolveBase { path, base } => Some(DiskRequest::Resolve(base)),
            PathCheck::ProbePath { path, base } => Some(DiskRequest::Exists(path)),
            PathCheck::ResolvePath { path, base } => Some(DiskRequest::Resolve(path)),
            PathCheck::ProbeParent { path, parent, base } => Some(DiskRequest::Exists(parent)),
            PathCheck::ResolveParent { path, parent, base } => Some(DiskRequest::Resolve(parent)),
            PathCheck::Inside { .. } => None,
            PathCheck::Refused { .. } => None,
        }
    }

    /// The check after an outcome. An outcome that does not answer the request
    /// changes nothing.
    pub open spec fn step(self, event: DiskEventView) -> PathCheckView {
        match (self, event) {
            (PathCheck::ProbeBase { path, base }, DiskEvent::Exists(exists)) => if exists {
                PathCheck::ResolveBase { path, base }
            } else {
                PathCheck::CreateBase { path, base }
            },
            (PathCheck::CreateBase { path, base }, DiskEvent::Done(done)) => if done {
                PathCheck::ResolveBase { path, base }
            } else {
                PathCheck::Refused { failure: PathFailure::CreateBase, path, base }
            },
            (PathCheck::ResolveBase { path, base }, DiskEvent::Resolved(resolved)) => match resolved {
                Some(base) => PathCheck::ProbePath { path, base },
                None => PathCheck::Refused { failure: PathFailure::ResolveBase, path, base },
            },
            (PathCheck::ProbePath { path, base }, DiskEvent::Exists(exists)) => if exists {
                PathCheck::ResolvePath { path, base }
            } else {
                match crate::path::parent_of(path) {
                    Some(parent) => PathCheck::ProbeParent { path, parent, base },
                    None => PathCheck::Refused { failure: PathFailure::NoParent, path, base },
                }
            },
            (PathCheck::ResolvePath { path, base }, DiskEvent::Resolved(resolved)) => match resolved {
                Some(path) => verdict(path, base),
                None => PathCheck::Refused { failure: PathFailure::ResolvePath, path, base },
            },
            (PathCheck::ProbeParent { path, parent, base }, DiskEvent::Exists(exists)) => if exists {
                PathCheck::ResolveParent { path, parent, base }
            } else if !crate::path::within(parent, base) {
                PathCheck::Refused { failure: PathFailure::ParentEscapes, path: parent, base }
            } else {
                verdict_below(base, path, base)
            },
            (PathCheck::ResolveParent { path, parent, base }, DiskEvent::Resolved(resolved)) =>
                match resolved {
                Some(parent) => verdict_below(parent, path, base),
                None => PathCheck::Refused { failure: PathFailure::ResolveParent, path, base },
            },
            _ => self,
        }
    }

    /// The check after a list of outcomes.
    pub open spec fn run(self, events: Seq<DiskEventView>) -> PathCheckView
        decreases events.len(),
    {
        if events.len() == 0 {
            self
        } else {
            self.run(events.drop_last()).step(events.last())
        }
    }

    /// A path that passed lies within the resolved base.
    pub open spec fn sound(self) -> bool {
        self matches PathCheck::Inside { path, base } ==> crate::path::within(path, base)
    }
}

/// The verdict on a resolved path.
fn decide(path: SessionPath, base: SessionPath) -> (check: PathCheck<SessionPath>)
    ensures
        check@ == verdict(path@, base@),
{
    if path.starts_with(&base) {
        PathCheck::Inside { path, base }
    } else {
        PathCheck::Refused { failure: PathFailure::Escapes, path, base }
    }
}

/// The verdict on a path that does not exist, by the resolved directory above
/// it.
fn decide_below(parent: SessionPath, path: &SessionPath, base: SessionPath) -> (check: PathCheck<
    SessionPath,
>)
    ensures
        check@ == verdict_below(parent@, path@, base@),
{
    match path.file_name() {
        Some(name) => decide(parent.join(name.as_str()), base),
        None => PathCheck::Refused { failure: PathFailure::NoFileName, path: path.clone(), base },
    }
}

impl PathCheck<SessionPath> {
    /// The request that comes next, until the check is over.
    pub fn next_request(&self) -> (request: Option<DiskRequest<SessionPath, String>>)
        ensures
            request_view(request) == self@.request(),
    {
        match self {
            PathCheck::ProbeBase { path: _, base } => Some(DiskRequest::Exists(base.clone())),
            PathCheck::CreateBase { path: _, base } => Some(DiskRequest::CreateDir(base.clone())),
            PathCheck::ResolveBase { path: _, base } => Some(DiskRequest::Resolve(base.clone())),
            PathCheck::ProbePath { path, base: _ } => Some(DiskRequest::Exists(path.clone())),
            PathCheck::ResolvePath { path, base: _ } => Some(DiskRequest::Resolve(path.clone())),
            PathCheck::ProbeParent { path: _, parent, base: _ } => Some(
                DiskRequest::Exists(parent.clone()),
            ),
            PathCheck::ResolveParent { path: _, parent, base: _ } => Some(
                DiskRequest::Resolve(parent.clone()),
            ),
            PathCheck::Inside { .. } => None,
            PathCheck::Refused { .. } => None,
        }
    }

    /// Goes on with the outcome of the request.
    pub fn advance(self, event: DiskEvent<SessionPath, String>) -> (next: Self)
        ensures
            next@ == self@.step(event@),
    {
        match (self, event) {
            (PathCheck::ProbeBase { path, base }, DiskEvent::Exists(exists)) => if exists {
                PathCheck::ResolveBase { path, base }
            } else {
                PathCheck::CreateBase { path, base }
            },
            (PathCheck::CreateBase { path, base }, DiskEvent::Done(done)) => if done {
                PathCheck::ResolveBase { path, base }
            } else {
                PathCheck::Refused { failure: PathFailure::CreateBase, path, base }
            },
            (PathCheck::ResolveBase { path, base }, DiskEvent::Resolved(resolved)) => match resolved {
                Some(base) => PathCheck::ProbePath { path, base },
                None => PathCheck::Refused { failure: PathFailure::ResolveBase, path, base },
            },
            (PathCheck::ProbePath { path, base }, DiskEvent::Exists(exists)) => if exists {
                PathCheck::ResolvePath { path, base }
            } else {
                match path.parent() {
                    Some(parent) => PathCheck::ProbeParent { path, parent, base },
                    None => PathCheck::Refused { failure: PathFailure::NoParent, path, base },
                }
            },
            (PathCheck::ResolvePath { path, base }, DiskEvent::Resolved(resolved)) => match resolved {
                Some(path) => decide(path, base),
                None => PathCheck::Refused { failure: PathFailure::ResolvePath, path, base },
            },
            (PathCheck::ProbeParent { path, parent, base }, DiskEvent::Exists(exists)) => if exists {
                PathCheck::ResolveParent { path, parent, base }
            } else if !parent.starts_with(&base) {
                PathCheck::Refused { failure: PathFailure::ParentEscapes, path: parent, base }
            } else {
                decide_below(base.clone(), &path, base)
            },
            (PathCheck::ResolveParent { path, parent: _, base }, DiskEvent::Resolved(resolved)) =>
                match resolved {
                Some(parent) => decide_below(parent, &path, base),
                None => PathCheck::Refused { failure: PathFailure::ResolveParent, path, base },
            },
            (check, _) => check,
        }
    }
}

/// The check at its start.
pub open spec fn path_check(
    path: crate::path::PathView,
    base: crate::path::PathView,
) -> PathCheckView {
    PathCheck::ProbeBase { path, base }
}

/// Starts the check that a path stays within an allowed base directory.
pub fn verify_path_within_base(constructed_path: SessionPath, allowed_base: SessionPath) -> (check:
    PathCheck<SessionPath>)
    ensures
        check@ == path_check(constructed_path@, allowed_base@),
{
    PathCheck::ProbeBase { path: constructed_path, base: allowed_base }
}

/// Whether an outcome answers a request.
pub open spec fn answers(event: DiskEventView, request: DiskRequestView) -> bool {
    match request {
        DiskRequest::Exists(_) => event is Exists,
        DiskRequest::Resolve(_) => event is Resolved,
        DiskRequest::Serialize => event is Serialized,
        _ => event is Done,
    }
}

/// Whatever the file system answers, a path that passes the check lies within
/// the resolved base directory.
pub proof fn law_passed_paths_lie_within_base(check: PathCheckView, events: Seq<DiskEventView>)
    requires
        check.sound(),
    ensures
        check.run(events).sound(),
    decreases events.len(),
{
    if events.len() > 0 {
        law_passed_paths_lie_within_base(check, events.drop_last());
    }
}

/// How many outcomes a check may still need.
spec fn steps_left(check: PathCheckView) -> nat {
    match check {
        PathCheck::ProbeBase { .. } => 6,
        PathCheck::CreateBase { .. } => 5,
        PathCheck::ResolveBase { .. } => 4,
        PathCheck::ProbePath { .. } => 3,
        PathCheck::ResolvePath { .. } => 1,
        PathCheck::ProbeParent { .. } => 2,
        PathCheck::ResolveParent { .. } => 1,
        PathCheck::Inside { .. } => 0,
        PathCheck::Refused { .. } => 0,
    }
}

/// Whether a list of outcomes answers the requests of a check, one by one, as
/// long as it has any.
pub open spec fn all_answered(check: PathCheckView, events: Seq<DiskEventView>) -> bool {
    forall|i: int|
        0 <= i < events.len() ==> (#[trigger] check.run(events.take(i)).request() matches Some(
            request,
        ) ==> answers(events[i], request))
}

/// A path check is over after at most six outcomes.
pub proof fn law_path_check_ends(
    path: crate::path::PathView,
    base: crate::path::PathView,
    events: Seq<DiskEventView>,
)
    requires
        all_answered(path_check(path, base), events),
        events.len() >= 6,
    ensures
        (path_check(path, base).run(events).request() is None),
{
    lemma_steps_left(path_check(path, base), events, events.len() as int);
    assert(events.take(events.len() as int) =~= events);
}

/// Every answered request brings a check closer to its end.
proof fn lemma_steps_left(check: PathCheckView, events: Seq<DiskEventView>, n: int)
    requires
        all_answered(check, events),
        0 <= n <= events.len(),
    ensures
        steps_left(check.run(events.take(n))) + n <= steps_left(check) || steps_left(
            check.run(events.take(n)),
        ) == 0,
    decreases n,
{
    if n == 0 {
        assert(events.take(0) =~= Seq::<DiskEventView>::empty());
    } else {
        lemma_steps_left(check, events, n - 1);
        assert(events.take(n).drop_last() =~= events.take(n - 1));
        assert(events.take(n).last() == events[n - 1]);
        let before = check.run(events.take(n - 1));
        assert(before.request() matches Some(request) ==> answers(events[n - 1], request));
    }
}

/// A name directly below an existing base directory passes the check, under
/// the resolved base.
pub proof fn law_new_names_below_the_base_pass(
    base: crate::path::PathView,
    resolved: crate::path::PathView,
    name: Seq<char>,
)
    requires
        crate::path::is_name(name),
    ensures
        path_check(base.push(name), base).step(DiskEvent::Exists(true)).step(
            DiskEvent::Resolved(Some(resolved)),
        ).step(DiskEvent::Exists(false)).step(DiskEvent::Exists(true)).step(
            DiskEvent::Resolved(Some(resolved)),
        ) == (PathCheckView::Inside { path: resolved.push(name), base: resolved }),
{
    let path = base.push(name);
    assert(path.drop_last() =~= base);
    assert(path.last() == name);
    crate::path::law_children_lie_within(resolved, resolved, name);
}

/// Requests and outcomes are seen as they are, with the text of their paths.
pub proof fn law_requests_are_seen_as_they_are(
    path: SessionPath,
    other: SessionPath,
    text: String,
    flag: bool,
)
    ensures
        DiskRequest::<SessionPath, String>::Exists(path)@ == DiskRequestView::Exists(path@),
        DiskRequest::<SessionPath, String>::CreateDir(path)@ == DiskRequestView::CreateDir(path@),
        DiskRequest::<SessionPath, String>::Resolve(path)@ == DiskRequestView::Resolve(path@),
        DiskRequest::<SessionPath, String>::Serialize@ == DiskRequestView::Serialize,
        DiskRequest::<SessionPath, String>::CreateFile(path)@ == DiskRequestView::CreateFile(path@),
        DiskRequest::<SessionPath, String>::WriteFile(path, text)@ == DiskRequestView::WriteFile(
            path@,
            text@,
        ),
        DiskRequest::<SessionPath, String>::SyncFile(path)@ == DiskRequestView::SyncFile(path@),
        DiskRequest::<SessionPath, String>::Rename(path, other)@ == DiskRequestView::Rename(
            path@,
            other@,
        ),
        DiskRequest::<SessionPath, String>::RemoveDir(path)@ == DiskRequestView::RemoveDir(path@),
        DiskEvent::<SessionPath, String>::Exists(flag)@ == DiskEventView::Exists(flag),
        DiskEvent::<SessionPath, String>::Done(flag)@ == DiskEventView::Done(flag),
        DiskEvent::<SessionPath, String>::Resolved(Some(path))@ == DiskEventView::Resolved(
            Some(path@),
        ),
        DiskEvent::<SessionPath, String>::Resolved(None)@ == DiskEventView::Resolved(None),
        DiskEvent::<SessionPath, String>::Serialized(Ok(text))@ == DiskEventView::Serialized(
            Ok(text@),
        ),
        DiskEvent::<SessionPath, String>::Serialized(Err(text))@ == DiskEventView::Serialized(
            Err(text@),
        ),
        request_view(None) is None,
        request_view(Some(DiskRequest::Exists(path))) == Some(DiskRequestView::Exists(path@)),
{
}

/// A path check asks for the base directory first, creates it when it is missing,
/// and resolves it; without any of these the path is refused.
pub proof fn law_checks_start_with_the_base(
    path: crate::path::PathView,
    base: crate::path::PathView,
    resolved: crate::path::PathView,
)
    ensures
        ({
            let start = path_check(path, base);
            let missing = start.step(DiskEvent::Exists(false));
            let there = start.step(DiskEvent::Exists(true));
            &&& start.request() == Some(DiskRequestView::Exists(base))
            &&& missing.request() == Some(DiskRequestView::CreateDir(base))
            &&& missing.step(DiskEvent::Done(true)) == there
            &&& missing.step(DiskEvent::Done(false)) == (PathCheckView::Refused {
                failure: PathFailure::CreateBase,
                path,
                base,
            })
            &&& there.request() == Some(DiskRequestView::Resolve(base))
            &&& there.step(DiskEvent::Resolved(None)) == (PathCheckView::Refused {
                failure: PathFailure::ResolveBase,
                path,
                base,
            })
            &&& there.step(DiskEvent::Resolved(Some(resolved))).request() == Some(
                DiskRequestView::Exists(path),
            )
        }),
{
}

/// A path that exists is resolved, and passes exactly when all components of the
/// base are the first ones of what it resolves to.
pub proof fn law_existing_paths_pass_by_what_they_resolve_to(
    path: crate::path::PathView,
    base: crate::path::PathView,
    found: crate::path::PathView,
)
    ensures
        ({
            let there = (PathCheckView::ProbePath { path, base }).step(DiskEvent::Exists(true));
            let after = there.step(DiskEvent::Resolved(Some(found)));
            let inside = base.len() <= found.len() && (forall|i: int|
                0 <= i < base.len() ==> #[trigger] found[i] == base[i]);
            &&& there.request() == Some(DiskRequestView::Resolve(path))
            &&& inside ==> after == (PathCheckView::Inside { path: found, base })
            &&& !inside ==> after == (PathCheckView::Refused {
                failure: PathFailure::Escapes,
                path: found,
                base,
            })
            &&& there.step(DiskEvent::Resolved(None)) == (PathCheckView::Refused {
                failure: PathFailure::ResolvePath,
                path,
                base,
            })
        }),
{
    crate::path::law_paths_within_start_alike(found, base);
}

/// A path that does not exist goes by the directory above it: it passes, under
/// its name there, exactly when that directory, resolved, with the name lies in
/// the base; a directory above that is missing, too, has to lie in the base, and
/// counts as the base.
pub proof fn law_new_paths_pass_by_their_parent(
    parent: crate::path::PathView,
    name: Seq<char>,
    base: crate::path::PathView,
    found: crate::path::PathView,
)
    requires
        name != seq!['/'],
    ensures
        ({
            let path = parent.push(name);
            let above = (PathCheckView::ProbePath { path, base }).step(DiskEvent::Exists(false));
            let there = above.step(DiskEvent::Exists(true));
            let missing = above.step(DiskEvent::Exists(false));
            let plain = name != seq!['.'] && name != seq!['.', '.'];
            let after = there.step(DiskEvent::Resolved(Some(found)));
            let below = found.push(name);
            &&& above.request() == Some(DiskRequestView::Exists(parent))
            &&& there.request() == Some(DiskRequestView::Resolve(parent))
            &&& plain && crate::path::within(below, base) ==> after == (PathCheckView::Inside {
                path: below,
                base,
            })
            &&& plain && !crate::path::within(below, base) ==> after == (PathCheckView::Refused {
                failure: PathFailure::Escapes,
                path: below,
                base,
            })
            &&& !plain ==> after == (PathCheckView::Refused {
                failure: PathFailure::NoFileName,
                path,
                base,
            })
            &&& there.step(DiskEvent::Resolved(None)) == (PathCheckView::Refused {
                failure: PathFailure::ResolveParent,
                path,
                base,
            })
            &&& !crate::path::within(parent, base) ==> missing == (PathCheckView::Refused {
                failure: PathFailure::ParentEscapes,
                path: parent,
                base,
            })
            &&& crate::path::within(parent, base) && plain ==> missing == (PathCheckView::Inside {
                path: base.push(name),
                base,
            })
        }),
{
    crate::path::law_parents_and_names_make_the_path(parent, name);
    crate::path::law_children_lie_within(base, base, name);
}

/// A path without a directory above it that does not exist is refused.
pub proof fn law_paths_without_a_parent_are_refused(
    path: crate::path::PathView,
    base: crate::path::PathView,
)
    requires
        path.len() == 0 || path.last() == seq!['/'],
    ensures
        (PathCheckView::ProbePath { path, base }).step(DiskEvent::Exists(false)) == (
        PathCheckView::Refused { failure: PathFailure::NoParent, path, base }),
{
}

/// Nothing is asked once a check has come to a verdict, and the verdict stays.
pub proof fn law_verdicts_are_final(
    path: crate::path::PathView,
    base: crate::path::PathView,
    failure: PathFailure,
    event: DiskEventView,
)
    ensures
        (PathCheckView::Inside { path, base }).request() is None,
        (PathCheckView::Inside { path, base }).step(event) == (PathCheckView::Inside {
            path,
            base,
        }),
        (PathCheckView::Refused { failure, path, base }).request() is None,
        (PathCheckView::Refused { failure, path, base }).step(event) == (PathCheckView::Refused {
            failure,
            path,
            base,
        }),
{
}

/// The text of a path puts a slash between its components, and none after the
/// root; a refusal that detects a traversal names the path and the base.
pub proof fn law_texts_show_paths(
    path: crate::path::PathView,
    part: Seq<char>,
    base: crate::path::PathView,
)
    ensures
        path.len() == 0 ==> path_text(path).len() == 0 && path_text(path.push(part)) == part,
        path == seq![seq!['/']] ==> path_text(path.push(part)) == path_text(path) + part,
        path.len() > 0 && path != seq![seq!['/']] ==> path_text(path.push(part)) == path_text(path)
            + "/"@ + part,
        refusal_text(PathFailure::Escapes, path, base) == "Directory traversal detected: '"@
            + path_text(path) + "' escapes base '"@ + path_text(base) + "'"@,
        refusal_text(PathFailure::ParentEscapes, path, base)
            == "Directory traversal detected: parent '"@ + path_text(path) + "' escapes base '"@
            + path_text(base) + "'"@,
{
    let longer = path.push(part);
    assert(longer.drop_last() =~= path);
    assert(longer.last() == part);
    if path.len() == 0 {
        assert(path_text(path) =~= Seq::<char>::empty());
        assert(path_text(longer) =~= part);
    }
}

/// Path checks are seen as they are.
pub proof fn law_checks_are_seen_as_they_are(
    path: SessionPath,
    parent: SessionPath,
    base: SessionPath,
    failure: PathFailure,
)
    ensures
        (PathCheck::<SessionPath>::ProbeBase { path, base })@ == (PathCheckView::ProbeBase {
            path: path@,
            base: base@,
        }),
        (PathCheck::<SessionPath>::CreateBase { path, base })@ == (PathCheckView::CreateBase {
            path: path@,
            base: base@,
        }),
        (PathCheck::<SessionPath>::ResolveBase { path, base })@ == (PathCheckView::ResolveBase {
            path: path@,
            base: base@,
        }),
        (PathCheck::<SessionPath>::ProbePath { path, base })@ == (PathCheckView::ProbePath {
            path: path@,
            base: base@,
        }),
        (PathCheck::<SessionPath>::ResolvePath { path, base })@ == (PathCheckView::ResolvePath {
            path: path@,
            base: base@,
        }),
        (PathCheck::<SessionPath>::ProbeParent { path, parent, base })@ == (
        PathCheckView::ProbeParent { path: path@, parent: parent@, base: base@ }),
        (PathCheck::<SessionPath>::ResolveParent { path, parent, base })@ == (
        PathCheckView::ResolveParent { path: path@, parent: parent@, base: base@ }),
        (PathCheck::<SessionPath>::Inside { path, base })@ == (PathCheckView::Inside {
            path: path@,
            base: base@,
        }),
        (PathCheck::<SessionPath>::Refused { failure, path, base })@ == (PathCheckView::Refused {
            failure,
            path: path@,
            base: base@,
        }),
{
}

/// A refused path says which of the steps of its check failed.
pub proof fn law_refused_paths_say_what_failed(
    path: crate::path::PathView,
    base: crate::path::PathView,
)
    ensures
        refusal_text(PathFailure::CreateBase, path, base)
            == "Failed to create sessions base directory"@,
        refusal_text(PathFailure::ResolveBase, path, base)
            == "Failed to canonicalize base directory"@,
        refusal_text(PathFailure::ResolvePath, path, base) == "Failed to canonicalize path"@,
        refusal_text(PathFailure::ResolveParent, path, base) == "Failed to canonicalize parent"@,
        refusal_text(PathFailure::NoFileName, path, base) == "Path has no filename"@,
        refusal_text(PathFailure::NoParent, path, base) == "Path has no parent directory"@,
{
}

/// An outcome that answers another question than the one that was asked changes
/// nothing.
pub proof fn law_checks_wait_for_their_answer(
    check: PathCheckView,
    event: DiskEventView,
)
    requires
        match check.request() {
            Some(DiskRequest::Exists(_)) => !(event is Exists),
            Some(DiskRequest::CreateDir(_)) => !(event is Done),
            Some(DiskRequest::Resolve(_)) => !(event is Resolved),
            _ => true,
        },
    ensures
        check.step(event) == check,
{
}

} // verus!
