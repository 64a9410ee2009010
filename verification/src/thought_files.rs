//! The store that keeps one file per thought.
//!
//! A session directory of this store holds `session.json`, the metadata of the
//! session, `thought{n}.json`, the thoughts of its history counted from 1, and
//! `branch_{id}_thought{n}.json`, the thoughts of its branches.

use crate::branches::BranchMap;
use crate::path::SessionPath;
use crate::persistence::{DiskEvent, DiskRequest};
use crate::string_utils::decimal_text;
use crate::types::{
    PersistRequest, PersistedThought, PersistenceConfig, SessionMetadataFile, ThoughtData,
};
use vstd::prelude::*;

verus! {

/// The file of a thought of the history, counted from 1.
pub open spec fn thought_name(n: nat) -> Seq<char> {
    "thought"@ + crate::string_utils::decimal(n) + ".json"@
}

/// The file of a thought of a branch, counted from 1.
pub open spec fn branch_name(id: Seq<char>, n: nat) -> Seq<char> {
    "branch_"@ + id + "_thought"@ + crate::string_utils::decimal(n) + ".json"@
}

/// The name of the file of a thought of the history.
pub fn thought_file_name(n: u128) -> (name: String)
    ensures
        name@ == thought_name(n as nat),
{
    let mut name = "thought".to_string();
    name.append(decimal_text(n).as_str());
    name.append(".json");
    name
}

/// The name of the file of a thought of a branch.
pub fn branch_file_name(id: &str, n: u128) -> (name: String)
    ensures
        name@ == branch_name(id@, n as nat),
{
    let mut name = "branch_".to_string();
    name.append(id);
    name.append("_thought");
    name.append(decimal_text(n).as_str());
    name.append(".json");
    name
}

/// The metadata of a session.
#[verifier::ext_equal]
pub struct MetadataView {
    pub session_id: Seq<char>,
    pub created_at: i128,
    pub last_activity: i128,
    pub total_thoughts: nat,
    pub branch_ids: Seq<Seq<char>>,
}

impl View for SessionMetadataFile {
    type V = MetadataView;

    open spec fn view(&self) -> MetadataView {
        MetadataView {
            session_id: self.session_id@,
            created_at: self.created_at,
            last_activity: self.last_activity,
            total_thoughts: self.total_thoughts as nat,
            branch_ids: self.branch_ids@.map_values(|id: String| id@),
        }
    }
}

/// What a file of the store holds.
#[derive(Debug)]
pub enum StoredFile {
    /// The metadata of the session.
    Metadata(SessionMetadataFile),
    /// A thought.
    Thought(PersistedThought),
}

/// What a file of the store holds.
#[verifier::ext_equal]
pub enum StoredView {
    Metadata(MetadataView),
    Thought(PersistedThought),
}

impl View for StoredFile {
    type V = StoredView;

    open spec fn view(&self) -> StoredView {
        match *self {
            StoredFile::Metadata(metadata) => StoredView::Metadata(metadata@),
            StoredFile::Thought(thought) => StoredView::Thought(thought),
        }
    }
}

/// A thought as it is stored, beside its number.
pub open spec fn stored(thought: ThoughtData) -> StoredView {
    StoredView::Thought(
        PersistedThought { thought_number: thought.thought_number, thought_data: thought },
    )
}

/// The metadata of a session.
pub open spec fn metadata_of(session: crate::types::SessionFileView) -> MetadataView {
    MetadataView {
        session_id: session.session_id,
        created_at: session.created_at,
        last_activity: session.last_activity,
        total_thoughts: session.state.history.len(),
        branch_ids: session.state.branches.ids,
    }
}

/// The files of the thoughts of a history.
pub open spec fn history_files(history: Seq<ThoughtData>) -> Seq<(Seq<char>, StoredView)> {
    Seq::new(history.len(), |i: int| (thought_name((i + 1) as nat), stored(history[i])))
}

/// The files of the thoughts of a branch.
pub open spec fn branch_files(id: Seq<char>, thoughts: Seq<ThoughtData>) -> Seq<
    (Seq<char>, StoredView),
> {
    Seq::new(thoughts.len(), |i: int| (branch_name(id, (i + 1) as nat), stored(thoughts[i])))
}

/// The files of the thoughts of some branches, one branch after the other.
pub open spec fn all_branch_files(
    ids: Seq<Seq<char>>,
    thoughts: Map<Seq<char>, Seq<ThoughtData>>,
) -> Seq<(Seq<char>, StoredView)>
    decreases ids.len(),
{
    if ids.len() == 0 {
        Seq::empty()
    } else {
        all_branch_files(ids.drop_last(), thoughts) + branch_files(
            ids.last(),
            thoughts[ids.last()],
        )
    }
}

/// The files of a session, in the order in which they are written: the
/// metadata, the history, the branches.
pub open spec fn session_files(session: crate::types::SessionFileView) -> Seq<
    (Seq<char>, StoredView),
> {
    seq![("session.json"@, StoredView::Metadata(metadata_of(session)))] + history_files(
        session.state.history,
    ) + all_branch_files(session.state.branches.ids, session.state.branches.thoughts)
}

/// What the files of the thoughts of a history are called in error texts: their
/// names.
pub open spec fn history_labels(n: nat) -> Seq<Seq<char>> {
    Seq::new(n, |i: int| thought_name((i + 1) as nat))
}

/// What the files of the thoughts of some branches are called in error texts:
/// the files of their branch.
pub open spec fn branch_labels(
    ids: Seq<Seq<char>>,
    thoughts: Map<Seq<char>, Seq<ThoughtData>>,
) -> Seq<Seq<char>>
    decreases ids.len(),
{
    if ids.len() == 0 {
        Seq::empty()
    } else {
        branch_labels(ids.drop_last(), thoughts) + Seq::new(
            thoughts[ids.last()].len(),
            |i: int| "branch file for "@ + ids.last(),
        )
    }
}

/// What the files of a session are called in error texts, in the order in which
/// they are written.
pub open spec fn session_labels(session: crate::types::SessionFileView) -> Seq<Seq<char>> {
    seq!["session.json"@] + history_labels(session.state.history.len()) + branch_labels(
        session.state.branches.ids,
        session.state.branches.thoughts,
    )
}

/// The views of a list of texts.
pub open spec fn text_views(texts: Seq<String>) -> Seq<Seq<char>> {
    texts.map_values(|text: String| text@)
}

/// Every file of some branches has a label.
proof fn lemma_branch_labels(
    ids: Seq<Seq<char>>,
    thoughts: Map<Seq<char>, Seq<ThoughtData>>,
)
    ensures
        branch_labels(ids, thoughts).len() == all_branch_files(ids, thoughts).len(),
    decreases ids.len(),
{
    if ids.len() > 0 {
        lemma_branch_labels(ids.drop_last(), thoughts);
    }
}

/// The views of a list of files.
pub open spec fn file_views(files: Seq<(String, StoredFile)>) -> Seq<(Seq<char>, StoredView)> {
    files.map_values(|file: (String, StoredFile)| (file.0@, file.1@))
}

/// Adds the files of the thoughts of a history.
fn add_history_files(files: &mut Vec<(String, StoredFile)>, history: &Vec<ThoughtData>)
    ensures
        file_views(final(files)@) == file_views(old(files)@) + history_files(history@),
{
    let ghost before = file_views(files@);
    let ghost all = history_files(history@);
    let mut i: usize = 0;
    while i < history.len()
        invariant
            i <= history.len(),
            all == history_files(history@),
            file_views(files@) == before + all.take(i as int),
        decreases history.len() - i,
    {
        let thought = &history[i];
        let ghost so_far = files@;
        files.push(
            (
                thought_file_name(i as u128 + 1),
                StoredFile::Thought(
                    PersistedThought {
                        thought_number: thought.thought_number,
                        thought_data: thought.clone(),
                    },
                ),
            ),
        );
        assert(file_views(files@) =~= file_views(so_far).push(all[i as int]));
        i = i + 1;
        assert(all.take(i as int) =~= all.take(i - 1).push(all[i - 1]));
        assert(file_views(files@) =~= before + all.take(i as int));
    }
    assert(all.take(i as int) =~= all);
}

/// Adds the files of the thoughts of a branch.
fn add_branch_files(files: &mut Vec<(String, StoredFile)>, id: &str, thoughts: &Vec<ThoughtData>)
    ensures
        file_views(final(files)@) == file_views(old(files)@) + branch_files(id@, thoughts@),
{
    let ghost before = file_views(files@);
    let ghost all = branch_files(id@, thoughts@);
    let mut i: usize = 0;
    while i < thoughts.len()
        invariant
            i <= thoughts.len(),
            all == branch_files(id@, thoughts@),
            file_views(files@) == before + all.take(i as int),
        decreases thoughts.len() - i,
    {
        let thought = &thoughts[i];
        let ghost so_far = files@;
        files.push(
            (
                branch_file_name(id, i as u128 + 1),
                StoredFile::Thought(
                    PersistedThought {
                        thought_number: thought.thought_number,
                        thought_data: thought.clone(),
                    },
                ),
            ),
        );
        assert(file_views(files@) =~= file_views(so_far).push(all[i as int]));
        i = i + 1;
        assert(all.take(i as int) =~= all.take(i - 1).push(all[i - 1]));
        assert(file_views(files@) =~= before + all.take(i as int));
    }
    assert(all.take(i as int) =~= all);
}

/// The files of a session, in the order in which they are written.
pub fn files_of_session(request: &PersistRequest) -> (files: Vec<(String, StoredFile)>)
    requires
        request.snapshot.wf(),
    ensures
        file_views(files@) == session_files(request@),
        request@.state.branches.wf(),
{
    let branches: &BranchMap = &request.snapshot.branches;
    proof {
        branches.lemma_wf();
    }
    let mut files: Vec<(String, StoredFile)> = Vec::new();
    files.push(
        (
            "session.json".to_string(),
            StoredFile::Metadata(
                SessionMetadataFile {
                    session_id: request.session_id.clone(),
                    created_at: request.created_at,
                    last_activity: request.last_activity,
                    total_thoughts: request.snapshot.thought_history.len(),
                    branch_ids: branches.ids(),
                },
            ),
        ),
    );
    let ghost first = seq![("session.json"@, StoredView::Metadata(metadata_of(request@)))];
    assert(file_views(files@) =~= first);
    add_history_files(&mut files, &request.snapshot.thought_history);
    let ghost before = file_views(files@);
    let ghost ids = branches@.ids;
    let mut i: usize = 0;
    while i < branches.len()
        invariant
            i <= ids.len(),
            branches.wf(),
            ids == branches@.ids,
            file_views(files@) == before + all_branch_files(
                ids.take(i as int),
                branches@.thoughts,
            ),
        decreases ids.len() - i,
    {
        let (id, thoughts) = branches.at(i);
        add_branch_files(&mut files, id.as_str(), thoughts);
        i = i + 1;
        proof {
            assert(ids.take(i as int).drop_last() =~= ids.take(i - 1));
            assert(ids.take(i as int).last() == ids[i - 1]);
            assert(file_views(files@) =~= before + all_branch_files(
                ids.take(i as int),
                branches@.thoughts,
            ));
        }
    }
    assert(ids.take(i as int) =~= ids);
    assert(file_views(files@) =~= session_files(request@));
    files
}

/// What the files of a session are called in error texts, in the order in which
/// they are written.
pub fn labels_of_session(request: &PersistRequest) -> (labels: Vec<String>)
    requires
        request.snapshot.wf(),
    ensures
        text_views(labels@) == session_labels(request@),
{
    let branches: &BranchMap = &request.snapshot.branches;
    let mut labels: Vec<String> = Vec::new();
    labels.push("session.json".to_string());
    assert(text_views(labels@) =~= seq!["session.json"@]);
    let total: usize = request.snapshot.thought_history.len();
    let mut i: usize = 0;
    assert(history_labels(0) =~= Seq::<Seq<char>>::empty());
    assert(text_views(labels@) =~= seq!["session.json"@] + history_labels(0));
    while i < total
        invariant
            i <= total,
            text_views(labels@) == seq!["session.json"@] + history_labels(i as nat),
        decreases total - i,
    {
        let ghost before = labels@;
        labels.push(thought_file_name(i as u128 + 1));
        assert(text_views(labels@) =~= text_views(before).push(thought_name((i + 1) as nat)));
        i = i + 1;
        assert(text_views(labels@) =~= seq!["session.json"@] + history_labels(i as nat));
    }
    let ghost first = text_views(labels@);
    let ghost ids = branches@.ids;
    let mut k: usize = 0;
    assert(ids.take(0) =~= Seq::<Seq<char>>::empty());
    assert(text_views(labels@) =~= first + branch_labels(ids.take(0), branches@.thoughts));
    while k < branches.len()
        invariant
            k <= ids.len(),
            branches.wf(),
            ids == branches@.ids,
            text_views(labels@) == first + branch_labels(ids.take(k as int), branches@.thoughts),
        decreases ids.len() - k,
    {
        let (id, thoughts) = branches.at(k);
        let ghost before = text_views(labels@);
        let ghost label = "branch file for "@ + id@;
        let mut n: usize = 0;
        assert(before =~= before + Seq::new(0, |j: int| label));
        while n < thoughts.len()
            invariant
                n <= thoughts.len(),
                label == "branch file for "@ + id@,
                text_views(labels@) == before + Seq::new(n as nat, |j: int| label),
            decreases thoughts.len() - n,
        {
            let ghost so_far = labels@;
            let mut text = "branch file for ".to_string();
            text.append(id.as_str());
            labels.push(text);
            assert(text_views(labels@) =~= text_views(so_far).push(label));
            n = n + 1;
            assert(text_views(labels@) =~= before + Seq::new(n as nat, |j: int| label));
        }
        k = k + 1;
        proof {
            let taken = ids.take(k as int);
            assert(taken.drop_last() =~= ids.take(k - 1));
            assert(taken.last() == id@);
            assert(Seq::new(thoughts@.len(), |j: int| label) =~= Seq::new(
                branches@.thoughts[taken.last()].len(),
                |j: int| "branch file for "@ + taken.last(),
            ));
            assert(text_views(labels@) =~= first + branch_labels(taken, branches@.thoughts));
        }
    }
    assert(ids.take(k as int) =~= ids);
    labels
}

/// Why the files of a session could not be written. `T` is a text.
#[derive(Debug, PartialEq, Eq)]
pub enum ThoughtFileError<T> {
    /// The session directory could not be created.
    CreateDir,
    /// The contents of a file could not be written as text; `text` says why.
    Serialize { text: T },
    /// A file could not be written; `label` says which one.
    Write { label: T },
}

impl ThoughtFileError<Seq<char>> {
    /// The text of the error.
    pub open spec fn text(self) -> Seq<char> {
        match self {
            ThoughtFileError::CreateDir => "Failed to create session directory"@,
            ThoughtFileError::Serialize { text } => text,
            ThoughtFileError::Write { label } => "Failed to write "@ + label,
        }
    }
}

impl ThoughtFileError<String> {
    /// The text of the error.
    pub fn message(&self) -> (message: String)
        ensures
            message@ == self@.text(),
    {
        match self {
            ThoughtFileError::CreateDir => "Failed to create session directory".to_string(),
            ThoughtFileError::Serialize { text } => text.clone(),
            ThoughtFileError::Write { label } => {
                let mut text = "Failed to write ".to_string();
                text.append(label.as_str());
                text
            },
        }
    }
}

/// Where the writing of the files of a session stands. `T` is a text.
#[derive(Debug, PartialEq, Eq)]
pub enum WriteStage<T> {
    /// Create the session directory.
    CreateDir,
    /// Write the contents of the next file as text.
    Serialize,
    /// Write that text to the next file.
    Write { text: T },
    /// All files are written.
    Saved,
    /// A file could not be written; those after it were not tried.
    Failed { error: ThoughtFileError<T> },
}

/// The files of a session on their way to the disk: the session directory, the
/// files and what they are called in error texts, how many of them are written,
/// and what comes next.
#[verifier::ext_equal]
pub struct ThoughtFilesView {
    pub dir: crate::path::PathView,
    pub files: Seq<(Seq<char>, StoredView)>,
    pub labels: Seq<Seq<char>>,
    pub written: nat,
    pub stage: WriteStage<Seq<char>>,
}

/// The writing of the files of a session at its start.
pub open spec fn thought_files_job(
    sessions_dir: crate::path::PathView,
    session: crate::types::SessionFileView,
) -> ThoughtFilesView {
    ThoughtFilesView {
        dir: sessions_dir.push(session.session_id),
        files: session_files(session),
        labels: session_labels(session),
        written: 0,
        stage: WriteStage::CreateDir,
    }
}

impl ThoughtFilesView {
    /// As long as the writing goes on there is a next file, and every file has
    /// a label.
    pub open spec fn wf(self) -> bool {
        &&& self.stage is Saved || self.written < self.files.len()
        &&& self.labels.len() == self.files.len()
    }

    /// The name of the next file.
    pub open spec fn name(self) -> Seq<char> {
        self.files[self.written as int].0
    }

    /// The request that comes next.
    pub open spec fn request(self) -> Option<crate::persistence::DiskRequestView> {
        match self.stage {
            WriteStage::CreateDir => Some(DiskRequest::CreateDir(self.dir)),
            WriteStage::Serialize => Some(DiskRequest::Serialize),
            WriteStage::Write { text } => Some(
                DiskRequest::WriteFile(self.dir.push(self.name()), text),
            ),
            WriteStage::Saved => None,
            WriteStage::Failed { .. } => None,
        }
    }

    /// The writing after an outcome. An outcome that does not answer the
    /// request changes nothing.
    pub open spec fn step(self, event: crate::persistence::DiskEventView) -> ThoughtFilesView {
        match (self.stage, event) {
            (WriteStage::CreateDir, DiskEvent::Done(done)) => ThoughtFilesView {
                stage: if done {
                    WriteStage::Serialize
                } else {
                    WriteStage::Failed { error: ThoughtFileError::CreateDir }
                },
                ..self
            },
            (WriteStage::Serialize, DiskEvent::Serialized(text)) => ThoughtFilesView {
                stage: match text {
                    Ok(text) => WriteStage::Write { text },
                    Err(text) => WriteStage::Failed { error: ThoughtFileError::Serialize { text } },
                },
                ..self
            },
            (WriteStage::Write { text }, DiskEvent::Done(done)) => if !done {
                ThoughtFilesView {
                    stage: WriteStage::Failed {
                        error: ThoughtFileError::Write { label: self.labels[self.written as int] },
                    },
                    ..self
                }
            } else if self.written + 1 < self.files.len() {
                ThoughtFilesView {
                    written: self.written + 1,
                    stage: WriteStage::Serialize,
                    ..self
                }
            } else {
                ThoughtFilesView { written: self.written + 1, stage: WriteStage::Saved, ..self }
            },
            _ => self,
        }
    }

    /// The writing after a list of outcomes.
    pub open spec fn run(self, events: Seq<crate::persistence::DiskEventView>) -> ThoughtFilesView
        decreases events.len(),
    {
        if events.len() == 0 {
            self
        } else {
            self.run(events.drop_last()).step(events.last())
        }
    }
}

/// The files of a session on their way to the disk.
#[derive(Debug)]
pub struct ThoughtFilesJob {
    dir: SessionPath,
    files: Vec<(String, StoredFile)>,
    labels: Vec<String>,
    written: usize,
    stage: WriteStage<String>,
}

impl View for ThoughtFileError<String> {
    type V = ThoughtFileError<Seq<char>>;

    open spec fn view(&self) -> ThoughtFileError<Seq<char>> {
        match *self {
            ThoughtFileError::CreateDir => ThoughtFileError::CreateDir,
            ThoughtFileError::Serialize { text } => ThoughtFileError::Serialize { text: text@ },
            ThoughtFileError::Write { label } => ThoughtFileError::Write { label: label@ },
        }
    }
}

impl View for WriteStage<String> {
    type V = WriteStage<Seq<char>>;

    open spec fn view(&self) -> WriteStage<Seq<char>> {
        match *self {
            WriteStage::CreateDir => WriteStage::CreateDir,
            WriteStage::Serialize => WriteStage::Serialize,
            WriteStage::Write { text } => WriteStage::Write { text: text@ },
            WriteStage::Saved => WriteStage::Saved,
            WriteStage::Failed { error } => WriteStage::Failed { error: error@ },
        }
    }
}

impl View for ThoughtFilesJob {
    type V = ThoughtFilesView;

    closed spec fn view(&self) -> ThoughtFilesView {
        ThoughtFilesView {
            dir: self.dir@,
            files: file_views(self.files@),
            labels: text_views(self.labels@),
            written: self.written as nat,
            stage: self.stage@,
        }
    }
}

impl ThoughtFilesJob {
    /// The request that comes next, until the writing is over.
    pub fn next_request(&self) -> (request: Option<DiskRequest<SessionPath, String>>)
        requires
            self@.wf(),
        ensures
            crate::persistence::request_view(request) == self@.request(),
    {
        match &self.stage {
            WriteStage::CreateDir => Some(DiskRequest::CreateDir(self.dir.clone())),
            WriteStage::Serialize => Some(DiskRequest::Serialize),
            WriteStage::Write { text } => Some(
                DiskRequest::WriteFile(
                    self.dir.join(self.files[self.written].0.as_str()),
                    text.clone(),
                ),
            ),
            WriteStage::Saved => None,
            WriteStage::Failed { .. } => None,
        }
    }

    /// Goes on with the outcome of the request.
    pub fn advance(self, event: DiskEvent<SessionPath, String>) -> (next: Self)
        requires
            self@.wf(),
        ensures
            next@ == self@.step(event@),
            next@.wf(),
    {
        let ThoughtFilesJob { dir, files, labels, written, stage } = self;
        assert(self@.files.len() == files.len());
        assert(self@.labels.len() == labels.len());
        match (stage, event) {
            (WriteStage::CreateDir, DiskEvent::Done(done)) => {
                let stage = if done {
                    WriteStage::Serialize
                } else {
                    WriteStage::Failed { error: ThoughtFileError::CreateDir }
                };
                ThoughtFilesJob { dir, files, labels, written, stage }
            },
            (WriteStage::Serialize, DiskEvent::Serialized(text)) => {
                let stage = match text {
                    Ok(text) => WriteStage::Write { text },
                    Err(text) => WriteStage::Failed { error: ThoughtFileError::Serialize { text } },
                };
                ThoughtFilesJob { dir, files, labels, written, stage }
            },
            (WriteStage::Write { text: _ }, DiskEvent::Done(done)) => if !done {
                let stage = WriteStage::Failed {
                    error: ThoughtFileError::Write { label: labels[written].clone() },
                };
                ThoughtFilesJob { dir, files, labels, written, stage }
            } else {
                let stage = if written + 1 < files.len() {
                    WriteStage::Serialize
                } else {
                    WriteStage::Saved
                };
                ThoughtFilesJob { dir, files, labels, written: written + 1, stage }
            },
            (stage, _) => ThoughtFilesJob { dir, files, labels, written, stage },
        }
    }

    /// What is to be written as text, when that comes next.
    pub fn file_to_serialize(&self) -> (file: Option<&StoredFile>)
        requires
            self@.wf(),
        ensures
            match file {
                Some(stored) => self@.stage is Serialize && stored@
                    == self@.files[self@.written as int].1,
                None => !(self@.stage is Serialize),
            },
    {
        match &self.stage {
            WriteStage::Serialize => Some(&self.files[self.written].1),
            _ => None,
        }
    }

    /// Where the writing stands.
    pub fn stage(&self) -> (stage: &WriteStage<String>)
        ensures
            stage@ == self@.stage,
    {
        &self.stage
    }
}

/// Starts writing the files of a session to disk, below the directory of the
/// store.
pub fn persist_thought_files(config: &PersistenceConfig, request: &PersistRequest) -> (job:
    ThoughtFilesJob)
    requires
        request.snapshot.wf(),
    ensures
        job@ == thought_files_job(config.sessions_dir@, request@),
        job@.wf(),
        request@.state.branches.wf(),
{
    let job = ThoughtFilesJob {
        dir: config.sessions_dir.join(request.session_id.as_str()),
        files: files_of_session(request),
        labels: labels_of_session(request),
        written: 0,
        stage: WriteStage::CreateDir,
    };
    proof {
        lemma_branch_labels(request@.state.branches.ids, request@.state.branches.thoughts);
    }
    assert(job@.files.len() > 0);
    job
}

/// The files are written one after the other: the next file gets the text of
/// its own contents, and the one after it comes next.
pub proof fn law_files_are_written_in_order(job: ThoughtFilesView, text: Seq<char>)
    requires
        job.wf(),
        job.stage is Serialize,
    ensures
        ({
            let writing = job.step(DiskEvent::Serialized(Ok(text)));
            let after = writing.step(DiskEvent::Done(true));
            &&& writing.request() == Some(
                crate::persistence::DiskRequestView::WriteFile(
                    job.dir.push(job.files[job.written as int].0),
                    text,
                ),
            )
            &&& after.written == job.written + 1
            &&& after.stage is Saved <==> after.written == job.files.len()
            &&& after.stage is Serialize <==> after.written < job.files.len()
        }),
{
}

/// A session is reported as saved only when every one of its files was
/// written.
pub proof fn law_saved_sessions_are_complete(
    sessions_dir: crate::path::PathView,
    session: crate::types::SessionFileView,
    events: Seq<crate::persistence::DiskEventView>,
)
    ensures
        ({
            let after = thought_files_job(sessions_dir, session).run(events);
            &&& after.wf()
            &&& after.files == session_files(session)
            &&& after.stage is Saved ==> after.written == session_files(session).len()
        }),
    decreases events.len(),
{
    if events.len() == 0 {
        assert(session_files(session).len() > 0);
        lemma_branch_labels(session.state.branches.ids, session.state.branches.thoughts);
    } else {
        law_saved_sessions_are_complete(sessions_dir, session, events.drop_last());
    }
}

/// The files of a session: first `session.json` with its id, its times, the
/// number of its thoughts and its branches; then the thoughts of the history,
/// each in a file with its place, counted from 1.
pub proof fn law_every_thought_has_its_file(session: crate::types::SessionFileView, i: int)
    requires
        0 <= i < session.state.history.len(),
    ensures
        ({
            let files = session_files(session);
            let thought = session.state.history[i];
            &&& files.len() >= 1 + session.state.history.len()
            &&& files[0].0 == "session.json"@
            &&& files[0].1 matches StoredView::Metadata(metadata) && {
                &&& metadata.session_id == session.session_id
                &&& metadata.created_at == session.created_at
                &&& metadata.last_activity == session.last_activity
                &&& metadata.total_thoughts == session.state.history.len()
                &&& metadata.branch_ids == session.state.branches.ids
            }
            &&& files[i + 1].0 == "thought"@ + crate::string_utils::decimal((i + 1) as nat)
                + ".json"@
            &&& files[i + 1].1 matches StoredView::Thought(persisted) && {
                &&& persisted.thought_data == thought
                &&& persisted.thought_number == thought.thought_number
            }
        }),
{
    let files = session_files(session);
    assert(files[0] == ("session.json"@, StoredView::Metadata(metadata_of(session))));
    assert(files[i + 1] == history_files(session.state.history)[i]);
}

/// The thoughts of a branch have their files, each with the name of the branch
/// and its place there, counted from 1.
pub proof fn law_every_branched_thought_has_its_file(
    id: Seq<char>,
    thoughts: Seq<ThoughtData>,
    i: int,
)
    requires
        0 <= i < thoughts.len(),
    ensures
        branch_files(id, thoughts).len() == thoughts.len(),
        branch_files(id, thoughts)[i].0 == "branch_"@ + id + "_thought"@
            + crate::string_utils::decimal((i + 1) as nat) + ".json"@,
        branch_files(id, thoughts)[i].1 matches StoredView::Thought(persisted)
            && persisted.thought_data == thoughts[i] && persisted.thought_number
            == thoughts[i].thought_number,
{
}

/// The branches follow each other, and the files of all of them follow those of
/// the history; a further branch adds its own files at the end.
pub proof fn law_branch_files_follow_each_other(
    session: crate::types::SessionFileView,
    ids: Seq<Seq<char>>,
    thoughts: Map<Seq<char>, Seq<ThoughtData>>,
    id: Seq<char>,
)
    ensures
        all_branch_files(Seq::empty(), thoughts).len() == 0,
        all_branch_files(ids.push(id), thoughts) == all_branch_files(ids, thoughts) + branch_files(
            id,
            thoughts[id],
        ),
        session_files(session).skip(1 + session.state.history.len() as int) == all_branch_files(
            session.state.branches.ids,
            session.state.branches.thoughts,
        ),
{
    assert(ids.push(id).drop_last() =~= ids);
    let files = session_files(session);
    let history = history_files(session.state.history);
    assert(history.len() == session.state.history.len());
    assert(files.skip(1 + session.state.history.len() as int) =~= all_branch_files(
        session.state.branches.ids,
        session.state.branches.thoughts,
    ));
}

/// Writing starts with the directory of the session below the store, and goes
/// from file to file; the first step that fails ends it, with the text of the
/// serializer, or the name of the file, or of the branch.
pub proof fn law_thought_files_are_written_step_by_step(
    sessions_dir: crate::path::PathView,
    session: crate::types::SessionFileView,
    job: ThoughtFilesView,
    text: Seq<char>,
    why: Seq<char>,
)
    requires
        job.wf(),
    ensures
        ({
            let start = thought_files_job(sessions_dir, session);
            let dir = sessions_dir + seq![session.session_id];
            &&& start.request() == Some(crate::persistence::DiskRequestView::CreateDir(dir))
            &&& start.step(DiskEvent::Done(true)).request() == Some(
                crate::persistence::DiskRequestView::Serialize,
            )
            &&& start.step(DiskEvent::Done(false)).stage == (WriteStage::<Seq<char>>::Failed {
                error: ThoughtFileError::CreateDir,
            })
            &&& start.dir == dir && start.written == 0 && start.files == session_files(session)
        }),
        job.stage is Serialize ==> job.step(DiskEvent::Serialized(Err(why))).stage == (
        WriteStage::Failed { error: ThoughtFileError::Serialize { text: why } }),
        job.stage == (WriteStage::Write { text }) ==> {
            let failed = job.step(DiskEvent::Done(false));
            &&& failed.stage == (WriteStage::Failed {
                error: ThoughtFileError::Write { label: job.labels[job.written as int] },
            })
            &&& failed.request() is None
            &&& failed.written == job.written
        },
        job.stage is Saved ==> (job.request() is None),
{
    assert(sessions_dir.push(session.session_id) =~= sessions_dir + seq![session.session_id]);
}

/// A failed write names the file, or, for a thought of a branch, the branch; a
/// failed serialization says what the serializer says.
pub proof fn law_failures_name_their_files(
    session: crate::types::SessionFileView,
    ids: Seq<Seq<char>>,
    thoughts: Map<Seq<char>, Seq<ThoughtData>>,
    id: Seq<char>,
    i: int,
    text: Seq<char>,
)
    requires
        0 <= i < session.state.history.len(),
    ensures
        session_labels(session)[0] == "session.json"@,
        session_labels(session)[i + 1] == "thought"@ + crate::string_utils::decimal(
            (i + 1) as nat,
        ) + ".json"@,
        branch_labels(Seq::empty(), thoughts).len() == 0,
        branch_labels(ids.push(id), thoughts).len() == branch_labels(ids, thoughts).len()
            + thoughts[id].len(),
        forall|j: int|
            branch_labels(ids, thoughts).len() <= j < branch_labels(ids.push(id), thoughts).len()
                ==> #[trigger] branch_labels(ids.push(id), thoughts)[j] == "branch file for "@ + id,
        (ThoughtFileError::<Seq<char>>::CreateDir).text() == "Failed to create session directory"@,
        (ThoughtFileError::Serialize { text }).text() == text,
        (ThoughtFileError::Write { label: text }).text() == "Failed to write "@ + text,
{
    assert(ids.push(id).drop_last() =~= ids);
    assert(session_labels(session)[i + 1] == history_labels(session.state.history.len())[i]);
}

/// The files of a store are seen as they are.
pub proof fn law_stored_files_are_seen_as_they_are(
    metadata: SessionMetadataFile,
    thought: PersistedThought,
    data: ThoughtData,
    n: nat,
    id: Seq<char>,
)
    ensures
        metadata@.session_id == metadata.session_id@,
        metadata@.created_at == metadata.created_at,
        metadata@.last_activity == metadata.last_activity,
        metadata@.total_thoughts == metadata.total_thoughts,
        metadata@.branch_ids.len() == metadata.branch_ids.len(),
        forall|i: int|
            0 <= i < metadata.branch_ids.len() ==> #[trigger] metadata@.branch_ids[i]
                == metadata.branch_ids@[i]@,
        StoredFile::Metadata(metadata)@ == StoredView::Metadata(metadata@),
        StoredFile::Thought(thought)@ == StoredView::Thought(thought),
        stored(data) matches StoredView::Thought(persisted) && persisted.thought_data == data
            && persisted.thought_number == data.thought_number,
        thought_name(n) == "thought"@ + crate::string_utils::decimal(n) + ".json"@,
        branch_name(id, n) == "branch_"@ + id + "_thought"@ + crate::string_utils::decimal(n)
            + ".json"@,
{
}

/// The writing of thought files is seen as it is.
pub proof fn law_stages_are_seen_as_they_are(
    text: String,
    error: ThoughtFileError<String>,
    texts: Seq<String>,
    files: Seq<(String, StoredFile)>,
    i: int,
    j: int,
)
    requires
        0 <= i < texts.len(),
        0 <= j < files.len(),
    ensures
        WriteStage::<String>::CreateDir@ == WriteStage::<Seq<char>>::CreateDir,
        WriteStage::<String>::Serialize@ == WriteStage::<Seq<char>>::Serialize,
        (WriteStage::Write { text })@ == (WriteStage::Write { text: text@ }),
        WriteStage::<String>::Saved@ == WriteStage::<Seq<char>>::Saved,
        (WriteStage::Failed { error })@ == (WriteStage::Failed { error: error@ }),
        ThoughtFileError::<String>::CreateDir@ == ThoughtFileError::<Seq<char>>::CreateDir,
        (ThoughtFileError::Serialize { text })@ == (ThoughtFileError::Serialize { text: text@ }),
        (ThoughtFileError::Write { label: text })@ == (ThoughtFileError::Write { label: text@ }),
        text_views(texts).len() == texts.len(),
        text_views(texts)[i] == texts[i]@,
        file_views(files).len() == files.len(),
        file_views(files)[j].0 == files[j].0@,
        file_views(files)[j].1 == files[j].1@,
{
}

/// A writing that is over stays what it came to and asks for nothing; before that,
/// an outcome that answers another question than the one that was asked changes
/// nothing.
pub proof fn law_thought_files_wait_for_their_answer(
    job: ThoughtFilesView,
    event: crate::persistence::DiskEventView,
)
    ensures
        job.stage is Saved || job.stage is Failed ==> job.step(event) == job && (job.request()
            is None),
        job.stage is CreateDir && !(event is Done) ==> job.step(event) == job,
        job.stage is Serialize && !(event is Serialized) ==> job.step(event) == job,
        job.stage is Write && !(event is Done) ==> job.step(event) == job,
{
}

/// Every session has its metadata file, also one without thoughts: it holds the
/// id, the times, the number of the thoughts and the branches, as they are. Nothing
/// else is written of a session without thoughts and branches.
pub proof fn law_every_session_has_its_metadata(session: crate::types::SessionFileView)
    ensures
        ({
            let metadata = metadata_of(session);
            &&& session_files(session)[0] == ("session.json"@, StoredView::Metadata(metadata))
            &&& metadata.session_id == session.session_id
            &&& metadata.created_at == session.created_at
            &&& metadata.last_activity == session.last_activity
            &&& metadata.total_thoughts == session.state.history.len()
            &&& metadata.branch_ids == session.state.branches.ids
            &&& session.state.history.len() == 0 && session.state.branches.ids.len() == 0
                ==> session_files(session).len() == 1
        }),
{
}

} // verus!
