//! What is read from thought files is what was written to them.

use crate::thought_restore::{ThoughtEvent, ThoughtRequest, ThoughtRestore};
use crate::types::{PersistedThought, SessionHandle, ThoughtData};
use vstd::prelude::*;

verus! {

/// The files of a session directory: what each of them holds, by name.
pub type Directory = Map<Seq<char>, crate::thought_files::StoredView>;

/// A list of files, each with its name.
pub type FileList = Seq<(Seq<char>, crate::thought_files::StoredView)>;

/// A directory after some files were written to it, one after the other.
pub open spec fn written_over(directory: Directory, files: FileList) -> Directory
    decreases files.len(),
{
    if files.len() == 0 {
        directory
    } else {
        written_over(directory, files.drop_last()).insert(files.last().0, files.last().1)
    }
}

/// The metadata in a file, if it holds metadata.
pub open spec fn metadata_in(directory: Directory, name: Seq<char>) -> Option<
    crate::thought_files::MetadataView,
> {
    if directory.contains_key(name) {
        match directory[name] {
            crate::thought_files::StoredView::Metadata(metadata) => Some(metadata),
            _ => None,
        }
    } else {
        None
    }
}

/// The thought in a file, if it holds a thought.
pub open spec fn thought_in(directory: Directory, name: Seq<char>) -> Option<PersistedThought> {
    if directory.contains_key(name) {
        match directory[name] {
            crate::thought_files::StoredView::Thought(thought) => Some(thought),
            _ => None,
        }
    } else {
        None
    }
}

/// What a session directory answers to a request to read.
pub open spec fn answer(
    directory: Directory,
    request: ThoughtRequest<crate::path::PathView>,
) -> crate::thought_restore::ThoughtEventView {
    match request {
        ThoughtRequest::Exists(path) => ThoughtEvent::Exists(true),
        ThoughtRequest::ReadMetadata(path) => ThoughtEvent::Metadata(
            metadata_in(directory, path.last()),
        ),
        ThoughtRequest::ReadThought(path) => ThoughtEvent::Thought(
            thought_in(directory, path.last()),
        ),
        ThoughtRequest::Spawn => ThoughtEvent::Exists(true),
    }
}

/// A restoration that has read on for a number of steps from a session
/// directory.
pub open spec fn read_on(
    directory: Directory,
    restore: crate::thought_restore::ThoughtRestoreView,
    steps: nat,
) -> crate::thought_restore::ThoughtRestoreView
    decreases steps,
{
    if steps == 0 {
        restore
    } else {
        let before = read_on(directory, restore, (steps - 1) as nat);
        match before.request() {
            Some(request) => before.step(answer(directory, request)),
            None => before,
        }
    }
}

/// Reading on goes step by step.
proof fn lemma_read_on_adds(
    directory: Directory,
    restore: crate::thought_restore::ThoughtRestoreView,
    m: nat,
    n: nat,
)
    ensures
        read_on(directory, restore, m + n) == read_on(
            directory,
            read_on(directory, restore, m),
            n,
        ),
    decreases n,
{
    if n > 0 {
        lemma_read_on_adds(directory, restore, m, (n - 1) as nat);
        assert((m + n - 1) as nat == m + (n - 1) as nat);
    }
}

/// Different thoughts of a branch, and thoughts of different branches, have
/// different files.
pub proof fn lemma_branch_name_injective(a: Seq<char>, m: nat, b: Seq<char>, n: nat)
    requires
        crate::thought_files::branch_name(a, m) == crate::thought_files::branch_name(b, n),
    ensures
        a == b,
        m == n,
{
    reveal_strlit("branch_");
    reveal_strlit("_thought");
    reveal_strlit(".json");
    let x = crate::thought_files::branch_name(a, m);
    let y = crate::thought_files::branch_name(b, n);
    let p = crate::string_utils::decimal(m);
    let q = crate::string_utils::decimal(n);
    crate::string_utils::lemma_decimal_digits(m);
    crate::string_utils::lemma_decimal_digits(n);
    let len = x.len() as int;
    assert(len == 7 + a.len() + 8 + p.len() + 5);
    assert(len == 7 + b.len() + 8 + q.len() + 5);
    assert("_thought"@[7] == 't');
    if p.len() < q.len() {
        let at = len - 6 - p.len();
        assert(x[at] == 't');
        assert(y[at] == q[at - (len - 5 - q.len())]);
        assert(false);
    }
    if q.len() < p.len() {
        let at = len - 6 - q.len();
        assert(y[at] == 't');
        assert(x[at] == p[at - (len - 5 - p.len())]);
        assert(false);
    }
    assert forall|i: int| 0 <= i < p.len() implies p[i] == q[i] by {
        assert(x[15 + a.len() + i] == p[i]);
        assert(y[15 + b.len() + i] == q[i]);
    }
    assert(p =~= q);
    crate::string_utils::lemma_decimal_injective(m, n);
    assert forall|i: int| 0 <= i < a.len() implies a[i] == b[i] by {
        assert(x[7 + i] == a[i]);
        assert(y[7 + i] == b[i]);
    }
    assert(a =~= b);
}

/// Different thoughts of a history have different files.
pub proof fn lemma_thought_name_injective(m: nat, n: nat)
    requires
        crate::thought_files::thought_name(m) == crate::thought_files::thought_name(n),
    ensures
        m == n,
{
    reveal_strlit("thought");
    reveal_strlit(".json");
    let x = crate::thought_files::thought_name(m);
    let y = crate::thought_files::thought_name(n);
    let p = crate::string_utils::decimal(m);
    let q = crate::string_utils::decimal(n);
    assert(x.len() == 7 + p.len() + 5);
    assert(y.len() == 7 + q.len() + 5);
    assert forall|i: int| 0 <= i < p.len() implies p[i] == q[i] by {
        assert(x[7 + i] == p[i]);
        assert(y[7 + i] == q[i]);
    }
    assert(p =~= q);
    crate::string_utils::lemma_decimal_injective(m, n);
}

/// The metadata, the history and the branches have different files.
pub proof fn lemma_names_apart(m: nat, id: Seq<char>, n: nat)
    ensures
        crate::thought_files::thought_name(m) != "session.json"@,
        crate::thought_files::branch_name(id, n) != "session.json"@,
        crate::thought_files::branch_name(id, n) != crate::thought_files::thought_name(m),
{
    reveal_strlit("thought");
    reveal_strlit("branch_");
    reveal_strlit("_thought");
    reveal_strlit(".json");
    reveal_strlit("session.json");
    assert(crate::thought_files::thought_name(m)[0] == 't');
    assert(crate::thought_files::branch_name(id, n)[0] == 'b');
    assert("session.json"@[0] == 's');
}

/// What was written last under a name is found there.
proof fn lemma_found(
    directory: Directory,
    files: FileList,
    name: Seq<char>,
    file: crate::thought_files::StoredView,
)
    requires
        files.contains((name, file)),
        forall|i: int| 0 <= i < files.len() && (#[trigger] files[i]).0 == name ==> files[i].1 == file,
    ensures
        written_over(directory, files).contains_key(name),
        written_over(directory, files)[name] == file,
    decreases files.len(),
{
    let rest = files.drop_last();
    if files.last().0 != name {
        let i = choose|i: int| 0 <= i < files.len() && files[i] == (name, file);
        assert(rest[i] == (name, file));
        assert forall|j: int| 0 <= j < rest.len() && (#[trigger] rest[j]).0 == name implies rest[j].1
            == file by {
            assert(files[j] == rest[j]);
        }
        lemma_found(directory, rest, name, file);
    } else {
        assert(files[files.len() - 1] == files.last());
    }
}

/// What was not written under a name is as it was.
proof fn lemma_untouched(directory: Directory, files: FileList, name: Seq<char>)
    requires
        forall|i: int| 0 <= i < files.len() ==> (#[trigger] files[i]).0 != name,
    ensures
        thought_in(written_over(directory, files), name) == thought_in(directory, name),
    decreases files.len(),
{
    if files.len() > 0 {
        let rest = files.drop_last();
        assert forall|j: int| 0 <= j < rest.len() implies (#[trigger] rest[j]).0 != name by {
            assert(files[j] == rest[j]);
        }
        lemma_untouched(directory, rest, name);
        assert(files[files.len() - 1] == files.last());
    }
}

/// Whether a file is that of a thought of a branch.
pub open spec fn is_branch_file(
    ids: Seq<Seq<char>>,
    thoughts: Map<Seq<char>, Seq<ThoughtData>>,
    file: (Seq<char>, crate::thought_files::StoredView),
) -> bool {
    exists|k: int, i: int|
        #![trigger ids[k], thoughts[ids[k]][i]]
        0 <= k < ids.len() && 0 <= i < thoughts[ids[k]].len() && file == (
            crate::thought_files::branch_name(ids[k], (i + 1) as nat),
            crate::thought_files::stored(thoughts[ids[k]][i]),
        )
}

/// The files of the branches are those of their thoughts, and no others.
proof fn lemma_branch_files(ids: Seq<Seq<char>>, thoughts: Map<Seq<char>, Seq<ThoughtData>>)
    ensures
        forall|j: int|
            0 <= j < crate::thought_files::all_branch_files(ids, thoughts).len()
                ==> is_branch_file(
                ids,
                thoughts,
                #[trigger] crate::thought_files::all_branch_files(ids, thoughts)[j],
            ),
        forall|k: int, i: int|
            #![trigger ids[k], thoughts[ids[k]][i]]
            0 <= k < ids.len() && 0 <= i < thoughts[ids[k]].len()
                ==> crate::thought_files::all_branch_files(ids, thoughts).contains(
                (
                    crate::thought_files::branch_name(ids[k], (i + 1) as nat),
                    crate::thought_files::stored(thoughts[ids[k]][i]),
                ),
            ),
    decreases ids.len(),
{
    if ids.len() > 0 {
        let rest = ids.drop_last();
        let before = crate::thought_files::all_branch_files(rest, thoughts);
        let added = crate::thought_files::branch_files(ids.last(), thoughts[ids.last()]);
        let all = crate::thought_files::all_branch_files(ids, thoughts);
        lemma_branch_files(rest, thoughts);
        assert(all == before + added);
        assert forall|j: int| 0 <= j < all.len() implies is_branch_file(
            ids,
            thoughts,
            #[trigger] all[j],
        ) by {
            if j < before.len() {
                assert(all[j] == before[j]);
                assert(is_branch_file(rest, thoughts, before[j]));
                let (k, i) = choose|k: int, i: int|
                    #![trigger rest[k], thoughts[rest[k]][i]]
                    0 <= k < rest.len() && 0 <= i < thoughts[rest[k]].len() && before[j] == (
                        crate::thought_files::branch_name(rest[k], (i + 1) as nat),
                        crate::thought_files::stored(thoughts[rest[k]][i]),
                    );
                assert(ids[k] == rest[k]);
                assert(thoughts[ids[k]][i] == thoughts[rest[k]][i]);
            } else {
                let i = j - before.len();
                let k = ids.len() - 1;
                assert(all[j] == added[i]);
                assert(ids[k] == ids.last());
                assert(thoughts[ids[k]][i] == thoughts[ids.last()][i]);
            }
        }
        assert forall|k: int, i: int|
            #![trigger ids[k], thoughts[ids[k]][i]]
            0 <= k < ids.len() && 0 <= i < thoughts[ids[k]].len() implies all.contains(
            (
                crate::thought_files::branch_name(ids[k], (i + 1) as nat),
                crate::thought_files::stored(thoughts[ids[k]][i]),
            ),
        ) by {
            let file = (
                crate::thought_files::branch_name(ids[k], (i + 1) as nat),
                crate::thought_files::stored(thoughts[ids[k]][i]),
            );
            if k < rest.len() {
                assert(rest[k] == ids[k]);
                assert(thoughts[rest[k]][i] == thoughts[ids[k]][i]);
                assert(before.contains(file));
                let j = choose|j: int| 0 <= j < before.len() && before[j] == file;
                assert(all[j] == file);
            } else {
                assert(added[i] == file);
                assert(all[before.len() + i] == file);
            }
        }
    }
}

/// What a directory must hold for a session to be read from it.
pub open spec fn holds_session(
    directory: Directory,
    session: crate::types::SessionFileView,
) -> bool {
    let ids = session.state.branches.ids;
    let thoughts = session.state.branches.thoughts;
    &&& metadata_in(directory, "session.json"@) == Some(crate::thought_files::metadata_of(session))
    &&& forall|i: int|
        0 <= i < session.state.history.len() ==> (thought_in(
            directory,
            #[trigger] crate::thought_files::thought_name((i + 1) as nat),
        ) matches Some(persisted) && persisted.thought_data == session.state.history[i])
    &&& forall|k: int, i: int|
        #![trigger ids[k], thoughts[ids[k]][i]]
        0 <= k < ids.len() && 0 <= i < thoughts[ids[k]].len() ==> (thought_in(
            directory,
            crate::thought_files::branch_name(ids[k], (i + 1) as nat),
        ) matches Some(persisted) && persisted.thought_data == thoughts[ids[k]][i])
    &&& forall|k: int|
        0 <= k < ids.len() ==> (thought_in(
            directory,
            crate::thought_files::branch_name(#[trigger] ids[k], thoughts[ids[k]].len() + 1),
        ) is None)
}

/// Whether no branch has a file left over from a longer one of the same name.
pub open spec fn no_longer_branch(
    directory: Directory,
    branches: crate::branches::BranchView,
) -> bool {
    forall|k: int|
        0 <= k < branches.ids.len() ==> (thought_in(
            directory,
            crate::thought_files::branch_name(
                #[trigger] branches.ids[k],
                branches.thoughts[branches.ids[k]].len() + 1,
            ),
        ) is None)
}

/// After the files of a session were written, the directory holds the session.
proof fn lemma_directory_holds_session(
    directory: Directory,
    session: crate::types::SessionFileView,
)
    requires
        session.state.branches.wf(),
        no_longer_branch(directory, session.state.branches),
    ensures
        holds_session(
            written_over(directory, crate::thought_files::session_files(session)),
            session,
        ),
{
    let files = crate::thought_files::session_files(session);
    let after = written_over(directory, files);
    let history = session.state.history;
    let ids = session.state.branches.ids;
    let thoughts = session.state.branches.thoughts;
    let metadata = crate::thought_files::StoredView::Metadata(
        crate::thought_files::metadata_of(session),
    );
    let first = seq![("session.json"@, metadata)];
    let second = crate::thought_files::history_files(history);
    let third = crate::thought_files::all_branch_files(ids, thoughts);
    assert(files == first + second + third);
    lemma_branch_files(ids, thoughts);
    // Every file is one of the three kinds.
    assert forall|j: int| 0 <= j < files.len() implies {
        ||| #[trigger] files[j] == first[0]
        ||| exists|i: int|
            0 <= i < history.len() && files[j] == (
                #[trigger] crate::thought_files::thought_name((i + 1) as nat),
                crate::thought_files::stored(history[i]),
            )
        ||| is_branch_file(ids, thoughts, files[j])
    } by {
        if j == 0 {
            assert(files[j] == first[0]);
        } else if j < 1 + second.len() {
            let i = j - 1;
            assert(files[j] == second[i]);
            assert(files[j] == (
                crate::thought_files::thought_name((i + 1) as nat),
                crate::thought_files::stored(history[i]),
            ));
        } else {
            assert(files[j] == third[j - 1 - second.len()]);
        }
    }
    // The metadata.
    assert(files[0] == ("session.json"@, metadata));
    assert forall|j: int| 0 <= j < files.len() && (#[trigger] files[j]).0
        == "session.json"@ implies files[j].1 == metadata by {
        if exists|i: int|
            0 <= i < history.len() && files[j] == (
                #[trigger] crate::thought_files::thought_name((i + 1) as nat),
                crate::thought_files::stored(history[i]),
            ) {
            let i = choose|i: int|
                0 <= i < history.len() && files[j] == (
                    #[trigger] crate::thought_files::thought_name((i + 1) as nat),
                    crate::thought_files::stored(history[i]),
                );
            lemma_names_apart((i + 1) as nat, Seq::empty(), 1);
        }
        if is_branch_file(ids, thoughts, files[j]) {
            let (k, i) = choose|k: int, i: int|
                #![trigger ids[k], thoughts[ids[k]][i]]
                0 <= k < ids.len() && 0 <= i < thoughts[ids[k]].len() && files[j] == (
                    crate::thought_files::branch_name(ids[k], (i + 1) as nat),
                    crate::thought_files::stored(thoughts[ids[k]][i]),
                );
            lemma_names_apart(1, ids[k], (i + 1) as nat);
        }
    }
    lemma_found(directory, files, "session.json"@, metadata);
    // The history.
    assert forall|n: int| 0 <= n < history.len() implies (thought_in(
        after,
        #[trigger] crate::thought_files::thought_name((n + 1) as nat),
    ) matches Some(persisted) && persisted.thought_data == history[n]) by {
        let name = crate::thought_files::thought_name((n + 1) as nat);
        let file = crate::thought_files::stored(history[n]);
        assert(files[n + 1] == second[n]);
        assert(files[n + 1] == (name, file));
        assert forall|j: int| 0 <= j < files.len() && (#[trigger] files[j]).0
            == name implies files[j].1 == file by {
            lemma_names_apart((n + 1) as nat, Seq::empty(), 1);
            if exists|i: int|
                0 <= i < history.len() && files[j] == (
                    #[trigger] crate::thought_files::thought_name((i + 1) as nat),
                    crate::thought_files::stored(history[i]),
                ) {
                let i = choose|i: int|
                    0 <= i < history.len() && files[j] == (
                        #[trigger] crate::thought_files::thought_name((i + 1) as nat),
                        crate::thought_files::stored(history[i]),
                    );
                lemma_thought_name_injective((i + 1) as nat, (n + 1) as nat);
            }
            if is_branch_file(ids, thoughts, files[j]) {
                let (k, i) = choose|k: int, i: int|
                    #![trigger ids[k], thoughts[ids[k]][i]]
                    0 <= k < ids.len() && 0 <= i < thoughts[ids[k]].len() && files[j] == (
                        crate::thought_files::branch_name(ids[k], (i + 1) as nat),
                        crate::thought_files::stored(thoughts[ids[k]][i]),
                    );
                lemma_names_apart((n + 1) as nat, ids[k], (i + 1) as nat);
            }
        }
        lemma_found(directory, files, name, file);
    }
    // A file with the name of a branch's thought is that thought's.
    assert forall|id: Seq<char>, n: nat, j: int|
        0 <= j < files.len() && (#[trigger] files[j]).0
            == #[trigger] crate::thought_files::branch_name(id, n) implies exists|k: int, i: int|
        #![trigger ids[k], thoughts[ids[k]][i]]
        0 <= k < ids.len() && 0 <= i < thoughts[ids[k]].len() && ids[k] == id && i + 1 == n
            && files[j].1 == crate::thought_files::stored(thoughts[ids[k]][i]) by {
        lemma_names_apart(1, id, n);
        if exists|i: int|
            0 <= i < history.len() && files[j] == (
                #[trigger] crate::thought_files::thought_name((i + 1) as nat),
                crate::thought_files::stored(history[i]),
            ) {
            let i = choose|i: int|
                0 <= i < history.len() && files[j] == (
                    #[trigger] crate::thought_files::thought_name((i + 1) as nat),
                    crate::thought_files::stored(history[i]),
                );
            lemma_names_apart((i + 1) as nat, id, n);
        }
        assert(is_branch_file(ids, thoughts, files[j]));
        let (k, i) = choose|k: int, i: int|
            #![trigger ids[k], thoughts[ids[k]][i]]
            0 <= k < ids.len() && 0 <= i < thoughts[ids[k]].len() && files[j] == (
                crate::thought_files::branch_name(ids[k], (i + 1) as nat),
                crate::thought_files::stored(thoughts[ids[k]][i]),
            );
        lemma_branch_name_injective(ids[k], (i + 1) as nat, id, n);
        assert(thoughts[ids[k]][i] == thoughts[ids[k]][i]);
    }
    // The branches.
    assert forall|k: int, n: int|
        #![trigger ids[k], thoughts[ids[k]][n]]
        0 <= k < ids.len() && 0 <= n < thoughts[ids[k]].len() implies (thought_in(
        after,
        crate::thought_files::branch_name(ids[k], (n + 1) as nat),
    ) matches Some(persisted) && persisted.thought_data == thoughts[ids[k]][n]) by {
        let name = crate::thought_files::branch_name(ids[k], (n + 1) as nat);
        let file = crate::thought_files::stored(thoughts[ids[k]][n]);
        assert(third.contains((name, file)));
        let at = choose|at: int| 0 <= at < third.len() && third[at] == (name, file);
        assert(files[1 + second.len() + at] == (name, file));
        assert forall|j: int| 0 <= j < files.len() && (#[trigger] files[j]).0
            == name implies files[j].1 == file by {
            let (h, i) = choose|h: int, i: int|
                #![trigger ids[h], thoughts[ids[h]][i]]
                0 <= h < ids.len() && 0 <= i < thoughts[ids[h]].len() && ids[h] == ids[k] && i + 1
                    == (n + 1) as nat && files[j].1 == crate::thought_files::stored(
                    thoughts[ids[h]][i],
                );
            assert(i == n);
        }
        lemma_found(directory, files, name, file);
    }
    // The ends of the branches.
    assert forall|k: int| 0 <= k < ids.len() implies (thought_in(
        after,
        crate::thought_files::branch_name(#[trigger] ids[k], thoughts[ids[k]].len() + 1),
    ) is None) by {
        let name = crate::thought_files::branch_name(ids[k], thoughts[ids[k]].len() + 1);
        assert forall|j: int| 0 <= j < files.len() implies (#[trigger] files[j]).0 != name by {
            if files[j].0 == name {
                let (h, i) = choose|h: int, i: int|
                    #![trigger ids[h], thoughts[ids[h]][i]]
                    0 <= h < ids.len() && 0 <= i < thoughts[ids[h]].len() && ids[h] == ids[k] && i
                        + 1 == thoughts[ids[k]].len() + 1 && files[j].1
                        == crate::thought_files::stored(thoughts[ids[h]][i]);
                assert(false);
            }
        }
        lemma_untouched(directory, files, name);
        assert(session.state.branches.ids[k] == ids[k]);
    }
}

/// Reading the rest of the history.
proof fn lemma_reads_history(
    directory: Directory,
    dir: crate::path::PathView,
    session_id: Seq<char>,
    session: crate::types::SessionFileView,
    tried: nat,
)
    requires
        holds_session(directory, session),
        tried <= session.state.history.len(),
    ensures
        ({
            let metadata = crate::thought_files::metadata_of(session);
            let history = session.state.history;
            read_on(
                directory,
                crate::thought_restore::next_thought(
                    dir,
                    session_id,
                    metadata,
                    history.take(tried as int),
                    tried,
                ),
                (history.len() - tried) as nat,
            ) == crate::thought_restore::next_thought(
                dir,
                session_id,
                metadata,
                history,
                history.len(),
            )
        }),
    decreases session.state.history.len() - tried,
{
    let metadata = crate::thought_files::metadata_of(session);
    let history = session.state.history;
    let here = crate::thought_restore::next_thought(
        dir,
        session_id,
        metadata,
        history.take(tried as int),
        tried,
    );
    if tried == history.len() {
        assert(history.take(tried as int) =~= history);
    } else {
        let next = crate::thought_restore::next_thought(
            dir,
            session_id,
            metadata,
            history.take(tried as int + 1),
            tried + 1,
        );
        let name = crate::thought_files::thought_name((tried as int + 1) as nat);
        assert(dir.push(name).last() == name);
        assert(thought_in(directory, name)->0.thought_data == history[tried as int]);
        assert(history.take(tried as int).push(history[tried as int]) =~= history.take(tried as int + 1));
        assert(read_on(directory, here, 0) == here);
        assert(read_on(directory, here, 1) == next);
        lemma_reads_history(directory, dir, session_id, session, tried + 1);
        lemma_read_on_adds(directory, here, 1, (history.len() - (tried + 1)) as nat);
    }
}

/// Reading the rest of a branch.
proof fn lemma_reads_branch(
    directory: Directory,
    dir: crate::path::PathView,
    session_id: Seq<char>,
    session: crate::types::SessionFileView,
    branches: crate::branches::BranchView,
    done: nat,
    read: nat,
)
    requires
        holds_session(directory, session),
        done < session.state.branches.ids.len(),
        read <= session.state.branches.thoughts[session.state.branches.ids[done as int]].len(),
    ensures
        ({
            let metadata = crate::thought_files::metadata_of(session);
            let history = session.state.history;
            let id = session.state.branches.ids[done as int];
            let thoughts = session.state.branches.thoughts[id];
            read_on(
                directory,
                ThoughtRestore::ReadBranch {
                    dir,
                    session_id,
                    metadata,
                    history,
                    branches,
                    done,
                    thoughts: thoughts.take(read as int),
                },
                (thoughts.len() - read + 1) as nat,
            ) == crate::thought_restore::next_branch(
                dir,
                session_id,
                metadata,
                history,
                crate::thought_restore::with_complete_branch(branches, id, thoughts),
                done + 1,
            )
        }),
    decreases
            session.state.branches.thoughts[session.state.branches.ids[done as int]].len() - read,
{
    let metadata = crate::thought_files::metadata_of(session);
    let history = session.state.history;
    let ids = session.state.branches.ids;
    let id = ids[done as int];
    let thoughts = session.state.branches.thoughts[id];
    let here: crate::thought_restore::ThoughtRestoreView = ThoughtRestore::ReadBranch {
        dir,
        session_id,
        metadata,
        history,
        branches,
        done,
        thoughts: thoughts.take(read as int),
    };
    let name = crate::thought_files::branch_name(id, read + 1);
    assert(dir.push(name).last() == name);
    assert(read_on(directory, here, 0) == here);
    assert(here.request() == Some(
        ThoughtRequest::<crate::path::PathView>::ReadThought(dir.push(name)),
    ));
    if read == thoughts.len() {
        assert(thoughts.take(read as int) =~= thoughts);
        assert(thought_in(directory, name) is None);
        assert(read_on(directory, here, 1) == here.step(ThoughtEvent::Thought(None)));
    } else {
        let next: crate::thought_restore::ThoughtRestoreView = ThoughtRestore::ReadBranch {
            dir,
            session_id,
            metadata,
            history,
            branches,
            done,
            thoughts: thoughts.take(read as int + 1),
        };
        assert(session.state.branches.thoughts[ids[done as int]][read as int]
            == thoughts[read as int]);
        assert((read as int + 1) as nat == read + 1);
        assert(thought_in(directory, name)->0.thought_data == thoughts[read as int]);
        assert(thoughts.take(read as int).push(thoughts[read as int]) =~= thoughts.take(read as int + 1));
        assert(read_on(directory, here, 1) == next);
        lemma_reads_branch(directory, dir, session_id, session, branches, done, read + 1);
        lemma_read_on_adds(directory, here, 1, (thoughts.len() - (read + 1) + 1) as nat);
    }
}

/// The branches with thoughts, in their order.
pub open spec fn ids_with_thoughts(
    ids: Seq<Seq<char>>,
    thoughts: Map<Seq<char>, Seq<ThoughtData>>,
) -> Seq<Seq<char>>
    decreases ids.len(),
{
    if ids.len() == 0 {
        Seq::empty()
    } else if thoughts[ids.last()].len() > 0 {
        ids_with_thoughts(ids.drop_last(), thoughts).push(ids.last())
    } else {
        ids_with_thoughts(ids.drop_last(), thoughts)
    }
}

/// The branches with thoughts among the first ones.
pub open spec fn first_branches(
    branches: crate::branches::BranchView,
    n: nat,
) -> crate::branches::BranchView {
    let ids = branches.ids.take(n as int);
    crate::branches::BranchView {
        ids: ids_with_thoughts(ids, branches.thoughts),
        thoughts: branches.thoughts.restrict(
            Set::new(|id: Seq<char>| ids.contains(id) && branches.thoughts[id].len() > 0),
        ),
    }
}

/// The branches without those that have no thoughts.
pub open spec fn without_empty(
    branches: crate::branches::BranchView,
) -> crate::branches::BranchView {
    first_branches(branches, branches.ids.len())
}

/// The branches with thoughts are among the branches.
proof fn lemma_ids_with_thoughts(
    ids: Seq<Seq<char>>,
    thoughts: Map<Seq<char>, Seq<ThoughtData>>,
    id: Seq<char>,
)
    requires
        ids_with_thoughts(ids, thoughts).contains(id),
    ensures
        ids.contains(id),
    decreases ids.len(),
{
    if ids.len() > 0 {
        let rest = ids.drop_last();
        let all = ids_with_thoughts(ids, thoughts);
        if id == ids.last() {
            assert(ids[ids.len() - 1] == id);
        } else {
            let i = choose|i: int| 0 <= i < all.len() && all[i] == id;
            assert(ids_with_thoughts(rest, thoughts)[i] == id);
            lemma_ids_with_thoughts(rest, thoughts, id);
            let j = choose|j: int| 0 <= j < rest.len() && rest[j] == id;
            assert(ids[j] == id);
        }
    }
}

/// One more branch.
proof fn lemma_first_branches(branches: crate::branches::BranchView, n: nat)
    requires
        branches.wf(),
        n < branches.ids.len(),
    ensures
        crate::thought_restore::with_complete_branch(
            first_branches(branches, n),
            branches.ids[n as int],
            branches.thoughts[branches.ids[n as int]],
        ) == first_branches(branches, n + 1),
{
    let ids = branches.ids;
    let id = ids[n as int];
    let before = first_branches(branches, n);
    let after = first_branches(branches, n + 1);
    assert(ids.contains(id));
    assert(branches.thoughts.contains_key(id));
    if ids.take(n as int).contains(id) {
        let i = choose|i: int| 0 <= i < n && ids.take(n as int)[i] == id;
        assert(ids[i] == id);
        assert(false);
    }
    assert(!before.thoughts.contains_key(id));
    let more = ids.take(n as int + 1);
    assert(more.drop_last() =~= ids.take(n as int));
    assert(more.last() == id);
    assert forall|other: Seq<char>| #[trigger]
        more.contains(other) <==> ids.take(n as int).contains(other) || other == id by {
        if ids.take(n as int).contains(other) {
            let i = choose|i: int| 0 <= i < n && ids.take(n as int)[i] == other;
            assert(more[i] == other);
        }
        if more.contains(other) && other != id {
            let i = choose|i: int| 0 <= i < more.len() && more[i] == other;
            assert(ids.take(n as int)[i] == other);
        }
        assert(more[n as int] == id);
    }
    if branches.thoughts[id].len() > 0 {
        let with = before.with_branch(id, branches.thoughts[id]);
        if before.ids.contains(id) {
            lemma_ids_with_thoughts(ids.take(n as int), branches.thoughts, id);
        }
        assert(after.thoughts =~= with.thoughts);
        assert(with.ids =~= after.ids);
    } else {
        assert(after.thoughts =~= before.thoughts);
        assert(after.ids =~= before.ids);
    }
}

/// Branches that all have thoughts are all there are.
proof fn lemma_no_empty_branch(branches: crate::branches::BranchView, n: nat)
    requires
        branches.wf(),
        every_branch_has_thoughts(branches),
        n <= branches.ids.len(),
    ensures
        ids_with_thoughts(branches.ids.take(n as int), branches.thoughts) == branches.ids.take(
            n as int,
        ),
        n == branches.ids.len() ==> without_empty(branches) == branches,
    decreases n,
{
    let ids = branches.ids;
    if n == 0 {
        assert(ids.take(0) =~= Seq::<Seq<char>>::empty());
    } else {
        lemma_no_empty_branch(branches, (n - 1) as nat);
        assert(ids.take(n as int).drop_last() =~= ids.take(n - 1));
        assert(ids.take(n as int).last() == ids[n - 1]);
        assert(ids.take(n - 1).push(ids[n - 1]) =~= ids.take(n as int));
    }
    if n == ids.len() {
        assert(ids.take(n as int) =~= ids);
        assert forall|id: Seq<char>| #[trigger]
            branches.thoughts.contains_key(id) implies branches.thoughts[id].len() > 0
            && ids.contains(id) by {
            assert(ids.contains(id));
            let k = choose|k: int| 0 <= k < ids.len() && ids[k] == id;
            assert(branches.thoughts[ids[k]].len() > 0);
        }
        assert(without_empty(branches).thoughts =~= branches.thoughts);
        assert(without_empty(branches) =~= branches);
    }
}

/// Reading the rest of the branches.
proof fn lemma_reads_branches(
    directory: Directory,
    dir: crate::path::PathView,
    session_id: Seq<char>,
    session: crate::types::SessionFileView,
    done: nat,
) -> (steps: nat)
    requires
        holds_session(directory, session),
        session.state.branches.wf(),
        done <= session.state.branches.ids.len(),
    ensures
        read_on(
            directory,
            crate::thought_restore::next_branch(
                dir,
                session_id,
                crate::thought_files::metadata_of(session),
                session.state.history,
                first_branches(session.state.branches, done),
                done,
            ),
            steps,
        ) == restored_session(session_id, session),
    decreases session.state.branches.ids.len() - done,
{
    let metadata = crate::thought_files::metadata_of(session);
    let history = session.state.history;
    let branches = session.state.branches;
    let here = crate::thought_restore::next_branch(
        dir,
        session_id,
        metadata,
        history,
        first_branches(branches, done),
        done,
    );
    if done == branches.ids.len() {
        assert(read_on(directory, here, 0) == here);
        0
    } else {
        let id = branches.ids[done as int];
        let thoughts = branches.thoughts[id];
        assert(thoughts.take(0) =~= Seq::<ThoughtData>::empty());
        lemma_reads_branch(
            directory,
            dir,
            session_id,
            session,
            first_branches(branches, done),
            done,
            0,
        );
        lemma_first_branches(branches, done);
        let further = lemma_reads_branches(directory, dir, session_id, session, done + 1);
        lemma_read_on_adds(directory, here, thoughts.len() + 1, further);
        thoughts.len() + 1 + further
    }
}

/// Whether every branch has at least one thought.
pub open spec fn every_branch_has_thoughts(branches: crate::branches::BranchView) -> bool {
    forall|k: int|
        0 <= k < branches.ids.len() ==> branches.thoughts[#[trigger] branches.ids[k]].len() > 0
}

/// A restoration that has read a session and is about to start its actor.
/// Branches without thoughts have no file, and are left out.
pub open spec fn restored_session(
    session_id: Seq<char>,
    session: crate::types::SessionFileView,
) -> crate::thought_restore::ThoughtRestoreView {
    ThoughtRestore::Spawn {
        session_id,
        created_at: session.created_at,
        history: session.state.history,
        branches: without_empty(session.state.branches),
    }
}

/// Thought files give back what was written to them: after the files of a
/// session were written to its directory, a restoration reads that session
/// back, the history in its order, and the branches but for those without
/// thoughts. No file is left in the directory of a longer branch of the same
/// name; in a new directory there is none.
pub proof fn law_thought_files_give_back_what_was_written(
    directory: Directory,
    sessions_dir: crate::path::PathView,
    session: crate::types::SessionFileView,
)
    requires
        session.state.branches.wf(),
        no_longer_branch(directory, session.state.branches),
    ensures
        exists|steps: nat| #[trigger]
            read_on(
                written_over(directory, crate::thought_files::session_files(session)),
                crate::thought_restore::thought_restore(sessions_dir, session.session_id),
                steps,
            ) == restored_session(session.session_id, session),
        every_branch_has_thoughts(session.state.branches) ==> without_empty(
            session.state.branches,
        ) == session.state.branches,
{
    let after = written_over(directory, crate::thought_files::session_files(session));
    let id = session.session_id;
    let dir = sessions_dir.push(id);
    let metadata = crate::thought_files::metadata_of(session);
    let history = session.state.history;
    let start = crate::thought_restore::thought_restore(sessions_dir, id);
    lemma_directory_holds_session(directory, session);
    let reading = crate::thought_restore::next_thought(dir, id, metadata, Seq::empty(), 0);
    assert(crate::persist::session_file(dir).last() == "session.json"@);
    assert(read_on(after, start, 0) == start);
    assert(read_on(after, start, 1) == (crate::thought_restore::ThoughtRestoreView::ReadMetadata {
        dir,
        session_id: id,
    }));
    assert(read_on(after, start, 2) == reading);
    assert(history.take(0) =~= Seq::<ThoughtData>::empty());
    lemma_reads_history(after, dir, id, session, 0);
    lemma_read_on_adds(after, start, 2, history.len());
    assert(first_branches(session.state.branches, 0) =~= crate::branches::BranchView::empty()) by {
        assert(session.state.branches.ids.take(0) =~= Seq::<Seq<char>>::empty());
    }
    let further = lemma_reads_branches(after, dir, id, session, 0);
    lemma_read_on_adds(after, start, 2 + history.len(), further);
    if every_branch_has_thoughts(session.state.branches) {
        lemma_no_empty_branch(session.state.branches, session.state.branches.ids.len());
    }
}

/// In a directory that did not exist before, nothing is left of a longer branch.
pub proof fn law_new_directories_hold_nothing(branches: crate::branches::BranchView)
    ensures
        no_longer_branch(Map::empty(), branches),
{
}

/// A session that was read is restored, with its age, and its files may go; one
/// whose directory does not exist, or whose metadata cannot be read or
/// understood, is not restored, and nothing is deleted.
pub proof fn law_thought_files_go_only_after_a_restoration(
    sessions_dir: crate::path::PathView,
    session_id: Seq<char>,
    session: crate::types::SessionFileView,
    actor: u64,
    now: u128,
    wall_now: i128,
)
    requires
        session.created_at <= wall_now,
    ensures
        restored_session(session_id, session).step(
            ThoughtEvent::Spawned { actor, now, wall_now },
        ) == (crate::thought_restore::ThoughtRestoreView::Restored {
            handle: SessionHandle {
                actor,
                created_at: crate::clock::back(now, (wall_now - session.created_at) as u128),
                last_activity: now,
            },
            session_id,
        }),
        crate::thought_restore::thought_restore(sessions_dir, session_id).step(
            ThoughtEvent::Exists(false),
        ) == crate::thought_restore::ThoughtRestoreView::NotRestored,
        crate::thought_restore::thought_restore(sessions_dir, session_id).step(
            ThoughtEvent::Exists(true),
        ).step(ThoughtEvent::Metadata(None))
            == crate::thought_restore::ThoughtRestoreView::NotRestored,
{
}

/// A session that came about by its commands has thoughts in every branch.
pub proof fn law_branches_of_a_session_have_thoughts(state: crate::types::StateView)
    requires
        state.consistent(),
    ensures
        every_branch_has_thoughts(state.branches),
{
    assert forall|k: int| 0 <= k < state.branches.ids.len() implies state.branches.thoughts[
        #[trigger] state.branches.ids[k]].len() > 0 by {
        let id = state.branches.ids[k];
        assert(state.branches.ids.contains(id));
        assert(state.branches.thoughts.contains_key(id));
        assert(state.branches.of(id) == crate::types::branch_of(state.history, id));
    }
}

} // verus!
