//! Branched thoughts, organized by branch id.

use crate::types::{clone_thoughts, ThoughtData};
use vstd::prelude::*;

verus! {

/// The branches of a session: their ids in the order in which they were first
/// used, and the thoughts of each.
#[verifier::ext_equal]
pub struct BranchView {
    pub ids: Seq<Seq<char>>,
    pub thoughts: Map<Seq<char>, Seq<ThoughtData>>,
}

impl BranchView {
    /// No branches.
    pub open spec fn empty() -> BranchView {
        BranchView { ids: Seq::empty(), thoughts: Map::empty() }
    }

    /// Each branch is listed once, and exactly the listed branches have
    /// thoughts.
    pub open spec fn wf(self) -> bool {
        &&& self.ids.no_duplicates()
        &&& forall|id: Seq<char>| #[trigger]
            self.thoughts.contains_key(id) <==> self.ids.contains(id)
    }

    /// The thoughts of a branch, none when there is no such branch.
    pub open spec fn of(self, id: Seq<char>) -> Seq<ThoughtData> {
        if self.thoughts.contains_key(id) {
            self.thoughts[id]
        } else {
            Seq::empty()
        }
    }

    /// The branches with the thoughts of one branch set.
    pub open spec fn with_branch(self, id: Seq<char>, thoughts: Seq<ThoughtData>) -> BranchView {
        BranchView {
            ids: if self.ids.contains(id) {
                self.ids
            } else {
                self.ids.push(id)
            },
            thoughts: self.thoughts.insert(id, thoughts),
        }
    }

    /// The branches with a thought added to the end of one branch.
    pub open spec fn with_thought(self, id: Seq<char>, thought: ThoughtData) -> BranchView {
        self.with_branch(id, self.of(id).push(thought))
    }
}

/// Setting a branch keeps the branches well formed.
pub proof fn lemma_with_branch_wf(
    branches: BranchView,
    id: Seq<char>,
    thoughts: Seq<ThoughtData>,
)
    requires
        branches.wf(),
    ensures
        branches.with_branch(id, thoughts).wf(),
{
    let after = branches.with_branch(id, thoughts);
    if !branches.ids.contains(id) {
        assert(after.ids.last() == id);
        assert forall|other: Seq<char>| #[trigger]
            after.thoughts.contains_key(other) <==> after.ids.contains(other) by {
            if branches.ids.contains(other) {
                let i = choose|i: int| 0 <= i < branches.ids.len() && branches.ids[i] == other;
                assert(after.ids[i] == other);
            }
            if after.ids.contains(other) && other != id {
                let i = choose|i: int| 0 <= i < after.ids.len() && after.ids[i] == other;
                assert(branches.ids[i] == other);
            }
        }
    }
}

/// Branched thoughts, organized by branch id.
#[derive(Debug)]
pub struct BranchMap {
    entries: Vec<(String, Vec<ThoughtData>)>,
}

/// The ids of a list of branches.
spec fn entry_ids(entries: Seq<(String, Vec<ThoughtData>)>) -> Seq<Seq<char>> {
    Seq::new(entries.len(), |i: int| entries[i].0@)
}

/// The branches that a list of entries stands for.
spec fn entry_view(entries: Seq<(String, Vec<ThoughtData>)>) -> BranchView {
    BranchView {
        ids: entry_ids(entries),
        thoughts: Map::new(
            |id: Seq<char>| entry_ids(entries).contains(id),
            |id: Seq<char>| entries[entry_ids(entries).index_of(id)].1@,
        ),
    }
}

/// The thoughts under an id stand in the one entry that has it.
proof fn lemma_entry_at(entries: Seq<(String, Vec<ThoughtData>)>, i: int)
    requires
        entry_ids(entries).no_duplicates(),
        0 <= i < entries.len(),
    ensures
        entry_view(entries).thoughts.contains_key(entries[i].0@),
        entry_view(entries).thoughts[entries[i].0@] == entries[i].1@,
{
    let ids = entry_ids(entries);
    let id = entries[i].0@;
    assert(ids[i] == id);
    assert(ids.contains(id));
    let k = ids.index_of(id);
    assert(0 <= k < ids.len() && ids[k] == id);
    assert(k == i);
}

impl View for BranchMap {
    type V = BranchView;

    closed spec fn view(&self) -> BranchView {
        entry_view(self.entries@)
    }
}

impl BranchMap {
    /// Each branch has one entry.
    pub closed spec fn wf(&self) -> bool {
        entry_ids(self.entries@).no_duplicates()
    }

    /// A well-formed map has a well-formed view.
    pub proof fn lemma_wf(&self)
        requires
            self.wf(),
        ensures
            self@.wf(),
    {
    }

    /// No branches.
    pub fn new() -> (branches: Self)
        ensures
            branches.wf(),
            branches@ == BranchView::empty(),
    {
        let branches = BranchMap { entries: Vec::new() };
        proof {
            assert(entry_ids(branches.entries@) =~= Seq::<Seq<char>>::empty());
            assert(branches@.thoughts =~= Map::<Seq<char>, Seq<ThoughtData>>::empty());
        }
        branches
    }

    /// Where the entry of a branch stands.
    fn position(&self, id: &String) -> (at: Option<usize>)
        requires
            self.wf(),
        ensures
            match at {
                Some(i) => i < self.entries.len() && self.entries[i as int].0@ == id@,
                None => !self@.ids.contains(id@),
            },
    {
        let mut i: usize = 0;
        while i < self.entries.len()
            invariant
                i <= self.entries.len(),
                forall|j: int| 0 <= j < i ==> #[trigger] self.entries[j].0@ != id@,
            decreases self.entries.len() - i,
        {
            if self.entries[i].0 == *id {
                return Some(i);
            }
            i = i + 1;
        }
        None
    }

    /// How many branches there are.
    pub fn len(&self) -> (n: usize)
        ensures
            n == self@.ids.len(),
    {
        self.entries.len()
    }

    /// Whether there are no branches.
    pub fn is_empty(&self) -> (empty: bool)
        ensures
            empty == (self@.ids.len() == 0),
    {
        self.entries.len() == 0
    }

    /// The thoughts of a branch.
    pub fn get(&self, id: &str) -> (thoughts: Option<&Vec<ThoughtData>>)
        requires
            self.wf(),
        ensures
            match thoughts {
                Some(list) => self@.thoughts.contains_key(id@) && self@.thoughts[id@] == list@,
                None => !self@.thoughts.contains_key(id@),
            },
    {
        let key: String = id.to_string();
        match self.position(&key) {
            Some(i) => {
                proof {
                    lemma_entry_at(self.entries@, i as int);
                }
                Some(&self.entries[i].1)
            },
            None => None,
        }
    }

    /// The id and the thoughts of the branch at a place in the order.
    pub fn at(&self, index: usize) -> (branch: (&String, &Vec<ThoughtData>))
        requires
            self.wf(),
            index < self@.ids.len(),
        ensures
            branch.0@ == self@.ids[index as int],
            branch.1@ == self@.thoughts[branch.0@],
            self@.thoughts.contains_key(branch.0@),
    {
        proof {
            lemma_entry_at(self.entries@, index as int);
        }
        (&self.entries[index].0, &self.entries[index].1)
    }

    /// The ids of the branches, in the order in which they were first used.
    pub fn ids(&self) -> (ids: Vec<String>)
        ensures
            ids@.map_values(|id: String| id@) == self@.ids,
    {
        let mut ids: Vec<String> = Vec::new();
        let mut i: usize = 0;
        while i < self.entries.len()
            invariant
                i <= self.entries.len(),
                ids@.len() == i,
                forall|j: int| 0 <= j < i ==> (#[trigger] ids[j])@ == self.entries[j].0@,
            decreases self.entries.len() - i,
        {
            ids.push(self.entries[i].0.clone());
            i = i + 1;
        }
        proof {
            assert(ids@.map_values(|id: String| id@) =~= self@.ids);
        }
        ids
    }

    /// Sets the thoughts of a branch.
    pub fn insert(&mut self, id: String, thoughts: Vec<ThoughtData>)
        requires
            old(self).wf(),
        ensures
            final(self).wf(),
            final(self)@ == old(self)@.with_branch(id@, thoughts@),
    {
        let ghost before = self.entries@;
        let ghost key = id@;
        let ghost list = thoughts@;
        match self.position(&id) {
            Some(i) => {
                self.entries.set(i, (id, thoughts));
                proof {
                    let ids = entry_ids(before);
                    assert(entry_ids(self.entries@) =~= ids);
                    assert(ids[i as int] == key);
                    assert(ids.contains(key));
                    assert forall|k: Seq<char>| ids.contains(k) implies entry_view(
                        self.entries@,
                    ).thoughts[k] == entry_view(before).with_branch(key, list).thoughts[k] by {
                        let n = ids.index_of(k);
                        lemma_entry_at(before, n);
                        lemma_entry_at(self.entries@, n);
                    }
                    assert(self@ =~= entry_view(before).with_branch(key, list));
                }
            },
            None => {
                self.entries.push((id, thoughts));
                proof {
                    lemma_pushed(before, self.entries@, key, list);
                }
            },
        }
    }

    /// Adds a thought to the end of a branch, which is started by its first
    /// thought.
    pub fn add_thought(&mut self, id: String, thought: ThoughtData)
        requires
            old(self).wf(),
        ensures
            final(self).wf(),
            final(self)@ == old(self)@.with_thought(id@, thought),
    {
        let ghost before = self.entries@;
        let ghost key = id@;
        match self.position(&id) {
            Some(i) => {
                self.entries[i].1.push(thought);
                proof {
                    let ids = entry_ids(before);
                    assert(entry_ids(self.entries@) =~= ids);
                    assert(ids[i as int] == key);
                    assert(ids.contains(key));
                    lemma_entry_at(before, i as int);
                    assert forall|k: Seq<char>| ids.contains(k) implies entry_view(
                        self.entries@,
                    ).thoughts[k] == entry_view(before).with_thought(key, thought).thoughts[k] by {
                        let n = ids.index_of(k);
                        lemma_entry_at(before, n);
                        lemma_entry_at(self.entries@, n);
                    }
                    assert(self@ =~= entry_view(before).with_thought(key, thought));
                }
            },
            None => {
                let mut thoughts: Vec<ThoughtData> = Vec::new();
                thoughts.push(thought);
                let ghost list = thoughts@;
                self.entries.push((id, thoughts));
                proof {
                    lemma_pushed(before, self.entries@, key, list);
                    assert(list =~= Seq::<ThoughtData>::empty().push(thought));
                }
            },
        }
    }

    /// Removes every branch.
    pub fn clear(&mut self)
        ensures
            final(self).wf(),
            final(self)@ == BranchView::empty(),
    {
        self.entries.clear();
        proof {
            assert(entry_ids(self.entries@) =~= Seq::<Seq<char>>::empty());
            assert(self@.thoughts =~= Map::<Seq<char>, Seq<ThoughtData>>::empty());
        }
    }
}

/// An entry under a new id at the end is a new branch.
proof fn lemma_pushed(
    before: Seq<(String, Vec<ThoughtData>)>,
    after: Seq<(String, Vec<ThoughtData>)>,
    key: Seq<char>,
    list: Seq<ThoughtData>,
)
    requires
        entry_ids(before).no_duplicates(),
        !entry_ids(before).contains(key),
        after.len() == before.len() + 1,
        forall|i: int| 0 <= i < before.len() ==> after[i] == before[i],
        after.last().0@ == key,
        after.last().1@ == list,
    ensures
        entry_ids(after).no_duplicates(),
        entry_view(after) == entry_view(before).with_branch(key, list),
{
    let ids = entry_ids(before);
    assert(entry_ids(after) =~= ids.push(key));
    assert forall|i: int, j: int| 0 <= i < j < after.len() implies entry_ids(after)[i]
        != entry_ids(after)[j] by {
        if j == before.len() {
            assert(ids[i] == entry_ids(after)[i]);
        }
    }
    assert(entry_ids(after).last() == key);
    assert forall|k: Seq<char>|
        entry_ids(after).contains(k) <==> #[trigger] entry_view(before).with_branch(
            key,
            list,
        ).thoughts.contains_key(k) by {
        if ids.contains(k) {
            let n = ids.index_of(k);
            assert(entry_ids(after)[n] == k);
        }
        if entry_ids(after).contains(k) && k != key {
            let n = entry_ids(after).index_of(k);
            assert(ids[n] == k);
        }
    }
    assert forall|k: Seq<char>| entry_ids(after).contains(k) implies entry_view(after).thoughts[k]
        == entry_view(before).with_branch(key, list).thoughts[k] by {
        let n = entry_ids(after).index_of(k);
        lemma_entry_at(after, n);
        if n < before.len() {
            lemma_entry_at(before, n);
            assert(ids[n] == k);
        }
    }
    assert(entry_view(after) =~= entry_view(before).with_branch(key, list));
}

impl Clone for BranchMap {
    fn clone(&self) -> (copy: Self)
        ensures
            copy@ == self@,
            copy.wf() == self.wf(),
    {
        let mut entries: Vec<(String, Vec<ThoughtData>)> = Vec::new();
        let mut i: usize = 0;
        while i < self.entries.len()
            invariant
                i <= self.entries.len(),
                entries@.len() == i,
                forall|j: int|
                    0 <= j < i ==> (#[trigger] entries[j]).0@ == self.entries[j].0@ && entries[j].1@
                        == self.entries[j].1@,
            decreases self.entries.len() - i,
        {
            entries.push((self.entries[i].0.clone(), clone_thoughts(&self.entries[i].1)));
            i = i + 1;
        }
        proof {
            let ids = entry_ids(self.entries@);
            assert(entry_ids(entries@) =~= ids);
            assert forall|k: Seq<char>| ids.contains(k) implies entry_view(entries@).thoughts[k]
                == self@.thoughts[k] by {
                let n = ids.index_of(k);
                assert(0 <= n < ids.len());
            }
            assert(entry_view(entries@) =~= self@);
        }
        BranchMap { entries }
    }
}

impl Default for BranchMap {
    fn default() -> (branches: Self)
        ensures
            branches.wf(),
            branches@ == BranchView::empty(),
    {
        BranchMap::new()
    }
}

/// Setting the thoughts of a branch sets them, lists the branch once, at the end
/// when it is new, and leaves every other branch as it was.
pub proof fn law_branches_are_set_one_at_a_time(
    branches: BranchView,
    id: Seq<char>,
    thoughts: Seq<ThoughtData>,
    other: Seq<char>,
)
    requires
        other != id,
    ensures
        ({
            let after = branches.with_branch(id, thoughts);
            &&& after.thoughts.contains_key(id)
            &&& after.thoughts[id] == thoughts
            &&& after.thoughts.contains_key(other) == branches.thoughts.contains_key(other)
            &&& branches.thoughts.contains_key(other) ==> after.thoughts[other]
                == branches.thoughts[other]
            &&& branches.ids.contains(id) ==> after.ids == branches.ids
            &&& !branches.ids.contains(id) ==> after.ids == branches.ids + seq![id]
        }),
{
    assert(branches.ids.push(id) =~= branches.ids + seq![id]);
}

/// Without branches no branch is listed, and none has thoughts.
pub proof fn law_no_branches_at_first(id: Seq<char>)
    ensures
        BranchView::empty().ids.len() == 0,
        !BranchView::empty().thoughts.contains_key(id),
        BranchView::empty().of(id).len() == 0,
{
}

} // verus!
