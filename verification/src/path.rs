//! Paths of the session store.
//!
//! A path is the list of its components. The root directory is the component
//! `/`, the current directory `.`, the parent directory `..`; every other
//! component is a plain name.

use vstd::prelude::*;

verus! {

/// A path as the sequence of its components.
pub type PathView = Seq<Seq<char>>;

/// The root directory.
pub open spec fn root_part() -> Seq<char> {
    seq!['/']
}

/// Whether a component is a plain name.
pub open spec fn is_name(part: Seq<char>) -> bool {
    part != root_part() && part != seq!['.'] && part != seq!['.', '.']
}

/// Whether a path lies within a base directory: it starts with the components
/// of the base.
pub open spec fn within(path: PathView, base: PathView) -> bool {
    base.is_prefix_of(path)
}

/// The path without its last component; the root and the empty path have none.
pub open spec fn parent_of(path: PathView) -> Option<PathView> {
    if path.len() == 0 || path.last() == root_part() {
        None
    } else {
        Some(path.drop_last())
    }
}

/// The last component of a path, when it is a plain name.
pub open spec fn file_name_of(path: PathView) -> Option<Seq<char>> {
    if path.len() > 0 && is_name(path.last()) {
        Some(path.last())
    } else {
        None
    }
}

/// A path, as the list of its components.
#[derive(Debug, PartialEq, Eq)]
pub struct SessionPath {
    pub parts: Vec<String>,
}

impl View for SessionPath {
    type V = PathView;

    open spec fn view(&self) -> PathView {
        self.parts@.map_values(|part: String| part@)
    }
}

impl Clone for SessionPath {
    fn clone(&self) -> (copy: Self)
        ensures
            copy@ == self@,
    {
        let mut parts: Vec<String> = Vec::new();
        let mut i: usize = 0;
        while i < self.parts.len()
            invariant
                i <= self.parts.len(),
                parts@.len() == i,
                forall|j: int| 0 <= j < i ==> (#[trigger] parts[j])@ == self.parts[j]@,
            decreases self.parts.len() - i,
        {
            parts.push(self.parts[i].clone());
            i = i + 1;
        }
        let copy = SessionPath { parts };
        assert(copy@ =~= self@);
        copy
    }
}

/// Whether a component has a given text.
fn part_is(part: &String, text: &str) -> (same: bool)
    ensures
        same == (part@ == text@),
{
    *part == text.to_string()
}

impl SessionPath {
    /// The path without components.
    pub fn new() -> (path: Self)
        ensures
            path@ == Seq::<Seq<char>>::empty(),
    {
        let path = SessionPath { parts: Vec::new() };
        assert(path@ =~= Seq::<Seq<char>>::empty());
        path
    }

    /// The path with a component added.
    pub fn join(&self, part: &str) -> (path: Self)
        ensures
            path@ == self@.push(part@),
    {
        let mut path = self.clone();
        path.parts.push(part.to_string());
        assert(path@ =~= self@.push(part@));
        path
    }

    /// The path without its last component.
    pub fn parent(&self) -> (parent: Option<SessionPath>)
        ensures
            match parent {
                Some(path) => parent_of(self@) == Some(path@),
                None => parent_of(self@) is None,
            },
    {
        proof {
            reveal_strlit("/");
            assert("/"@ =~= root_part());
        }
        let n: usize = self.parts.len();
        if n == 0 || part_is(&self.parts[n - 1], "/") {
            return None;
        }
        let mut path = self.clone();
        let ghost whole = path@;
        let _last = path.parts.pop();
        assert(path@ =~= whole.drop_last());
        Some(path)
    }

    /// The last component, when it is a plain name.
    pub fn file_name(&self) -> (name: Option<String>)
        ensures
            match name {
                Some(text) => file_name_of(self@) == Some(text@),
                None => file_name_of(self@) is None,
            },
    {
        proof {
            reveal_strlit("/");
            reveal_strlit(".");
            reveal_strlit("..");
            assert("/"@ =~= root_part());
            assert("."@ =~= seq!['.']);
            assert(".."@ =~= seq!['.', '.']);
        }
        let n: usize = self.parts.len();
        if n == 0 {
            return None;
        }
        let last = &self.parts[n - 1];
        if part_is(last, "/") || part_is(last, ".") || part_is(last, "..") {
            None
        } else {
            Some(last.clone())
        }
    }

    /// Whether the path starts with the components of `base`.
    pub fn starts_with(&self, base: &SessionPath) -> (inside: bool)
        ensures
            inside == within(self@, base@),
    {
        if self.parts.len() < base.parts.len() {
            return false;
        }
        let mut i: usize = 0;
        while i < base.parts.len()
            invariant
                i <= base.parts.len() <= self.parts.len(),
                forall|j: int| 0 <= j < i ==> #[trigger] self@[j] == base@[j],
            decreases base.parts.len() - i,
        {
            if self.parts[i] != base.parts[i] {
                assert(self@[i as int] != base@[i as int]);
                assert(self@.subrange(0, base@.len() as int)[i as int] == self@[i as int]);
                return false;
            }
            assert(self@[i as int] == base@[i as int]);
            i = i + 1;
        }
        assert(self@.subrange(0, base@.len() as int) =~= base@);
        true
    }
}

/// A directory lies within itself, and so does everything below it.
pub proof fn law_children_lie_within(path: PathView, base: PathView, part: Seq<char>)
    ensures
        within(base, base),
        within(path, base) ==> within(path.push(part), base),
{
    assert(base.subrange(0, base.len() as int) =~= base);
    if within(path, base) {
        assert(path.push(part).subrange(0, base.len() as int) =~= path.subrange(
            0,
            base.len() as int,
        ));
    }
}

/// A path lies within a directory exactly when it has all its components, in
/// their places.
pub proof fn law_paths_within_start_alike(path: PathView, base: PathView)
    ensures
        within(path, base) <==> base.len() <= path.len() && (forall|i: int|
            0 <= i < base.len() ==> #[trigger] path[i] == base[i]),
{
    if base.len() <= path.len() && (forall|i: int|
        0 <= i < base.len() ==> #[trigger] path[i] == base[i]) {
        assert(path.subrange(0, base.len() as int) =~= base);
    }
    if within(path, base) {
        assert forall|i: int| 0 <= i < base.len() implies #[trigger] path[i] == base[i] by {
            assert(path.subrange(0, base.len() as int)[i] == path[i]);
        }
    }
}

/// A path with a component added has the path as its parent, unless the component
/// is the root, and the component as its name, unless that is the root, the
/// current or the parent directory. The empty path has neither.
pub proof fn law_parents_and_names_make_the_path(path: PathView, part: Seq<char>)
    ensures
        part != seq!['/'] ==> parent_of(path.push(part)) == Some(path),
        part == seq!['/'] ==> parent_of(path.push(part)) is None,
        part != seq!['/'] && part != seq!['.'] && part != seq!['.', '.'] ==> file_name_of(
            path.push(part),
        ) == Some(part),
        part == seq!['/'] || part == seq!['.'] || part == seq!['.', '.'] ==> file_name_of(
            path.push(part),
        ) is None,
        parent_of(Seq::<Seq<char>>::empty()) is None,
        file_name_of(Seq::<Seq<char>>::empty()) is None,
{
    assert(path.push(part).drop_last() =~= path);
    assert(path.push(part).last() == part);
}

/// The view of a path shows all its components.
pub proof fn law_paths_show_their_components(path: SessionPath, i: int)
    requires
        0 <= i < path.parts.len(),
    ensures
        path@.len() == path.parts.len(),
        path@[i] == path.parts[i]@,
{
}

} // verus!
