//! Absolute paths as sequences of component names.

use vstd::prelude::*;
use vstd::string::StringExecFns;

verus! {

/// An absolute path, held as the names that lead from the filesystem root
/// to it, outermost first. The root itself has no names.
#[derive(Debug, PartialEq, Eq)]
pub struct JoshutoPath {
    pub components: Vec<String>,
}

impl View for JoshutoPath {
    type V = Seq<Seq<char>>;

    open spec fn view(&self) -> Seq<Seq<char>> {
        Seq::new(self.components@.len(), |i: int| self.components@[i]@)
    }
}

/// The directory that holds `path`: all of its names but the last. The root
/// has none.
pub open spec fn spec_parent(path: Seq<Seq<char>>) -> Option<Seq<Seq<char>>> {
    if path.len() == 0 {
        None
    } else {
        Some(path.drop_last())
    }
}

/// The path as it is written: a slash before each name, and a single
/// slash for the root.
pub open spec fn spec_display(path: Seq<Seq<char>>) -> Seq<char> {
    if path.len() == 0 {
        seq!['/']
    } else {
        spec_display_names(path)
    }
}

/// The names of `path` in a row, a slash before each.
pub open spec fn spec_display_names(path: Seq<Seq<char>>) -> Seq<char>
    decreases path.len(),
{
    if path.len() == 0 {
        Seq::empty()
    } else {
        spec_display_names(path.drop_last()) + seq!['/'] + path.last()
    }
}

/// Whether `dir` is `path` or lies above it.
pub open spec fn spec_is_ancestor_or_self(dir: Seq<Seq<char>>, path: Seq<Seq<char>>) -> bool {
    dir.is_prefix_of(path)
}

/// Whether `dir` lies above `path`.
pub open spec fn spec_is_ancestor(dir: Seq<Seq<char>>, path: Seq<Seq<char>>) -> bool {
    dir.is_prefix_of(path) && dir.len() < path.len()
}

impl Clone for JoshutoPath {
    fn clone(&self) -> (r: Self)
        ensures
            r@ == self@,
    {
        let r = self.ancestor(self.components.len());
        assert(self@.take(self.components.len() as int) =~= self@);
        r
    }
}

impl JoshutoPath {
    /// The filesystem root.
    pub fn root() -> (r: Self)
        ensures
            r@ == Seq::<Seq<char>>::empty(),
    {
        let r = JoshutoPath { components: Vec::new() };
        assert(r@ =~= Seq::<Seq<char>>::empty());
        r
    }

    /// The path with the given names.
    pub fn new(components: Vec<String>) -> (r: Self)
        ensures
            r.components == components,
    {
        JoshutoPath { components }
    }

    /// How many names lead from the root to the path.
    pub fn depth(&self) -> (r: usize)
        ensures
            r == self@.len(),
    {
        self.components.len()
    }

    /// Whether the path is the root.
    pub fn is_root(&self) -> (r: bool)
        ensures
            r == (self@.len() == 0),
    {
        self.components.len() == 0
    }

    /// The last name of the path; the root has none.
    pub fn file_name(&self) -> (r: Option<&String>)
        ensures
            self@.len() == 0 ==> r is None,
            self@.len() > 0 ==> r is Some && r->0@ == self@.last(),
    {
        let n = self.components.len();
        if n == 0 {
            None
        } else {
            Some(&self.components[n - 1])
        }
    }

    /// Whether both paths have the same names.
    pub fn same_as(&self, other: &JoshutoPath) -> (r: bool)
        ensures
            r == (self@ == other@),
    {
        if self.components.len() != other.components.len() {
            assert(self@.len() != other@.len());
            return false;
        }
        let n = self.components.len();
        let mut i: usize = 0;
        while i < n
            invariant
                i <= n,
                n == self.components.len(),
                n == other.components.len(),
                forall|k: int| 0 <= k < i ==> self@[k] == other@[k],
            decreases n - i,
        {
            if self.components[i] != other.components[i] {
                assert(self@[i as int] != other@[i as int]);
                return false;
            }
            i = i + 1;
        }
        assert(self@ =~= other@);
        true
    }

    /// Whether `base` is this path or lies above it.
    pub fn starts_with(&self, base: &JoshutoPath) -> (r: bool)
        ensures
            r == spec_is_ancestor_or_self(base@, self@),
    {
        let n = base.components.len();
        if n > self.components.len() {
            return false;
        }
        let mut i: usize = 0;
        while i < n
            invariant
                i <= n,
                n == base.components.len(),
                n <= self.components.len(),
                forall|k: int| 0 <= k < i ==> self@[k] == base@[k],
            decreases n - i,
        {
            if self.components[i] != base.components[i] {
                assert(self@[i as int] != base@[i as int]);
                return false;
            }
            i = i + 1;
        }
        assert(base@ =~= self@.subrange(0, n as int));
        true
    }

    /// The directory at `depth` names below the root on the way to this
    /// path.
    pub fn ancestor(&self, depth: usize) -> (r: Self)
        requires
            depth <= self@.len(),
        ensures
            r@ == self@.take(depth as int),
    {
        let mut components: Vec<String> = Vec::new();
        let mut i: usize = 0;
        while i < depth
            invariant
                i <= depth <= self.components.len(),
                components.len() == i,
                forall|k: int| 0 <= k < i ==> components@[k]@ == self.components@[k]@,
            decreases depth - i,
        {
            components.push(self.components[i].clone());
            i = i + 1;
        }
        let r = JoshutoPath { components };
        assert(r@ =~= self@.take(depth as int));
        r
    }

    /// The directory that holds the path; the root has none.
    pub fn parent(&self) -> (r: Option<Self>)
        ensures
            r is Some == spec_parent(self@) is Some,
            r is Some ==> r->0@ == spec_parent(self@)->0,
    {
        let n = self.components.len();
        if n == 0 {
            None
        } else {
            let p = self.ancestor(n - 1);
            assert(self@.take(n - 1) =~= self@.drop_last());
            Some(p)
        }
    }

    /// The path as it is written (see `spec_display`).
    pub fn display(&self) -> (r: String)
        ensures
            r@ == spec_display(self@),
    {
        proof {
            reveal_strlit("/");
        }
        assert("/"@ =~= seq!['/']);
        let n = self.components.len();
        if n == 0 {
            return "/".to_owned();
        }
        let mut text = String::new();
        let mut i: usize = 0;
        assert(self@.take(0) =~= Seq::<Seq<char>>::empty());
        while i < n
            invariant
                i <= n,
                n == self.components.len(),
                "/"@ == seq!['/'],
                text@ == spec_display_names(self@.take(i as int)),
            decreases n - i,
        {
            proof {
                assert(self@.take(i as int + 1).drop_last() =~= self@.take(i as int));
                assert(self@.take(i as int + 1).last() == self.components@[i as int]@);
            }
            text.append("/");
            text.append(self.components[i].as_str());
            i = i + 1;
        }
        assert(self@.take(n as int) =~= self@);
        text
    }

    /// The path of the child `name` of this directory.
    pub fn join(&self, name: &str) -> (r: Self)
        ensures
            r@ == self@.push(name@),
    {
        let mut p = self.clone();
        let ghost before = p@;
        p.components.push(name.to_owned());
        assert(p@ =~= before.push(name@));
        p
    }
}

} // verus!
