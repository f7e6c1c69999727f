//! A small map keyed by path.

use crate::path::JoshutoPath;
use vstd::prelude::*;

verus! {

/// A map from paths to values, held as a list of pairs in which no path
/// occurs twice. Its view is the map itself.
pub struct PathMap<T> {
    entries: Vec<(JoshutoPath, T)>,
}

/// Whether `i` is a place of `path` among `entries`.
pub open spec fn spec_holds_at<T>(entries: Seq<(JoshutoPath, T)>, path: Seq<Seq<char>>, i: int) -> bool {
    0 <= i < entries.len() && entries[i].0@ == path
}

/// Whether no path occurs twice among `entries`.
pub open spec fn spec_distinct<T>(entries: Seq<(JoshutoPath, T)>) -> bool {
    forall|i: int, j: int|
        0 <= i < entries.len() && 0 <= j < entries.len() && i != j ==> #[trigger] entries[i].0@
            != #[trigger] entries[j].0@
}

/// The map that a list of pairs with distinct paths stands for.
pub open spec fn spec_as_map<T>(entries: Seq<(JoshutoPath, T)>) -> Map<Seq<Seq<char>>, T> {
    Map::new(
        |p: Seq<Seq<char>>| exists|i: int| spec_holds_at(entries, p, i),
        |p: Seq<Seq<char>>| entries[choose|i: int| spec_holds_at(entries, p, i)].1,
    )
}

/// In a list with distinct paths, the pair at `i` is what the map holds
/// for its path.
pub proof fn lemma_as_map_at<T>(entries: Seq<(JoshutoPath, T)>, i: int)
    requires
        spec_distinct(entries),
        0 <= i < entries.len(),
    ensures
        spec_as_map(entries).contains_key(entries[i].0@),
        spec_as_map(entries)[entries[i].0@] == entries[i].1,
{
    let p = entries[i].0@;
    assert(spec_holds_at(entries, p, i));
    let c = choose|k: int| spec_holds_at(entries, p, k);
    assert(spec_holds_at(entries, p, c));
    assert(c == i);
}

/// Adding a pair with a new path adds it to the map.
pub proof fn lemma_as_map_push<T>(entries: Seq<(JoshutoPath, T)>, path: JoshutoPath, value: T)
    requires
        spec_distinct(entries),
        !spec_as_map(entries).contains_key(path@),
    ensures
        spec_distinct(entries.push((path, value))),
        spec_as_map(entries.push((path, value))) == spec_as_map(entries).insert(path@, value),
{
    let after = entries.push((path, value));
    assert forall|i: int, j: int|
        0 <= i < after.len() && 0 <= j < after.len() && i != j implies #[trigger] after[i].0@
        != #[trigger] after[j].0@ by {
        if i < entries.len() && j < entries.len() {
            assert(entries[i].0@ != entries[j].0@);
        } else if i < entries.len() {
            assert(spec_holds_at(entries, entries[i].0@, i));
        } else {
            assert(spec_holds_at(entries, entries[j].0@, j));
        }
    }
    let want = spec_as_map(entries).insert(path@, value);
    let got = spec_as_map(after);
    assert forall|p: Seq<Seq<char>>| got.contains_key(p) <==> want.contains_key(p) by {
        if got.contains_key(p) {
            let i = choose|i: int| spec_holds_at(after, p, i);
            if i < entries.len() {
                assert(spec_holds_at(entries, p, i));
            }
        }
        if want.contains_key(p) {
            if p == path@ {
                assert(spec_holds_at(after, p, entries.len() as int));
            } else {
                let i = choose|i: int| spec_holds_at(entries, p, i);
                assert(spec_holds_at(after, p, i));
            }
        }
    }
    assert forall|p: Seq<Seq<char>>| got.contains_key(p) implies got[p] == want[p] by {
        let i = choose|i: int| spec_holds_at(after, p, i);
        lemma_as_map_at(after, i);
        if i < entries.len() {
            lemma_as_map_at(entries, i);
        }
    }
    assert(got =~= want);
}

/// Taking the pair at `i` away removes its path from the map.
pub proof fn lemma_as_map_remove<T>(entries: Seq<(JoshutoPath, T)>, i: int)
    requires
        spec_distinct(entries),
        0 <= i < entries.len(),
    ensures
        spec_distinct(entries.remove(i)),
        spec_as_map(entries.remove(i)) == spec_as_map(entries).remove(entries[i].0@),
{
    let after = entries.remove(i);
    let gone = entries[i].0@;
    assert forall|a: int, b: int|
        0 <= a < after.len() && 0 <= b < after.len() && a != b implies #[trigger] after[a].0@
        != #[trigger] after[b].0@ by {
        let a0 = if a < i { a } else { a + 1 };
        let b0 = if b < i { b } else { b + 1 };
        assert(entries[a0].0@ != entries[b0].0@);
    }
    let want = spec_as_map(entries).remove(gone);
    let got = spec_as_map(after);
    assert forall|p: Seq<Seq<char>>| got.contains_key(p) <==> want.contains_key(p) by {
        if got.contains_key(p) {
            let a = choose|a: int| spec_holds_at(after, p, a);
            let a0 = if a < i { a } else { a + 1 };
            assert(spec_holds_at(entries, p, a0));
            assert(entries[a0].0@ != entries[i].0@);
        }
        if want.contains_key(p) {
            let a0 = choose|a0: int| spec_holds_at(entries, p, a0);
            assert(a0 != i);
            let a = if a0 < i { a0 } else { a0 - 1 };
            assert(spec_holds_at(after, p, a));
        }
    }
    assert forall|p: Seq<Seq<char>>| got.contains_key(p) implies got[p] == want[p] by {
        let a = choose|a: int| spec_holds_at(after, p, a);
        let a0 = if a < i { a } else { a + 1 };
        lemma_as_map_at(after, a);
        lemma_as_map_at(entries, a0);
    }
    assert(got =~= want);
}

impl<T> View for PathMap<T> {
    type V = Map<Seq<Seq<char>>, T>;

    closed spec fn view(&self) -> Map<Seq<Seq<char>>, T> {
        spec_as_map(self.entries@)
    }
}

impl<T> PathMap<T> {
    /// No path occurs twice in the list behind the map.
    pub closed spec fn wf(&self) -> bool {
        spec_distinct(self.entries@)
    }

    /// The empty map.
    pub fn new() -> (r: Self)
        ensures
            r.wf(),
            r@ == Map::<Seq<Seq<char>>, T>::empty(),
    {
        let r = PathMap { entries: Vec::new() };
        assert(r@ =~= Map::<Seq<Seq<char>>, T>::empty());
        r
    }

    /// The place of `path` in the list, if it has one.
    fn position(&self, path: &JoshutoPath) -> (r: Option<usize>)
        requires
            self.wf(),
        ensures
            r is Some == self@.contains_key(path@),
            r is Some ==> spec_holds_at(self.entries@, path@, r->0 as int),
            r is Some ==> self@[path@] == self.entries@[r->0 as int].1,
    {
        let n = self.entries.len();
        let mut i: usize = 0;
        while i < n
            invariant
                i <= n,
                n == self.entries.len(),
                self.wf(),
                forall|k: int| 0 <= k < i ==> !spec_holds_at(self.entries@, path@, k),
            decreases n - i,
        {
            if self.entries[i].0.same_as(path) {
                proof {
                    lemma_as_map_at(self.entries@, i as int);
                }
                return Some(i);
            }
            i = i + 1;
        }
        None
    }

    /// Whether the map holds a value for `path`.
    pub fn contains(&self, path: &JoshutoPath) -> (r: bool)
        requires
            self.wf(),
        ensures
            r == self@.contains_key(path@),
    {
        self.position(path).is_some()
    }

    /// The value held for `path`.
    pub fn get(&self, path: &JoshutoPath) -> (r: Option<&T>)
        requires
            self.wf(),
        ensures
            r is Some == self@.contains_key(path@),
            r is Some ==> *r->0 == self@[path@],
    {
        match self.position(path) {
            Some(i) => Some(&self.entries[i].1),
            None => None,
        }
    }

    /// Holds `value` for `path` from now on, and hands out what was held
    /// for it before.
    pub fn insert(&mut self, path: JoshutoPath, value: T) -> (r: Option<T>)
        requires
            old(self).wf(),
        ensures
            final(self).wf(),
            final(self)@ == old(self)@.insert(path@, value),
            r is Some == old(self)@.contains_key(path@),
            r is Some ==> r->0 == old(self)@[path@],
    {
        let before = match self.position(&path) {
            Some(i) => {
                proof {
                    lemma_as_map_remove(self.entries@, i as int);
                }
                let pair = self.entries.remove(i);
                Some(pair.1)
            },
            None => None,
        };
        proof {
            lemma_as_map_push(self.entries@, path, value);
            assert(old(self)@.remove(path@).insert(path@, value) =~= old(self)@.insert(
                path@,
                value,
            ));
        }
        self.entries.push((path, value));
        before
    }

    /// Takes the value held for `path` out of the map.
    pub fn remove(&mut self, path: &JoshutoPath) -> (r: Option<T>)
        requires
            old(self).wf(),
        ensures
            final(self).wf(),
            final(self)@ == old(self)@.remove(path@),
            r is Some == old(self)@.contains_key(path@),
            r is Some ==> r->0 == old(self)@[path@],
    {
        match self.position(path) {
            Some(i) => {
                proof {
                    lemma_as_map_remove(self.entries@, i as int);
                }
                let pair = self.entries.remove(i);
                Some(pair.1)
            },
            None => {
                assert(old(self)@.remove(path@) =~= old(self)@);
                None
            },
        }
    }
}

} // verus!
