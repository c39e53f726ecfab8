//! The index of the search path: every file found, by name, in search order.
use vstd::prelude::*;
use crate::order::{sort_unique, sorted_unique, strictly_sorted};
use crate::text::{chars_eq, chars_of, lemma_chars_deep_view, strings_of};

verus! {

/// The files found on the search path, each with the name it was found under.
pub struct PathIndex {
    entries: Vec<(String, String)>,
}

/// The paths of the entries named `name`, in the order they were added.
pub open spec fn paths_with(entries: Seq<(Seq<char>, Seq<char>)>, name: Seq<char>) -> Seq<Seq<char>>
    decreases entries.len(),
{
    if entries.len() == 0 {
        Seq::empty()
    } else {
        let prev = paths_with(entries.drop_last(), name);
        if entries.last().0 == name {
            prev.push(entries.last().1)
        } else {
            prev
        }
    }
}

/// The names of the entries, in order of addition.
pub open spec fn names_of(entries: Seq<(Seq<char>, Seq<char>)>) -> Seq<Seq<char>> {
    entries.map_values(|e: (Seq<char>, Seq<char>)| e.0)
}

impl View for PathIndex {
    /// The (name, path) entries, in the order they were added.
    type V = Seq<(Seq<char>, Seq<char>)>;

    closed spec fn view(&self) -> Seq<(Seq<char>, Seq<char>)> {
        Seq::new(self.entries@.len(), |i: int| (self.entries@[i].0@, self.entries@[i].1@))
    }
}

impl PathIndex {
    /// An empty index.
    pub fn new() -> (r: PathIndex)
        ensures
            r@ == Seq::<(Seq<char>, Seq<char>)>::empty(),
    {
        let r = PathIndex { entries: Vec::new() };
        assert(r@ =~= Seq::<(Seq<char>, Seq<char>)>::empty());
        r
    }

    /// Records that the file at `path` was found under `name`.
    pub fn add(&mut self, name: String, path: String)
        ensures
            final(self)@ == old(self)@.push((name@, path@)),
    {
        let ghost before = self@;
        let ghost entry = (name@, path@);
        self.entries.push((name, path));
        assert(self@ =~= before.push(entry));
    }

    /// The number of files recorded.
    pub fn len(&self) -> (n: usize)
        ensures
            n == self@.len(),
    {
        self.entries.len()
    }

    /// The paths found under `name`, in search order.
    pub fn paths_named(&self, name: &str) -> (r: Vec<String>)
        ensures
            r.deep_view() == paths_with(self@, name@),
    {
        let ghost ev = self@;
        let target = chars_of(name);
        let mut r: Vec<String> = Vec::new();
        for i in 0..self.entries.len()
            invariant
                ev == self@,
                target@ == name@,
                r.deep_view() == paths_with(ev.take(i as int), name@),
        {
            assert(ev.take(i + 1).drop_last() == ev.take(i as int));
            assert(ev.take(i + 1).last() == ev[i as int]);
            let entry = &self.entries[i];
            if chars_eq(&chars_of(entry.0.as_str()), &target) {
                let ghost before = r.deep_view();
                r.push(entry.1.clone());
                assert(r.deep_view() =~= before.push(ev[i as int].1));
            }
        }
        assert(ev.take(self.entries.len() as int) == ev);
        r
    }

    /// The names recorded, sorted, each once.
    pub fn names(&self) -> (r: Vec<String>)
        ensures
            r.deep_view() == sorted_unique(names_of(self@)),
            strictly_sorted(r.deep_view()),
    {
        let mut all: Vec<Vec<char>> = Vec::new();
        for i in 0..self.entries.len()
            invariant
                all.len() == i,
                forall|k: int| 0 <= k < i ==> #[trigger] all@[k]@ == self@[k].0,
        {
            all.push(chars_of(self.entries[i].0.as_str()));
        }
        assert forall|k: int| 0 <= k < all.len() implies #[trigger] all.deep_view()[k]
            == names_of(self@)[k] by {
            lemma_chars_deep_view(all@[k]);
        }
        assert(all.deep_view() =~= names_of(self@));
        let sorted = sort_unique(&all);
        strings_of(&sorted)
    }
}

/// The names listed are exactly the names that have paths: a name appears in
/// the sorted list of names if and only if looking it up finds something.
pub proof fn lemma_names_are_found(entries: Seq<(Seq<char>, Seq<char>)>, name: Seq<char>)
    ensures
        sorted_unique(names_of(entries)).contains(name) <==> paths_with(entries, name).len() > 0,
    decreases entries.len(),
{
    crate::order::lemma_sorted_unique(names_of(entries));
    if entries.len() > 0 {
        let prev = entries.drop_last();
        lemma_names_are_found(prev, name);
        crate::order::lemma_sorted_unique(names_of(prev));
        assert(names_of(entries) =~= names_of(prev).push(entries.last().0));
        if names_of(prev).contains(name) {
            let k = choose|k: int| 0 <= k < names_of(prev).len() && names_of(prev)[k] == name;
            assert(names_of(entries)[k] == name);
        }
        if names_of(entries).contains(name) && entries.last().0 != name {
            let k = choose|k: int| 0 <= k < names_of(entries).len() && names_of(entries)[k] == name;
            assert(names_of(prev)[k] == name);
        }
        if entries.last().0 == name {
            assert(names_of(entries)[entries.len() - 1] == name);
        }
    }
}

/// Looking up after adding: the name added gains the path at the end of its
/// list, and every other name keeps its list.
pub proof fn lemma_lookup_after_add(
    entries: Seq<(Seq<char>, Seq<char>)>,
    name: Seq<char>,
    path: Seq<char>,
    other: Seq<char>,
)
    ensures
        paths_with(entries.push((name, path)), name) == paths_with(entries, name).push(path),
        other != name ==> paths_with(entries.push((name, path)), other) == paths_with(
            entries,
            other,
        ),
{
    assert(entries.push((name, path)).drop_last() == entries);
}

/// The strings of `items`, sorted, each once.
pub fn sorted_strings(items: &Vec<String>) -> (r: Vec<String>)
    ensures
        r.deep_view() == sorted_unique(items.deep_view()),
        strictly_sorted(r.deep_view()),
{
    let mut all: Vec<Vec<char>> = Vec::new();
    for i in 0..items.len()
        invariant
            all.len() == i,
            forall|k: int| 0 <= k < i ==> #[trigger] all@[k]@ == items@[k]@,
    {
        all.push(chars_of(items[i].as_str()));
    }
    assert forall|k: int| 0 <= k < all.len() implies #[trigger] all.deep_view()[k]
        == items.deep_view()[k] by {
        lemma_chars_deep_view(all@[k]);
    }
    assert(all.deep_view() =~= items.deep_view());
    let sorted = sort_unique(&all);
    strings_of(&sorted)
}

} // verus!
