//! Catalogs: snapshots that map a component's name to its source text.
use vstd::prelude::*;

verus! {

/// One named unit of source text.
pub struct Component {
    pub name: String,
    pub content: String,
}

impl View for Component {
    type V = (Seq<char>, Seq<char>);

    open spec fn view(&self) -> (Seq<char>, Seq<char>) {
        (self.name@, self.content@)
    }
}

/// No two entries of `s` carry the same name.
pub open spec fn names_unique(s: Seq<(Seq<char>, Seq<char>)>) -> bool {
    forall|i: int, j: int| 0 <= i < s.len() && 0 <= j < s.len() && i != j ==> s[i].0 != s[j].0
}

/// Some entry of `s` is named `k`.
pub open spec fn has_name(s: Seq<(Seq<char>, Seq<char>)>, k: Seq<char>) -> bool {
    exists|i: int| 0 <= i < s.len() && s[i].0 == k
}

/// The map from name to content that a list of entries describes.
pub open spec fn entries_to_map(s: Seq<(Seq<char>, Seq<char>)>) -> Map<Seq<char>, Seq<char>> {
    Map::new(
        |k: Seq<char>| has_name(s, k),
        |k: Seq<char>| s[choose|i: int| 0 <= i < s.len() && s[i].0 == k].1,
    )
}

/// The names of a list of entries, in order.
pub open spec fn names_of(s: Seq<(Seq<char>, Seq<char>)>) -> Seq<Seq<char>> {
    s.map_values(|e: (Seq<char>, Seq<char>)| e.0)
}

proof fn lemma_entry_in_map(s: Seq<(Seq<char>, Seq<char>)>, i: int)
    requires
        names_unique(s),
        0 <= i < s.len(),
    ensures
        entries_to_map(s).contains_key(s[i].0),
        entries_to_map(s)[s[i].0] == s[i].1,
{
    let k = s[i].0;
    assert(has_name(s, k));
    let j = choose|j: int| 0 <= j < s.len() && s[j].0 == k;
    assert(j == i);
}

proof fn lemma_map_len(s: Seq<(Seq<char>, Seq<char>)>)
    requires
        names_unique(s),
    ensures
        entries_to_map(s).dom() == names_of(s).to_set(),
        entries_to_map(s).dom().finite(),
        entries_to_map(s).len() == s.len(),
{
    let ns = names_of(s);
    assert(ns.no_duplicates());
    ns.unique_seq_to_set();
    assert forall|k: Seq<char>| entries_to_map(s).dom().contains(k) <==> ns.to_set().contains(k) by {
        if has_name(s, k) {
            let i = choose|i: int| 0 <= i < s.len() && s[i].0 == k;
            assert(ns[i] == k);
        }
        if ns.to_set().contains(k) {
            let i = choose|i: int| 0 <= i < ns.len() && ns[i] == k;
            assert(s[i].0 == k);
        }
    }
    assert(entries_to_map(s).dom() =~= ns.to_set());
}

/// A catalog of components, one per name.
pub struct Catalog {
    entries: Vec<Component>,
}

impl Catalog {
    /// The entries as (name, content) pairs, in the order they were added.
    pub closed spec fn entries_view(&self) -> Seq<(Seq<char>, Seq<char>)> {
        self.entries@.map_values(|c: Component| c@)
    }

    /// Names are unique among the entries.
    pub open spec fn wf(&self) -> bool {
        names_unique(self.entries_view())
    }

    /// The empty catalog.
    pub fn new() -> (r: Catalog)
        ensures
            r.wf(),
            r@ == Map::<Seq<char>, Seq<char>>::empty(),
    {
        let r = Catalog { entries: Vec::new() };
        assert(r@ =~= Map::<Seq<char>, Seq<char>>::empty());
        r
    }

    /// Index of the entry named `name`, if any.
    fn find(&self, name: &String) -> (r: Option<usize>)
        requires
            self.wf(),
        ensures
            match r {
                Some(i) => i < self.entries@.len() && self.entries_view()[i as int].0 == name@,
                None => !self@.contains_key(name@),
            },
    {
        let mut i: usize = 0;
        while i < self.entries.len()
            invariant
                i <= self.entries@.len(),
                forall|j: int| 0 <= j < i ==> self.entries_view()[j].0 != name@,
            decreases self.entries@.len() - i,
        {
            if self.entries[i].name == *name {
                return Some(i);
            }
            i = i + 1;
        }
        assert(!has_name(self.entries_view(), name@));
        None
    }

    /// Number of components.
    pub fn len(&self) -> (r: usize)
        requires
            self.wf(),
        ensures
            r == self@.len(),
    {
        proof {
            lemma_map_len(self.entries_view());
        }
        self.entries.len()
    }

    /// Whether the catalog holds no component.
    pub fn is_empty(&self) -> (r: bool)
        requires
            self.wf(),
        ensures
            r == (self@ == Map::<Seq<char>, Seq<char>>::empty()),
    {
        if self.entries.len() == 0 {
            assert(self@ =~= Map::<Seq<char>, Seq<char>>::empty());
            true
        } else {
            proof {
                lemma_entry_in_map(self.entries_view(), 0);
                assert(!Map::<Seq<char>, Seq<char>>::empty().contains_key(self.entries_view()[0].0));
            }
            false
        }
    }

    /// The content of the component named `name`.
    pub fn get(&self, name: &str) -> (r: Option<&String>)
        requires
            self.wf(),
        ensures
            match r {
                Some(c) => self@.contains_key(name@) && self@[name@] == c@,
                None => !self@.contains_key(name@),
            },
    {
        let key = name.to_owned();
        match self.find(&key) {
            Some(i) => {
                proof {
                    lemma_entry_in_map(self.entries_view(), i as int);
                }
                Some(&self.entries[i].content)
            },
            None => None,
        }
    }

    /// Adds a component, replacing the one of the same name if there is one.
    pub fn insert(&mut self, name: String, content: String)
        requires
            old(self).wf(),
        ensures
            final(self).wf(),
            final(self)@ == old(self)@.insert(name@, content@),
    {
        let ghost before = self.entries_view();
        let ghost k = name@;
        let ghost v = content@;
        let ghost old_map = self@;
        match self.find(&name) {
            Some(i) => {
                self.entries.set(i, Component { name, content });
                proof {
                    let after = self.entries_view();
                    assert(after =~= before.update(i as int, (k, v)));
                    assert forall|a: int, b: int|
                        0 <= a < after.len() && 0 <= b < after.len() && a != b implies after[a].0
                        != after[b].0 by {
                        assert(before[i as int].0 == k);
                    }
                    let target = old_map.insert(k, v);
                    assert forall|x: Seq<char>|
                        (self@.contains_key(x) == #[trigger] target.contains_key(x)) && (
                        self@.contains_key(x) ==> self@[x] == target[x]) by {
                        if has_name(after, x) {
                            let j = choose|j: int| 0 <= j < after.len() && after[j].0 == x;
                            lemma_entry_in_map(after, j);
                            if j != i {
                                lemma_entry_in_map(before, j);
                            }
                        }
                        if has_name(before, x) && x != k {
                            let j = choose|j: int| 0 <= j < before.len() && before[j].0 == x;
                            lemma_entry_in_map(before, j);
                            assert(j != i);
                            lemma_entry_in_map(after, j);
                        }
                        if x == k {
                            lemma_entry_in_map(after, i as int);
                        }
                    }
                    assert(self@ =~= target);
                }
            },
            None => {
                self.entries.push(Component { name, content });
                proof {
                    let after = self.entries_view();
                    let n = before.len() as int;
                    assert(after =~= before.push((k, v)));
                    assert(!has_name(before, k));
                    assert forall|a: int, b: int|
                        0 <= a < after.len() && 0 <= b < after.len() && a != b implies after[a].0
                        != after[b].0 by {
                        if a == n {
                            assert(before[b].0 == after[b].0);
                        }
                        if b == n {
                            assert(before[a].0 == after[a].0);
                        }
                    }
                    let target = old_map.insert(k, v);
                    assert forall|x: Seq<char>|
                        (self@.contains_key(x) == #[trigger] target.contains_key(x)) && (
                        self@.contains_key(x) ==> self@[x] == target[x]) by {
                        if has_name(after, x) {
                            let j = choose|j: int| 0 <= j < after.len() && after[j].0 == x;
                            lemma_entry_in_map(after, j);
                            if j != n {
                                lemma_entry_in_map(before, j);
                            }
                        }
                        if has_name(before, x) {
                            let j = choose|j: int| 0 <= j < before.len() && before[j].0 == x;
                            lemma_entry_in_map(before, j);
                            lemma_entry_in_map(after, j);
                        }
                        if x == k {
                            lemma_entry_in_map(after, n);
                        }
                    }
                    assert(self@ =~= target);
                }
            },
        }
    }

    /// The names of the components, each once.
    pub fn names(&self) -> (r: Vec<String>)
        requires
            self.wf(),
        ensures
            r@.len() == self@.len(),
            forall|i: int| 0 <= i < r@.len() ==> self@.contains_key(#[trigger] r@[i]@),
            forall|k: Seq<char>|
                self@.contains_key(k) ==> exists|i: int| 0 <= i < r@.len() && r@[i]@ == k,
            forall|i: int, j: int| 0 <= i < r@.len() && 0 <= j < r@.len() && i != j ==> r@[i]@ != r@[j]@,
    {
        let ghost s = self.entries_view();
        let mut r: Vec<String> = Vec::new();
        let mut i: usize = 0;
        while i < self.entries.len()
            invariant
                s == self.entries_view(),
                names_unique(s),
                i <= s.len(),
                r@.len() == i,
                forall|j: int| 0 <= j < i ==> #[trigger] r@[j]@ == s[j].0,
            decreases s.len() - i,
        {
            r.push(self.entries[i].name.clone());
            i = i + 1;
        }
        proof {
            lemma_map_len(s);
            assert forall|j: int| 0 <= j < r@.len() implies self@.contains_key(#[trigger] r@[j]@) by {
                lemma_entry_in_map(s, j);
            }
            assert forall|k: Seq<char>| self@.contains_key(k) implies exists|j: int|
                0 <= j < r@.len() && r@[j]@ == k by {
                let j = choose|j: int| 0 <= j < s.len() && s[j].0 == k;
                assert(r@[j]@ == k);
            }
        }
        r
    }
}

impl View for Catalog {
    type V = Map<Seq<char>, Seq<char>>;

    open spec fn view(&self) -> Map<Seq<char>, Seq<char>> {
        entries_to_map(self.entries_view())
    }
}

} // verus!
