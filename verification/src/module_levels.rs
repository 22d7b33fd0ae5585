use vstd::prelude::*;

use crate::level::LevelFilter;

verus! {

/// Whether some entry of `entries` is named `name`.
pub open spec fn names_entry(entries: Seq<(String, LevelFilter)>, name: Seq<char>) -> bool {
    exists|i: int| 0 <= i < entries.len() && #[trigger] entries[i].0@ == name
}

/// The map from module names to their filters that `entries` holds.
pub open spec fn entries_map(entries: Seq<(String, LevelFilter)>) -> Map<Seq<char>, LevelFilter> {
    Map::new(
        |name: Seq<char>| names_entry(entries, name),
        |name: Seq<char>|
            entries[choose|i: int| 0 <= i < entries.len() && #[trigger] entries[i].0@ == name].1,
    )
}

/// Level filters of single modules, keyed by module path.
///
/// No module name occurs twice among the entries.
pub struct ModuleLevels {
    entries: Vec<(String, LevelFilter)>,
}

impl View for ModuleLevels {
    type V = Map<Seq<char>, LevelFilter>;

    closed spec fn view(&self) -> Map<Seq<char>, LevelFilter> {
        entries_map(self.entries@)
    }
}

impl ModuleLevels {
    #[verifier::type_invariant]
    closed spec fn names_distinct(self) -> bool {
        forall|i: int, j: int|
            0 <= i < j < self.entries@.len() ==> #[trigger] self.entries@[i].0@
                != #[trigger] self.entries@[j].0@
    }

    /// No module has a filter of its own.
    pub fn new() -> (r: Self)
        ensures
            r@ == Map::<Seq<char>, LevelFilter>::empty(),
    {
        let r = ModuleLevels { entries: Vec::new() };
        assert(r@ =~= Map::<Seq<char>, LevelFilter>::empty());
        r
    }

    /// Index of the entry named `name`, if there is one.
    fn position(&self, name: &String) -> (r: Option<usize>)
        ensures
            match r {
                Some(i) => i < self.entries@.len() && self.entries@[i as int].0@ == name@,
                None => !names_entry(self.entries@, name@),
            },
    {
        let n = self.entries.len();
        let mut i: usize = 0;
        while i < n
            invariant
                n == self.entries@.len(),
                i <= n,
                forall|j: int| 0 <= j < i ==> #[trigger] self.entries@[j].0@ != name@,
            decreases n - i,
        {
            if self.entries[i].0 == *name {
                return Some(i);
            }
            i = i + 1;
        }
        None
    }

    /// Sets the filter of module `name`, replacing the one it had.
    pub fn insert(&mut self, name: String, level: LevelFilter)
        ensures
            final(self)@ == old(self)@.insert(name@, level),
    {
        proof {
            use_type_invariant(&*self);
        }
        let ghost old_entries = self.entries@;
        let found = self.position(&name);
        let mut entries: Vec<(String, LevelFilter)> = Vec::new();
        std::mem::swap(&mut entries, &mut self.entries);
        match found {
            Some(i) => {
                entries.set(i, (name, level));
                proof {
                    let k = entries@[i as int].0@;
                    assert forall|a: int, b: int|
                        0 <= a < b < entries@.len() implies #[trigger] entries@[a].0@
                        != #[trigger] entries@[b].0@ by {
                        assert(old_entries[a].0@ != old_entries[b].0@);
                    }
                    assert forall|key: Seq<char>|
                        #[trigger] entries_map(entries@).dom().contains(key)
                            <==> entries_map(old_entries).insert(k, level).dom().contains(key) by {
                        if names_entry(old_entries, key) {
                            let j = choose|j: int| 0 <= j < old_entries.len() && #[trigger] old_entries[j].0@ == key;
                            assert(entries@[j].0@ == key);
                        }
                        if names_entry(entries@, key) {
                            let j = choose|j: int| 0 <= j < entries@.len() && #[trigger] entries@[j].0@ == key;
                            assert(old_entries[j].0@ == key);
                        }
                    }
                    assert forall|key: Seq<char>|
                        #[trigger] entries_map(entries@).dom().contains(key) implies entries_map(entries@)[key]
                            == entries_map(old_entries).insert(k, level)[key] by {
                        let j = choose|j: int| 0 <= j < entries@.len() && #[trigger] entries@[j].0@ == key;
                        if key != k {
                            assert(old_entries[j].0@ == key);
                            let j2 = choose|j2: int| 0 <= j2 < old_entries.len() && #[trigger] old_entries[j2].0@ == key;
                            assert(j2 == j);
                        } else {
                            assert(j == i);
                        }
                    }
                    assert(entries_map(entries@) =~= entries_map(old_entries).insert(k, level));
                }
            },
            None => {
                entries.push((name, level));
                proof {
                    let k = entries@[old_entries.len() as int].0@;
                    assert forall|a: int, b: int|
                        0 <= a < b < entries@.len() implies #[trigger] entries@[a].0@
                        != #[trigger] entries@[b].0@ by {
                        if b < old_entries.len() {
                            assert(old_entries[a].0@ != old_entries[b].0@);
                        } else {
                            assert(entries@[a] == old_entries[a]);
                        }
                    }
                    assert forall|key: Seq<char>|
                        #[trigger] entries_map(entries@).dom().contains(key)
                            <==> entries_map(old_entries).insert(k, level).dom().contains(key) by {
                        if names_entry(old_entries, key) {
                            let j = choose|j: int| 0 <= j < old_entries.len() && #[trigger] old_entries[j].0@ == key;
                            assert(entries@[j].0@ == key);
                        }
                        if names_entry(entries@, key) {
                            let j = choose|j: int| 0 <= j < entries@.len() && #[trigger] entries@[j].0@ == key;
                            if j < old_entries.len() {
                                assert(old_entries[j].0@ == key);
                            }
                        }
                    }
                    assert forall|key: Seq<char>|
                        #[trigger] entries_map(entries@).dom().contains(key) implies entries_map(entries@)[key]
                            == entries_map(old_entries).insert(k, level)[key] by {
                        let j = choose|j: int| 0 <= j < entries@.len() && #[trigger] entries@[j].0@ == key;
                        if key != k {
                            assert(j < old_entries.len());
                            assert(old_entries[j].0@ == key);
                            let j2 = choose|j2: int| 0 <= j2 < old_entries.len() && #[trigger] old_entries[j2].0@ == key;
                            assert(j2 == j);
                        } else {
                            assert(j == old_entries.len());
                        }
                    }
                    assert(entries_map(entries@) =~= entries_map(old_entries).insert(k, level));
                }
            },
        }
        self.entries = entries;
    }

    /// The filter of module `name`, if it has one.
    pub fn get(&self, name: &str) -> (r: Option<LevelFilter>)
        ensures
            r == (if self@.contains_key(name@) {
                Some(self@[name@])
            } else {
                None
            }),
    {
        proof {
            use_type_invariant(self);
        }
        let key = name.to_owned();
        match self.position(&key) {
            Some(i) => {
                let level = self.entries[i].1;
                proof {
                    let j = choose|j: int| 0 <= j < self.entries@.len() && #[trigger] self.entries@[j].0@ == name@;
                    assert(j == i);
                }
                Some(level)
            },
            None => None,
        }
    }

    /// The most verbose of `start` and every module's filter: the lowest rank
    /// among them.
    pub fn most_verbose(&self, start: LevelFilter) -> (r: LevelFilter)
        ensures
            r.rank() <= start.rank(),
            forall|name: Seq<char>| #[trigger] self@.contains_key(name) ==> r.rank() <= self@[name].rank(),
            r == start || exists|name: Seq<char>| #[trigger] self@.contains_key(name) && self@[name] == r,
    {
        proof {
            use_type_invariant(self);
        }
        let n = self.entries.len();
        let mut best = start;
        let mut i: usize = 0;
        while i < n
            invariant
                n == self.entries@.len(),
                i <= n,
                best.rank() <= start.rank(),
                forall|j: int| 0 <= j < i ==> best.rank() <= (#[trigger] self.entries@[j]).1.rank(),
                best == start || exists|j: int| 0 <= j < i && (#[trigger] self.entries@[j]).1 == best,
            decreases n - i,
        {
            let candidate = self.entries[i].1;
            if candidate.rank_u8() < best.rank_u8() {
                best = candidate;
            }
            i = i + 1;
        }
        proof {
            assert forall|name: Seq<char>| #[trigger] self@.contains_key(name) implies best.rank() <= self@[name].rank() by {
                let j = choose|j: int| 0 <= j < self.entries@.len() && #[trigger] self.entries@[j].0@ == name;
                assert(best.rank() <= self.entries@[j].1.rank());
            }
            if best != start {
                let j = choose|j: int| 0 <= j < n && (#[trigger] self.entries@[j]).1 == best;
                let name = self.entries@[j].0@;
                assert(names_entry(self.entries@, name));
                let k = choose|k: int| 0 <= k < self.entries@.len() && #[trigger] self.entries@[k].0@ == name;
                assert(k == j);
                assert(self@.contains_key(name) && self@[name] == best);
            }
        }
        best
    }

    /// Whether no module has a filter of its own.
    pub fn is_empty(&self) -> (r: bool)
        ensures
            r == (self@ == Map::<Seq<char>, LevelFilter>::empty()),
    {
        let r = self.entries.len() == 0;
        proof {
            if r {
                assert(self@ =~= Map::<Seq<char>, LevelFilter>::empty());
            } else {
                assert(self@.contains_key(self.entries@[0].0@));
            }
        }
        r
    }
}

impl Clone for ModuleLevels {
    fn clone(&self) -> (r: Self)
        ensures
            r@ == self@,
    {
        proof {
            use_type_invariant(self);
        }
        let n = self.entries.len();
        let mut copied: Vec<(String, LevelFilter)> = Vec::new();
        for i in 0..n
            invariant
                n == self.entries@.len(),
                copied@ == self.entries@.take(i as int),
        {
            let name = self.entries[i].0.clone();
            copied.push((name, self.entries[i].1));
            assert(copied@ =~= self.entries@.take(i + 1));
        }
        assert(copied@ =~= self.entries@);
        ModuleLevels { entries: copied }
    }
}

} // verus!
