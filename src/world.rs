//! The set of levels of a game, by name, with the one being played.
use vstd::prelude::*;
use crate::level::Level;

verus! {

/// The level stored under `name`: the latest entry of that name.
pub open spec fn lookup(entries: Seq<(String, Level)>, name: Seq<char>) -> Option<Level>
    decreases entries.len(),
{
    if entries.len() == 0 {
        None
    } else if entries.last().0@ == name {
        Some(entries.last().1)
    } else {
        lookup(entries.drop_last(), name)
    }
}

/// Levels by name, and the name of the current one (empty until a level is added).
pub struct World {
    pub levels: Vec<(String, Level)>,
    pub current_level: String,
}

impl World {
    /// The level stored under `name`, if any.
    pub open spec fn level_named(&self, name: Seq<char>) -> Option<Level> {
        lookup(self.levels@, name)
    }

    /// Every stored level is well formed.
    pub open spec fn wf(&self) -> bool {
        forall|i: int| 0 <= i < self.levels@.len() ==> (#[trigger] self.levels@[i]).1.wf()
    }

    pub open spec fn current_name(&self) -> Seq<char> {
        self.current_level@
    }

    /// A world with no levels.
    pub fn new() -> (r: World)
        ensures
            forall|n: Seq<char>| #[trigger] r.level_named(n) is None,
            r.current_name() == Seq::<char>::empty(),
            r.wf(),
    {
        World { levels: Vec::new(), current_level: String::new() }
    }

    /// Index of the latest entry named `key`.
    fn position(&self, key: &String) -> (r: Option<usize>)
        ensures
            r is None ==> self.level_named(key@) is None,
            r is None ==> forall|j: int| 0 <= j < self.levels@.len() ==> (#[trigger] self.levels@[j]).0@ != key@,
            r matches Some(i) ==> {
                &&& i < self.levels@.len()
                &&& self.levels@[i as int].0@ == key@
                &&& self.level_named(key@) == Some(self.levels@[i as int].1)
                &&& forall|j: int| i < j < self.levels@.len() ==> (#[trigger] self.levels@[j]).0@ != key@
            },
    {
        let mut i = self.levels.len();
        assert(self.levels@.subrange(0, i as int) =~= self.levels@);
        while i > 0
            invariant
                i <= self.levels@.len(),
                lookup(self.levels@, key@) == lookup(self.levels@.subrange(0, i as int), key@),
                forall|j: int| i <= j < self.levels@.len() ==> (#[trigger] self.levels@[j]).0@ != key@,
            decreases i,
        {
            let ghost pre = self.levels@.subrange(0, i as int);
            assert(pre.drop_last() =~= self.levels@.subrange(0, i as int - 1));
            if self.levels[i - 1].0 == *key {
                return Some(i - 1);
            }
            i = i - 1;
        }
        assert(self.levels@.subrange(0, 0) =~= Seq::<(String, Level)>::empty());
        None
    }

    /// Stores `level` under `name`, replacing any level of that name; the
    /// first level added becomes the current one.
    pub fn add_level(&mut self, name: &str, level: Level)
        requires
            old(self).wf(),
            level.wf(),
        ensures
            final(self).wf(),
            final(self).level_named(name@) == Some(level),
            forall|n: Seq<char>| n != name@ ==> #[trigger] final(self).level_named(n) == old(self).level_named(n),
            final(self).current_name() == if old(self).current_name() == Seq::<char>::empty() {
                name@
            } else {
                old(self).current_name()
            },
    {
        let key = name.to_owned();
        match self.position(&key) {
            Some(i) => {
                let ghost before = self.levels@;
                let ghost k = key;
                self.levels.set(i, (key, level));
                proof {
                    lemma_lookup_replace(before, i as int, k, level);
                }
            },
            None => {
                let ghost before = self.levels@;
                self.levels.push((key, level));
                proof {
                    assert(self.levels@.drop_last() =~= before);
                }
            },
        }
        let none = String::new();
        if self.current_level == none {
            self.current_level = name.to_owned();
        }
    }

    /// Makes the level named `name` current; `false`, and no change, when no
    /// level has that name.
    pub fn switch_level(&mut self, name: &str) -> (r: bool)
        ensures
            r == old(self).level_named(name@) is Some,
            final(self).current_name() == if r { name@ } else { old(self).current_name() },
            forall|n: Seq<char>| #[trigger] final(self).level_named(n) == old(self).level_named(n),
            final(self).levels == old(self).levels,
    {
        let key = name.to_owned();
        match self.position(&key) {
            Some(_) => {
                self.current_level = key;
                true
            },
            None => false,
        }
    }

    /// The current level, if one is stored under the current name.
    pub fn current_level(&self) -> (r: Option<&Level>)
        ensures
            r matches Some(l) ==> self.level_named(self.current_name()) == Some(*l),
            r is None ==> self.level_named(self.current_name()) is None,
            r matches Some(l) ==> (self.wf() ==> l.wf()),
    {
        match self.position(&self.current_level) {
            Some(i) => Some(&self.levels[i].1),
            None => None,
        }
    }
}

proof fn lemma_lookup_replace(entries: Seq<(String, Level)>, i: int, k: String, level: Level)
    requires
        0 <= i < entries.len(),
        entries[i].0@ == k@,
        forall|j: int| i < j < entries.len() ==> (#[trigger] entries[j]).0@ != k@,
    ensures
        lookup(entries.update(i, (k, level)), k@) == Some(level),
        forall|n: Seq<char>| n != k@ ==> #[trigger] lookup(entries.update(i, (k, level)), n) == lookup(entries, n),
    decreases entries.len(),
{
    let upd = entries.update(i, (k, level));
    if i == entries.len() - 1 {
        assert(upd.drop_last() =~= entries.drop_last());
        assert forall|n: Seq<char>| n != k@ implies #[trigger] lookup(upd, n) == lookup(entries, n) by {
            assert(upd.last().0@ == k@);
            assert(entries.last().0@ == k@);
        }
    } else {
        assert(upd.drop_last() =~= entries.drop_last().update(i, (k, level)));
        assert(entries[entries.len() - 1].0@ != k@);
        assert(upd.last() == entries.last());
        lemma_lookup_replace(entries.drop_last(), i, k, level);
        assert forall|n: Seq<char>| n != k@ implies #[trigger] lookup(upd, n) == lookup(entries, n) by {
            if entries.last().0@ != n {
                assert(lookup(upd.drop_last(), n) == lookup(entries.drop_last(), n));
            }
        }
    }
}

} // verus!
