//! The table of active connections, one entry per source name.
//!
//! The entry's value is whatever the owner keeps per connection (the frame
//! buffer, the worker's stop signal); the table decides which names still
//! need a connection and keeps each name at most once.
use vstd::prelude::*;

verus! {

/// Connections keyed by source name, each name at most once.
pub struct ConnectionTable<V> {
    entries: Vec<(String, V)>,
}

/// The names in `names` that are neither in `keys` nor earlier in `names`,
/// in the order they come.
pub open spec fn missing_names(keys: Seq<Seq<char>>, names: Seq<Seq<char>>) -> Seq<Seq<char>>
    decreases names.len(),
{
    if names.len() == 0 {
        Seq::empty()
    } else {
        let prev = missing_names(keys, names.drop_last());
        let n = names.last();
        if keys.contains(n) || prev.contains(n) {
            prev
        } else {
            prev.push(n)
        }
    }
}

pub open spec fn views(names: Seq<String>) -> Seq<Seq<char>> {
    names.map_values(|s: String| s@)
}

impl<V> ConnectionTable<V> {
    /// The names in the table, in the order they were added.
    pub closed spec fn keys(&self) -> Seq<Seq<char>> {
        self.entries@.map_values(|e: (String, V)| e.0@)
    }

    /// The value kept under each name.
    pub closed spec fn values(&self) -> Seq<V> {
        self.entries@.map_values(|e: (String, V)| e.1)
    }

    pub open spec fn wf(&self) -> bool {
        &&& self.keys().no_duplicates()
        &&& self.keys().len() == self.values().len()
    }

    pub fn new() -> (r: ConnectionTable<V>)
        ensures
            r.wf(),
            r.keys() == Seq::<Seq<char>>::empty(),
    {
        let r = ConnectionTable { entries: Vec::new() };
        assert(r.keys() =~= Seq::<Seq<char>>::empty());
        r
    }

    pub fn len(&self) -> (r: usize)
        ensures
            r == self.keys().len(),
    {
        self.entries.len()
    }

    /// Position of `name` in the table.
    fn find(&self, name: &String) -> (r: Option<usize>)
        ensures
            match r {
                Some(i) => i < self.keys().len() && self.keys()[i as int] == name@,
                None => !self.keys().contains(name@),
            },
    {
        let mut i: usize = 0;
        while i < self.entries.len()
            invariant
                i <= self.entries@.len(),
                forall|j: int| 0 <= j < i ==> self.keys()[j] != name@,
            decreases self.entries@.len() - i,
        {
            if self.entries[i].0 == *name {
                return Some(i);
            }
            i = i + 1;
        }
        None
    }

    pub fn contains(&self, name: &String) -> (r: bool)
        ensures
            r == self.keys().contains(name@),
    {
        self.find(name).is_some()
    }

    /// The names among `names` that have no connection yet, each once, in
    /// the order requested.
    pub fn missing(&self, names: &Vec<String>) -> (r: Vec<String>)
        ensures
            views(r@) == missing_names(self.keys(), views(names@)),
    {
        let mut out: Vec<String> = Vec::new();
        let mut i: usize = 0;
        while i < names.len()
            invariant
                i <= names@.len(),
                views(out@) == missing_names(self.keys(), views(names@.subrange(0, i as int))),
            decreases names@.len() - i,
        {
            let ghost prefix = views(names@.subrange(0, i as int));
            assert(views(names@.subrange(0, i + 1)).drop_last() =~= prefix);
            assert(views(names@.subrange(0, i + 1)).last() == names@[i as int]@);
            let name = &names[i];
            let known = self.contains(name);
            let mut seen = false;
            let mut j: usize = 0;
            while j < out.len()
                invariant
                    j <= out@.len(),
                    seen <==> exists|k: int| 0 <= k < j && #[trigger] views(out@)[k] == name@,
                decreases out@.len() - j,
            {
                assert(views(out@)[j as int] == out@[j as int]@);
                if out[j] == *name {
                    seen = true;
                }
                j = j + 1;
            }
            if !known && !seen {
                let ghost before = out@;
                out.push(names[i].clone());
                assert(views(out@) =~= views(before).push(name@));
            }
            i = i + 1;
        }
        assert(names@.subrange(0, names@.len() as int) =~= names@);
        out
    }

    /// Adds a connection under `name` unless the name already has one; an
    /// entry is never replaced.
    pub fn insert(&mut self, name: String, value: V) -> (r: bool)
        requires
            old(self).wf(),
        ensures
            final(self).wf(),
            r == !old(self).keys().contains(name@),
            r ==> final(self).keys() == old(self).keys().push(name@) && final(self).values()
                == old(self).values().push(value),
            !r ==> final(self).keys() == old(self).keys() && final(self).values() == old(self).values(),
    {
        if self.contains(&name) {
            return false;
        }
        let ghost old_keys = self.keys();
        let ghost old_values = self.values();
        let ghost key = name@;
        self.entries.push((name, value));
        assert(self.keys() =~= old_keys.push(key));
        assert(self.values() =~= old_values.push(value));
        assert(self.keys().no_duplicates()) by {
            assert forall|a: int, b: int|
                0 <= a < self.keys().len() && 0 <= b < self.keys().len() && a != b implies
                self.keys()[a] != self.keys()[b] by {
                if a == old_keys.len() as int {
                    assert(old_keys[b] == self.keys()[b]);
                } else if b == old_keys.len() as int {
                    assert(old_keys[a] == self.keys()[a]);
                }
            }
        }
        true
    }

    /// The value kept under `name`.
    pub fn get(&self, name: &String) -> (r: Option<&V>)
        requires
            self.wf(),
        ensures
            match r {
                Some(v) => exists|i: int|
                    0 <= i < self.keys().len() && self.keys()[i] == name@ && self.values()[i]
                        == *v,
                None => !self.keys().contains(name@),
            },
    {
        match self.find(name) {
            Some(i) => {
                assert(self.values()[i as int] == self.entries@[i as int].1);
                Some(&self.entries[i].1)
            },
            None => None,
        }
    }

    /// Drops the connection under `name` and hands back what was kept for it.
    pub fn remove(&mut self, name: &String) -> (r: Option<V>)
        requires
            old(self).wf(),
        ensures
            final(self).wf(),
            !final(self).keys().contains(name@),
            match r {
                Some(v) => exists|i: int|
                    0 <= i < old(self).keys().len() && old(self).keys()[i] == name@ && old(self).values()[i] == v && final(self).keys() == old(self).keys().remove(i) && final(self).values() == old(self).values().remove(i),
                None => !old(self).keys().contains(name@) && final(self).keys() == old(self).keys() && final(self).values() == old(self).values(),
            },
    {
        match self.find(name) {
            Some(i) => {
                let ghost old_keys = self.keys();
                let ghost old_values = self.values();
                let entry = self.entries.remove(i);
                assert(self.keys() =~= old_keys.remove(i as int));
                assert(self.values() =~= old_values.remove(i as int));
                assert(self.keys().no_duplicates()) by {
                    assert forall|a: int, b: int|
                        0 <= a < self.keys().len() && 0 <= b < self.keys().len() && a != b implies
                        self.keys()[a] != self.keys()[b] by {
                        let oa = if a < i {
                            a
                        } else {
                            a + 1
                        };
                        let ob = if b < i {
                            b
                        } else {
                            b + 1
                        };
                        assert(self.keys()[a] == old_keys[oa]);
                        assert(self.keys()[b] == old_keys[ob]);
                    }
                }
                assert(!self.keys().contains(name@)) by {
                    if self.keys().contains(name@) {
                        let a = choose|a: int| 0 <= a < self.keys().len() && self.keys()[a] == name@;
                        let oa = if a < i {
                            a
                        } else {
                            a + 1
                        };
                        assert(old_keys[oa] == name@);
                    }
                }
                Some(entry.1)
            },
            None => None,
        }
    }

    /// Drops every connection.
    pub fn clear(&mut self)
        ensures
            final(self).wf(),
            final(self).keys() == Seq::<Seq<char>>::empty(),
    {
        self.entries.clear();
        assert(self.keys() =~= Seq::<Seq<char>>::empty());
        assert(self.values() =~= Seq::<V>::empty());
    }
}

proof fn lemma_missing_names_facts(keys: Seq<Seq<char>>, names: Seq<Seq<char>>)
    ensures
        missing_names(keys, names).no_duplicates(),
        forall|m: Seq<char>| #[trigger] missing_names(keys, names).contains(m) ==> !keys.contains(m),
        forall|i: int|
            0 <= i < names.len() ==> keys.contains(#[trigger] names[i]) || missing_names(
                keys,
                names,
            ).contains(names[i]),
    decreases names.len(),
{
    if names.len() > 0 {
        let init = names.drop_last();
        lemma_missing_names_facts(keys, init);
        let prev = missing_names(keys, init);
        let n = names.last();
        if !(keys.contains(n) || prev.contains(n)) {
            let cur = prev.push(n);
            assert forall|m: Seq<char>| #[trigger] cur.contains(m) implies !keys.contains(m) by {
                if m != n {
                    let k = choose|k: int| 0 <= k < cur.len() && cur[k] == m;
                    assert(prev[k] == m);
                    assert(prev.contains(m));
                }
            }
            assert forall|i: int| 0 <= i < names.len() implies keys.contains(
                #[trigger] names[i],
            ) || cur.contains(names[i]) by {
                if i < names.len() - 1 {
                    assert(init[i] == names[i]);
                    if prev.contains(names[i]) {
                        let k = choose|k: int| 0 <= k < prev.len() && prev[k] == names[i];
                        assert(cur[k] == names[i]);
                    }
                } else {
                    assert(cur[prev.len() as int] == n);
                }
            }
        } else {
            assert forall|i: int| 0 <= i < names.len() implies keys.contains(
                #[trigger] names[i],
            ) || prev.contains(names[i]) by {
                if i < names.len() - 1 {
                    assert(init[i] == names[i]);
                }
            }
        }
    }
}

proof fn lemma_nothing_missing(keys: Seq<Seq<char>>, names: Seq<Seq<char>>)
    requires
        forall|i: int| 0 <= i < names.len() ==> keys.contains(#[trigger] names[i]),
    ensures
        missing_names(keys, names) == Seq::<Seq<char>>::empty(),
    decreases names.len(),
{
    if names.len() > 0 {
        let init = names.drop_last();
        assert forall|i: int| 0 <= i < init.len() implies keys.contains(#[trigger] init[i]) by {
            assert(init[i] == names[i]);
        }
        lemma_nothing_missing(keys, init);
        assert(keys.contains(names[names.len() - 1]));
    }
}

/// Requesting the same names twice connects each of them exactly once:
/// once the names missing from a table are added to it, every requested
/// name is in the table, none is there twice, and none is missing any more,
/// so a second request adds nothing.
pub proof fn lemma_ensure_connected_idempotent(keys: Seq<Seq<char>>, names: Seq<Seq<char>>)
    requires
        keys.no_duplicates(),
    ensures
        (keys + missing_names(keys, names)).no_duplicates(),
        forall|i: int|
            0 <= i < names.len() ==> (keys + missing_names(keys, names)).contains(
                #[trigger] names[i],
            ),
        missing_names(keys + missing_names(keys, names), names) == Seq::<Seq<char>>::empty(),
{
    let added = missing_names(keys, names);
    let after = keys + added;
    lemma_missing_names_facts(keys, names);
    assert forall|a: int, b: int|
        0 <= a < after.len() && 0 <= b < after.len() && a != b implies after[a] != after[b] by {
        if a < keys.len() && b >= keys.len() {
            assert(added.contains(after[b]));
            assert(keys.contains(after[a]));
        } else if b < keys.len() && a >= keys.len() {
            assert(added.contains(after[a]));
            assert(keys.contains(after[b]));
        } else if a >= keys.len() && b >= keys.len() {
            assert(added[a - keys.len()] == after[a]);
            assert(added[b - keys.len()] == after[b]);
        }
    }
    assert forall|i: int| 0 <= i < names.len() implies after.contains(#[trigger] names[i]) by {
        if keys.contains(names[i]) {
            let k = choose|k: int| 0 <= k < keys.len() && keys[k] == names[i];
            assert(after[k] == names[i]);
        } else {
            let k = choose|k: int| 0 <= k < added.len() && added[k] == names[i];
            assert(after[keys.len() + k] == names[i]);
        }
    }
    lemma_nothing_missing(after, names);
}

} // verus!