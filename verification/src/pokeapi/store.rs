//! Keyed caches and name sets: what the browser has fetched, keyed by
//! name, and the names it has marked.
use vstd::prelude::*;
use crate::text::str_eq;

verus! {

/// The value stored under `key`: the first entry with that key.
pub open spec fn lookup<V>(entries: Seq<(String, V)>, key: Seq<char>) -> Option<V>
    decreases entries.len(),
{
    if entries.len() == 0 {
        None
    } else if entries[0].0@ == key {
        Some(entries[0].1)
    } else {
        lookup(entries.drop_first(), key)
    }
}

/// Values kept by name. Storing under a name already present replaces its
/// value.
#[derive(Clone, Debug)]
pub struct Cache<V> {
    pub entries: Vec<(String, V)>,
}

impl<V> Cache<V> {
    /// No key is stored twice.
    pub open spec fn wf(&self) -> bool {
        forall|i: int, j: int| 0 <= i < j < self.entries@.len() ==> (#[trigger] self.entries@[i]).0@ != (#[trigger] self.entries@[j]).0@
    }

    /// The value stored under `key`.
    pub open spec fn get_spec(&self, key: Seq<char>) -> Option<V> {
        lookup(self.entries@, key)
    }

    pub fn new() -> (c: Self)
        ensures
            forall|k: Seq<char>| c.get_spec(k) is None,
            c.entries@.len() == 0,
            c.wf(),
    {
        Cache { entries: Vec::new() }
    }

    fn position(&self, key: &str) -> (r: Option<usize>)
        ensures
            match r {
                Some(i) => i < self.entries@.len() && self.entries@[i as int].0@ == key@
                    && self.get_spec(key@) == Some(self.entries@[i as int].1)
                    && forall|j: int| 0 <= j < i ==> (#[trigger] self.entries@[j]).0@ != key@,
                None => self.get_spec(key@) is None && forall|j: int|
                    0 <= j < self.entries@.len() ==> (#[trigger] self.entries@[j]).0@ != key@,
            },
    {
        let mut i: usize = 0;
        assert(self.entries@.skip(0) =~= self.entries@);
        while i < self.entries.len()
            invariant
                i <= self.entries@.len(),
                lookup(self.entries@, key@) == lookup(self.entries@.skip(i as int), key@),
                forall|j: int| 0 <= j < i ==> (#[trigger] self.entries@[j]).0@ != key@,
            decreases self.entries.len() - i,
        {
            assert(self.entries@.skip(i as int).drop_first() =~= self.entries@.skip(i + 1));
            assert(self.entries@.skip(i as int)[0] == self.entries@[i as int]);
            if str_eq(self.entries[i].0.as_str(), key) {
                return Some(i);
            }
            i = i + 1;
        }
        None
    }

    pub fn contains_key(&self, key: &str) -> (b: bool)
        ensures
            b == self.get_spec(key@) is Some,
    {
        self.position(key).is_some()
    }

    pub fn get(&self, key: &str) -> (r: Option<&V>)
        ensures
            match self.get_spec(key@) {
                Some(v) => r matches Some(x) && *x == v,
                None => r is None,
            },
    {
        match self.position(key) {
            Some(i) => Some(&self.entries[i].1),
            None => None,
        }
    }

    /// Stores `value` under `key`, replacing what was there.
    pub fn insert(&mut self, key: String, value: V)
        ensures
            forall|k: Seq<char>|
                #[trigger] final(self).get_spec(k) == if k == key@ {
                    Some(value)
                } else {
                    old(self).get_spec(k)
                },
            old(self).wf() ==> final(self).wf(),
    {
        let ghost k0 = key@;
        match self.position(key.as_str()) {
            Some(i) => {
                let ghost before = self.entries@;
                self.entries.set(i, (key, value));
                assert(forall|j: int| 0 <= j < before.len() ==> (#[trigger] self.entries@[j]).0@ == before[j].0@);
                proof {
                    assert forall|k: Seq<char>| #[trigger] lookup(self.entries@, k) == if k == k0 {
                        Some(value)
                    } else {
                        lookup(before, k)
                    } by {
                        lemma_lookup_update(before, i as int, k0, value, k);
                    }
                }
            },
            None => {
                let ghost before = self.entries@;
                self.entries.push((key, value));
                assert(forall|j: int| 0 <= j < before.len() ==> (#[trigger] self.entries@[j]) == before[j]);
                proof {
                    assert forall|k: Seq<char>| #[trigger] lookup(self.entries@, k) == if k == k0 {
                        Some(value)
                    } else {
                        lookup(before, k)
                    } by {
                        lemma_lookup_push(before, self.entries@.last().0, value, k);
                    }
                }
            },
        }
    }
}

proof fn lemma_lookup_update<V>(s: Seq<(String, V)>, i: int, key: Seq<char>, value: V, k: Seq<char>)
    requires
        0 <= i < s.len(),
        s[i].0@ == key,
        forall|j: int| 0 <= j < i ==> (#[trigger] s[j]).0@ != key,
    ensures
        forall|name: String| name@ == key ==> lookup(s.update(i, (name, value)), k) == if k == key {
            Some(value)
        } else {
            lookup(s, k)
        },
    decreases i,
{
    assert forall|name: String| name@ == key implies lookup(s.update(i, (name, value)), k) == if k == key {
        Some(value)
    } else {
        lookup(s, k)
    } by {
        let t = s.update(i, (name, value));
        if i == 0 {
            assert(t.drop_first() =~= s.drop_first());
        } else {
            lemma_lookup_update(s.drop_first(), i - 1, key, value, k);
            assert(t.drop_first() =~= s.drop_first().update(i - 1, (name, value)));
        }
    }
}

proof fn lemma_lookup_push<V>(s: Seq<(String, V)>, name: String, value: V, k: Seq<char>)
    requires
        forall|j: int| 0 <= j < s.len() ==> (#[trigger] s[j]).0@ != name@,
    ensures
        lookup(s.push((name, value)), k) == if k == name@ {
            Some(value)
        } else {
            lookup(s, k)
        },
    decreases s.len(),
{
    let t = s.push((name, value));
    if s.len() > 0 {
        assert forall|j: int| 0 <= j < s.drop_first().len() implies (#[trigger] s.drop_first()[j]).0@ != name@ by {
            assert(s.drop_first()[j] == s[j + 1]);
        }
        lemma_lookup_push(s.drop_first(), name, value, k);
        assert(t.drop_first() =~= s.drop_first().push((name, value)));
        assert(t[0] == s[0]);
        assert(s[0].0@ != name@);
        if s[0].0@ == k {
            assert(lookup(t, k) == Some(s[0].1));
            assert(lookup(s, k) == Some(s[0].1));
        } else {
            assert(lookup(t, k) == lookup(t.drop_first(), k));
            assert(lookup(s, k) == lookup(s.drop_first(), k));
        }
    } else {
        assert(t.drop_first() =~= Seq::<(String, V)>::empty());
        assert(t[0] == (name, value));
        assert(t.len() == 1);
        if k == name@ {
            assert(lookup(t, k) == Some(value));
        } else {
            assert(lookup(t, k) == lookup(t.drop_first(), k));
            assert(lookup(t.drop_first(), k) is None);
        }
    }
}

/// Whether `name` is in `names`.
pub open spec fn has_name(names: Seq<String>, name: Seq<char>) -> bool {
    exists|i: int| 0 <= i < names.len() && (#[trigger] names[i])@ == name
}

/// A set of names.
#[derive(Clone, Debug)]
pub struct NameSet {
    pub names: Vec<String>,
}

impl NameSet {
    pub open spec fn has(&self, name: Seq<char>) -> bool {
        has_name(self.names@, name)
    }

    /// No name is held twice.
    pub open spec fn wf(&self) -> bool {
        forall|i: int, j: int| 0 <= i < j < self.names@.len() ==> (#[trigger] self.names@[i])@ != (#[trigger] self.names@[j])@
    }

    pub fn new() -> (s: Self)
        ensures
            forall|n: Seq<char>| !s.has(n),
            s.names@.len() == 0,
            s.wf(),
    {
        NameSet { names: Vec::new() }
    }

    /// The set of the names listed, each held once.
    pub fn from_names(names: Vec<String>) -> (s: Self)
        ensures
            forall|n: Seq<char>| s.has(n) == has_name(names@, n),
            s.wf(),
    {
        let mut set = NameSet::new();
        let mut i: usize = 0;
        while i < names.len()
            invariant
                i <= names@.len(),
                set.wf(),
                forall|n: Seq<char>| #[trigger] set.has(n) == has_name(names@.subrange(0, i as int), n),
            decreases names.len() - i,
        {
            let ghost pre = names@.subrange(0, i as int);
            let ghost cur = names@.subrange(0, i + 1);
            assert(cur =~= pre.push(names@[i as int]));
            set.insert(names[i].clone());
            assert forall|n: Seq<char>| #[trigger] set.has(n) == has_name(cur, n) by {
                if has_name(cur, n) {
                    let k = choose|k: int| 0 <= k < cur.len() && (#[trigger] cur[k])@ == n;
                    if k < pre.len() {
                        assert(pre[k] == cur[k]);
                    }
                }
                if has_name(pre, n) {
                    let k = choose|k: int| 0 <= k < pre.len() && (#[trigger] pre[k])@ == n;
                    assert(cur[k] == pre[k]);
                }
                assert(cur[i as int] == names@[i as int]);
            }
            i = i + 1;
        }
        assert(names@.subrange(0, names@.len() as int) =~= names@);
        set
    }

    /// A copy holding the same names.
    pub fn clone_set(&self) -> (c: Self)
        ensures
            c.names@.len() == self.names@.len(),
            forall|n: Seq<char>| #[trigger] c.has(n) == self.has(n),
            self.wf() ==> c.wf(),
    {
        let mut names: Vec<String> = Vec::new();
        let mut i: usize = 0;
        while i < self.names.len()
            invariant
                i <= self.names@.len(),
                names@.len() == i,
                forall|j: int| 0 <= j < i ==> #[trigger] names@[j] == self.names@[j],
            decreases self.names.len() - i,
        {
            names.push(self.names[i].clone());
            i = i + 1;
        }
        let c = NameSet { names };
        assert(c.names@ =~= self.names@);
        assert forall|n: Seq<char>| #[trigger] c.has(n) == self.has(n) by {
            if c.has(n) {
                let k = choose|k: int| 0 <= k < c.names@.len() && (#[trigger] c.names@[k])@ == n;
                assert(self.names@[k] == c.names@[k]);
            }
            if self.has(n) {
                let k = choose|k: int| 0 <= k < self.names@.len() && (#[trigger] self.names@[k])@ == n;
                assert(self.names@[k] == c.names@[k]);
            }
        }
        c
    }

    pub fn len(&self) -> (n: usize)
        ensures
            n == self.names@.len(),
    {
        self.names.len()
    }

    pub fn contains(&self, name: &str) -> (b: bool)
        ensures
            b == self.has(name@),
    {
        let mut i: usize = 0;
        while i < self.names.len()
            invariant
                i <= self.names@.len(),
                forall|j: int| 0 <= j < i ==> (#[trigger] self.names@[j])@ != name@,
            decreases self.names.len() - i,
        {
            if str_eq(self.names[i].as_str(), name) {
                return true;
            }
            i = i + 1;
        }
        false
    }

    pub fn insert(&mut self, name: String)
        ensures
            forall|n: Seq<char>| #[trigger] final(self).has(n) == (old(self).has(n) || n == name@),
            old(self).wf() ==> final(self).wf(),
    {
        if !self.contains(name.as_str()) {
            let ghost before = self.names@;
            self.names.push(name);
            assert(forall|j: int| 0 <= j < before.len() ==> (#[trigger] self.names@[j]) == before[j]);
            assert forall|j: int| 0 <= j < before.len() implies (#[trigger] before[j])@ != self.names@.last()@ by {
                if before[j]@ == self.names@.last()@ {
                    assert(has_name(before, self.names@.last()@));
                }
            }
            assert forall|n: Seq<char>| #[trigger] self.has(n) == (has_name(before, n) || n == self.names@.last()@) by {
                if has_name(before, n) {
                    let i = choose|i: int| 0 <= i < before.len() && (#[trigger] before[i])@ == n;
                    assert(self.names@[i] == before[i]);
                }
                if self.has(n) {
                    let i = choose|i: int| 0 <= i < self.names@.len() && (#[trigger] self.names@[i])@ == n;
                    if i < before.len() {
                        assert(before[i] == self.names@[i]);
                    }
                }
                if n == self.names@.last()@ {
                    assert(self.names@[self.names@.len() - 1]@ == n);
                }
            }
        }
    }

    pub fn remove(&mut self, name: &str)
        ensures
            forall|n: Seq<char>| #[trigger] final(self).has(n) == (old(self).has(n) && n != name@),
            old(self).wf() ==> final(self).wf(),
    {
        let mut kept: Vec<String> = Vec::new();
        let mut i: usize = 0;
        while i < self.names.len()
            invariant
                i <= self.names@.len(),
                self.wf() ==> forall|a: int, b: int| 0 <= a < b < kept@.len() ==> (#[trigger] kept@[a])@ != (#[trigger] kept@[b])@,
                forall|n: Seq<char>| #[trigger] has_name(kept@, n) == (has_name(self.names@.subrange(0, i as int), n) && n != name@),
            decreases self.names.len() - i,
        {
            let ghost before = kept@;
            let ghost pre = self.names@.subrange(0, i as int);
            let ghost cur = self.names@.subrange(0, i + 1);
            assert(cur =~= pre.push(self.names@[i as int]));
            if !str_eq(self.names[i].as_str(), name) {
                proof {
                    if self.wf() && has_name(before, self.names@[i as int]@) {
                        let k = choose|k: int| 0 <= k < pre.len() && (#[trigger] pre[k])@ == self.names@[i as int]@;
                        assert(pre[k] == self.names@[k]);
                    }
                }
                kept.push(self.names[i].clone());
                proof {
                    if self.wf() {
                        assert forall|a: int, b: int| 0 <= a < b < kept@.len() implies (#[trigger] kept@[a])@ != (#[trigger] kept@[b])@ by {
                            if b == kept@.len() - 1 && a < b {
                                assert(kept@[a] == before[a]);
                                if kept@[a]@ == kept@[b]@ {
                                    assert(has_name(before, self.names@[i as int]@));
                                }
                            } else {
                                assert(kept@[a] == before[a] && kept@[b] == before[b]);
                            }
                        }
                    }
                }
            }
            assert forall|n: Seq<char>| #[trigger] has_name(kept@, n) == (has_name(cur, n) && n != name@) by {
                if has_name(cur, n) {
                    let k = choose|k: int| 0 <= k < cur.len() && (#[trigger] cur[k])@ == n;
                    if k < pre.len() {
                        assert(pre[k] == cur[k]);
                    }
                }
                if has_name(pre, n) {
                    let k = choose|k: int| 0 <= k < pre.len() && (#[trigger] pre[k])@ == n;
                    assert(cur[k] == pre[k]);
                }
                if has_name(kept@, n) {
                    let k = choose|k: int| 0 <= k < kept@.len() && (#[trigger] kept@[k])@ == n;
                    if k < before.len() {
                        assert(before[k] == kept@[k]);
                    }
                }
                if has_name(before, n) {
                    let k = choose|k: int| 0 <= k < before.len() && (#[trigger] before[k])@ == n;
                    assert(kept@[k] == before[k]);
                }
                if kept@.len() > before.len() {
                    assert(kept@[before.len() as int]@ == self.names@[i as int]@);
                }
                assert(cur[i as int] == self.names@[i as int]);
            }
            i = i + 1;
        }
        assert(self.names@.subrange(0, self.names@.len() as int) =~= self.names@);
        self.names = kept;
    }

    pub fn clear(&mut self)
        ensures
            forall|n: Seq<char>| !final(self).has(n),
            final(self).wf(),
    {
        self.names = Vec::new();
    }
}

} // verus!
