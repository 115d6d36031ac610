//! Argument values bound by the caller, looked up by argument key.

use vstd::prelude::*;

use crate::text::str_eq;

verus! {

/// One bound value, typed by the argument layer that produced it.
#[derive(Debug, Clone)]
pub enum ArgValue {
    /// Plain text.
    Str(String),
    Int(i64),
    Bool(bool),
    /// Text that the caller already holds as a JSON document.
    Json(String),
}

#[derive(Debug, Clone)]
pub struct BoundArg {
    pub key: String,
    pub value: ArgValue,
}

/// The bound arguments of one invocation. A key occurs at most once.
#[derive(Debug, Clone)]
pub struct BoundArgs {
    pub entries: Vec<BoundArg>,
}

/// The first index at or after `i` whose key is `k`.
pub open spec fn key_index(entries: Seq<BoundArg>, k: Seq<char>, i: int) -> Option<int>
    decreases entries.len() - i,
{
    if i < 0 || i >= entries.len() {
        None
    } else if entries[i].key@ == k {
        Some(i)
    } else {
        key_index(entries, k, i + 1)
    }
}

proof fn lemma_key_index_none(entries: Seq<BoundArg>, k: Seq<char>, i: int)
    requires
        0 <= i <= entries.len(),
        key_index(entries, k, i) is None,
    ensures
        forall|j: int| i <= j < entries.len() ==> entries[j].key@ != k,
    decreases entries.len() - i,
{
    if i < entries.len() {
        lemma_key_index_none(entries, k, i + 1);
    }
}

proof fn lemma_key_index_some(entries: Seq<BoundArg>, k: Seq<char>, i: int)
    requires
        0 <= i <= entries.len(),
    ensures
        key_index(entries, k, i) matches Some(j) ==> i <= j < entries.len() && entries[j].key@ == k
            && forall|m: int| i <= m < j ==> entries[m].key@ != k,
    decreases entries.len() - i,
{
    if i < entries.len() {
        lemma_key_index_some(entries, k, i + 1);
    }
}

impl BoundArgs {
    /// The keys that have a value.
    pub open spec fn keys(&self) -> Set<Seq<char>> {
        Set::new(|k: Seq<char>| exists|i: int| 0 <= i < self.entries@.len() && #[trigger] self.entries@[i].key@ == k)
    }

    /// The value bound to key `k`, if any.
    pub open spec fn lookup(&self, k: Seq<char>) -> Option<ArgValue> {
        match key_index(self.entries@, k, 0) {
            Some(i) => Some(self.entries@[i].value),
            None => None,
        }
    }

    pub open spec fn wf(&self) -> bool {
        forall|i: int, j: int|
            0 <= i < j < self.entries@.len() ==> #[trigger] self.entries@[i].key@ != #[trigger] self.entries@[j].key@
    }

    pub fn new() -> (r: BoundArgs)
        ensures
            r.wf(),
            r.keys() == Set::<Seq<char>>::empty(),
    {
        let r = BoundArgs { entries: Vec::new() };
        assert(r.keys() =~= Set::<Seq<char>>::empty());
        r
    }

    /// The index of key `key`, if it is bound.
    fn find(&self, key: &str) -> (r: Option<usize>)
        ensures
            r matches Some(i) ==> i < self.entries@.len() && Some(i as int) == key_index(
                self.entries@,
                key@,
                0,
            ),
            r is None ==> key_index(self.entries@, key@, 0) is None,
    {
        let mut i: usize = 0;
        while i < self.entries.len()
            invariant
                i <= self.entries@.len(),
                key_index(self.entries@, key@, 0) == key_index(self.entries@, key@, i as int),
            decreases self.entries@.len() - i,
        {
            if str_eq(self.entries[i].key.as_str(), key) {
                return Some(i);
            }
            i = i + 1;
        }
        None
    }

    /// The value bound to `key`.
    pub fn get(&self, key: &str) -> (r: Option<&ArgValue>)
        ensures
            r matches Some(v) ==> self.lookup(key@) == Some(*v),
            r is None ==> self.lookup(key@) is None,
    {
        match self.find(key) {
            Some(i) => Some(&self.entries[i].value),
            None => None,
        }
    }

    /// Whether `key` has a value.
    pub fn has_value(&self, key: &str) -> (r: bool)
        ensures
            r == self.keys().contains(key@),
    {
        let f = self.find(key);
        proof {
            lemma_key_index_some(self.entries@, key@, 0);
            if f is None {
                lemma_key_index_none(self.entries@, key@, 0);
            }
        }
        f.is_some()
    }

    /// Binds `value` to `key`, replacing an earlier value of that key.
    pub fn insert(&mut self, key: String, value: ArgValue)
        requires
            old(self).wf(),
        ensures
            final(self).wf(),
            final(self).keys() == old(self).keys().insert(key@),
            final(self).lookup(key@) == Some(value),
            forall|k: Seq<char>| k != key@ ==> final(self).lookup(k) == old(self).lookup(k),
    {
        let ghost k = key@;
        proof {
            lemma_key_index_some(self.entries@, k, 0);
        }
        match self.find(key.as_str()) {
            Some(i) => {
                proof {
                    lemma_same_keys_same_index(self.entries@, i as int, BoundArg { key: key, value: value }, k, 0);
                }
                self.entries.set(i, BoundArg { key, value });
                proof {
                    assert forall|m: Seq<char>| #[trigger] self.keys().contains(m) <==> old(self).keys().insert(k).contains(m) by {
                        if self.keys().contains(m) {
                            let j = choose|j: int| 0 <= j < self.entries@.len() && #[trigger] self.entries@[j].key@ == m;
                            if j != i {
                                assert(old(self).entries@[j].key@ == m);
                            }
                        }
                        if old(self).keys().contains(m) {
                            let j = choose|j: int| 0 <= j < old(self).entries@.len() && #[trigger] old(self).entries@[j].key@ == m;
                            assert(self.entries@[j].key@ == m);
                        }
                        if m == k {
                            assert(self.entries@[i as int].key@ == m);
                        }
                    }
                    assert(self.keys() =~= old(self).keys().insert(k));
                    assert forall|m: Seq<char>| m != k implies self.lookup(m) == old(self).lookup(m) by {
                        lemma_same_keys_same_index(old(self).entries@, i as int, self.entries@[i as int], m, 0);
                        lemma_key_index_some(old(self).entries@, m, 0);
                    }
                    assert forall|a: int, b: int| 0 <= a < b < self.entries@.len() implies #[trigger] self.entries@[a].key@ != #[trigger] self.entries@[b].key@ by {
                        assert(old(self).entries@[a].key@ != old(self).entries@[b].key@);
                    }
                }
            },
            None => {
                proof {
                    lemma_key_index_none(self.entries@, k, 0);
                }
                self.entries.push(BoundArg { key, value });
                proof {
                    assert forall|m: Seq<char>| #[trigger] self.keys().contains(m) <==> old(self).keys().insert(k).contains(m) by {
                        if self.keys().contains(m) {
                            let j = choose|j: int| 0 <= j < self.entries@.len() && #[trigger] self.entries@[j].key@ == m;
                            if j < old(self).entries@.len() {
                                assert(old(self).entries@[j].key@ == m);
                            }
                        }
                        if old(self).keys().contains(m) {
                            let j = choose|j: int| 0 <= j < old(self).entries@.len() && #[trigger] old(self).entries@[j].key@ == m;
                            assert(self.entries@[j].key@ == m);
                        }
                        if m == k {
                            assert(self.entries@[old(self).entries@.len() as int].key@ == m);
                        }
                    }
                    assert(self.keys() =~= old(self).keys().insert(k));
                }
                proof {
                    lemma_push_index(old(self).entries@, self.entries@.last(), k, 0);
                    assert forall|m: Seq<char>| m != k implies self.lookup(m) == old(self).lookup(m) by {
                        lemma_push_index(old(self).entries@, self.entries@.last(), m, 0);
                        lemma_key_index_some(old(self).entries@, m, 0);
                    }
                }
            },
        }
    }
}

proof fn lemma_same_keys_same_index(entries: Seq<BoundArg>, i: int, e: BoundArg, m: Seq<char>, from: int)
    requires
        0 <= i < entries.len(),
        0 <= from <= entries.len(),
        e.key@ == entries[i].key@ || (m != e.key@ && m != entries[i].key@),
    ensures
        key_index(entries.update(i, e), m, from) == key_index(entries, m, from),
    decreases entries.len() - from,
{
    if from < entries.len() {
        lemma_same_keys_same_index(entries, i, e, m, from + 1);
    }
}

proof fn lemma_push_index(entries: Seq<BoundArg>, e: BoundArg, m: Seq<char>, from: int)
    requires
        0 <= from <= entries.len(),
    ensures
        key_index(entries.push(e), m, from) == (match key_index(entries, m, from) {
            Some(j) => Some(j),
            None => if e.key@ == m { Some(entries.len() as int) } else { None },
        }),
    decreases entries.len() - from,
{
    assert(entries.push(e)[entries.len() as int] == e);
    if from < entries.len() {
        assert(entries.push(e)[from] == entries[from]);
        lemma_push_index(entries, e, m, from + 1);
    } else {
        assert(key_index(entries.push(e), m, from + 1) is None);
    }
}

} // verus!
