//! A key-addressed store: the durable per-key rows of the host ledger,
//! modelled as an association list with distinct keys and viewed as a
//! `Map` from 32-byte keys to rows.

use vstd::prelude::*;
use crate::identity::Identity;

verus! {

/// The map a sequence of entries denotes: each entry binds its key to its
/// row, later entries overriding earlier ones (moot once keys are distinct).
pub open spec fn entries_map<T>(s: Seq<(Identity, T)>) -> Map<Seq<u8>, T>
    decreases s.len(),
{
    if s.len() == 0 {
        Map::empty()
    } else {
        entries_map(s.drop_last()).insert(s.last().0@, s.last().1)
    }
}

/// No two entries bind the same key.
pub open spec fn distinct_keys<T>(s: Seq<(Identity, T)>) -> bool {
    forall|i: int, j: int| 0 <= i < j < s.len() ==> s[i].0@ != s[j].0@
}

proof fn lemma_entry_lookup<T>(s: Seq<(Identity, T)>, i: int)
    requires
        distinct_keys(s),
        0 <= i < s.len(),
    ensures
        entries_map(s).contains_key(s[i].0@),
        entries_map(s)[s[i].0@] == s[i].1,
    decreases s.len(),
{
    if i < s.len() - 1 {
        assert(distinct_keys(s.drop_last()));
        lemma_entry_lookup(s.drop_last(), i);
        assert(s[i].0@ != s.last().0@);
    }
}

proof fn lemma_absent_key<T>(s: Seq<(Identity, T)>, k: Seq<u8>)
    requires
        forall|i: int| 0 <= i < s.len() ==> s[i].0@ != k,
    ensures
        !entries_map(s).contains_key(k),
    decreases s.len(),
{
    if s.len() > 0 {
        lemma_absent_key(s.drop_last(), k);
    }
}

proof fn lemma_update_entry<T>(s: Seq<(Identity, T)>, i: int, v: T)
    requires
        distinct_keys(s),
        0 <= i < s.len(),
    ensures
        distinct_keys(s.update(i, (s[i].0, v))),
        entries_map(s.update(i, (s[i].0, v))) =~= entries_map(s).insert(s[i].0@, v),
    decreases s.len(),
{
    let t = s.update(i, (s[i].0, v));
    assert(forall|j: int| 0 <= j < s.len() ==> t[j].0@ == s[j].0@);
    if i == s.len() - 1 {
        assert(t.drop_last() =~= s.drop_last());
    } else {
        assert(distinct_keys(s.drop_last()));
        lemma_update_entry(s.drop_last(), i, v);
        assert(t.drop_last() =~= s.drop_last().update(i, (s[i].0, v)));
        assert(s[i].0@ != s.last().0@);
    }
}

proof fn lemma_push_entry<T>(s: Seq<(Identity, T)>, id: Identity, v: T)
    requires
        distinct_keys(s),
        forall|i: int| 0 <= i < s.len() ==> s[i].0@ != id@,
    ensures
        distinct_keys(s.push((id, v))),
        entries_map(s.push((id, v))) =~= entries_map(s).insert(id@, v),
{
    assert(s.push((id, v)).drop_last() =~= s);
}

/// A key-addressed store of rows of type `T`, one row per 32-byte key.
pub struct Table<T> {
    entries: Vec<(Identity, T)>,
}

impl<T> View for Table<T> {
    type V = Map<Seq<u8>, T>;

    closed spec fn view(&self) -> Map<Seq<u8>, T> {
        entries_map(self.entries@)
    }
}

impl<T: Copy> Table<T> {
    /// The store invariant: every key addresses at most one row.
    pub closed spec fn wf(&self) -> bool {
        distinct_keys(self.entries@)
    }

    /// An empty store.
    pub fn new() -> (r: Table<T>)
        ensures
            r.wf(),
            r@ == Map::<Seq<u8>, T>::empty(),
    {
        Table { entries: Vec::new() }
    }

    /// Look the row under `key` up; `None` exactly when the key is absent.
    pub fn get(&self, key: &Identity) -> (r: Option<T>)
        requires
            self.wf(),
        ensures
            match r {
                Some(v) => self@.contains_key(key@) && self@[key@] == v,
                None => !self@.contains_key(key@),
            },
    {
        let n = self.entries.len();
        let mut i: usize = 0;
        while i < n
            invariant
                self.wf(),
                n == self.entries.len(),
                i <= n,
                forall|j: int| 0 <= j < i ==> self.entries@[j].0@ != key@,
            decreases n - i,
        {
            if self.entries[i].0.same_as(key) {
                proof {
                    lemma_entry_lookup(self.entries@, i as int);
                }
                return Some(self.entries[i].1);
            }
            i += 1;
        }
        proof {
            lemma_absent_key(self.entries@, key@);
        }
        None
    }

    /// Whether a row sits under `key`.
    pub fn contains(&self, key: &Identity) -> (r: bool)
        requires
            self.wf(),
        ensures
            r == self@.contains_key(key@),
    {
        self.get(key).is_some()
    }

    /// Bind `key` to `value`, replacing any row already under it.
    pub fn put(&mut self, key: &Identity, value: T)
        requires
            old(self).wf(),
        ensures
            final(self).wf(),
            final(self)@ == old(self)@.insert(key@, value),
    {
        let n = self.entries.len();
        let mut i: usize = 0;
        while i < n
            invariant
                self == old(self),
                self.wf(),
                n == self.entries.len(),
                i <= n,
                forall|j: int| 0 <= j < i ==> self.entries@[j].0@ != key@,
            decreases n - i,
        {
            if self.entries[i].0.same_as(key) {
                let k0 = self.entries[i].0;
                proof {
                    lemma_update_entry(self.entries@, i as int, value);
                }
                self.entries.set(i, (k0, value));
                proof {
                    assert(self.entries@ =~= old(self).entries@.update(
                        i as int,
                        (old(self).entries@[i as int].0, value),
                    ));
                    assert(old(self).entries@[i as int].0@ == key@);
                    assert(self@ =~= old(self)@.insert(key@, value));
                }
                return ;
            }
            i += 1;
        }
        proof {
            lemma_push_entry(self.entries@, *key, value);
        }
        self.entries.push((*key, value));
        proof {
            assert(self@ =~= old(self)@.insert(key@, value));
        }
    }
}

} // verus!
