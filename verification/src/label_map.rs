//! Small association map keyed by static string labels, as the frame
//! profiler uses them: a handful of scope names, looked up by content.
use crate::text::str_eq;
use vstd::prelude::*;

verus! {

/// The map an entry list denotes (later entries win, though keys are
/// kept distinct).
pub open spec fn entries_map<V>(s: Seq<(&'static str, V)>) -> Map<Seq<char>, V>
    decreases s.len(),
{
    if s.len() == 0 {
        Map::empty()
    } else {
        entries_map(s.drop_last()).insert(s.last().0@, s.last().1)
    }
}

pub open spec fn keys_distinct<V>(s: Seq<(&'static str, V)>) -> bool {
    forall|i: int, j: int| 0 <= i < s.len() && 0 <= j < s.len() && i != j ==> #[trigger] s[i].0@ != #[trigger] s[j].0@
}

/// With distinct keys, the map holds exactly the entries.
pub proof fn lemma_entries_map<V>(s: Seq<(&'static str, V)>)
    requires
        keys_distinct(s),
    ensures
        forall|k: Seq<char>| #[trigger] entries_map(s).contains_key(k) <==> exists|i: int| 0 <= i < s.len() && s[i].0@ == k,
        forall|i: int| 0 <= i < s.len() ==> #[trigger] entries_map(s)[s[i].0@] == s[i].1,
    decreases s.len(),
{
    if s.len() > 0 {
        let p = s.drop_last();
        assert(keys_distinct(p)) by {
            assert forall|i: int, j: int| 0 <= i < p.len() && 0 <= j < p.len() && i != j implies #[trigger] p[i].0@ != #[trigger] p[j].0@ by {
                assert(p[i] == s[i]);
                assert(p[j] == s[j]);
            }
        }
        lemma_entries_map(p);
        assert forall|k: Seq<char>| #[trigger] entries_map(s).contains_key(k) <==> exists|i: int| 0 <= i < s.len() && s[i].0@ == k by {
            if entries_map(s).contains_key(k) && k != s.last().0@ {
                assert(entries_map(s) == entries_map(p).insert(s.last().0@, s.last().1));
                assert(entries_map(p).contains_key(k));
                let i = choose|i: int| 0 <= i < p.len() && p[i].0@ == k;
                assert(s[i] == p[i]);
            }
            if entries_map(s).contains_key(k) && k == s.last().0@ {
                assert(s[s.len() - 1].0@ == k);
            }
            if exists|i: int| 0 <= i < s.len() && s[i].0@ == k {
                let i = choose|i: int| 0 <= i < s.len() && s[i].0@ == k;
                assert(entries_map(s) == entries_map(p).insert(s.last().0@, s.last().1));
                if i < p.len() {
                    assert(s[i] == p[i]);
                    assert(entries_map(p).contains_key(k));
                }
            }
        }
        assert forall|i: int| 0 <= i < s.len() implies #[trigger] entries_map(s)[s[i].0@] == s[i].1 by {
            assert(entries_map(s) == entries_map(p).insert(s.last().0@, s.last().1));
            if i < s.len() - 1 {
                assert(s[i] == p[i]);
                assert(s[i].0@ != s[s.len() - 1].0@);
                assert(entries_map(p)[p[i].0@] == p[i].1);
            }
        }
    }
}

/// A prefix of an entry list with distinct keys has distinct keys.
pub proof fn lemma_keys_distinct_take<V>(s: Seq<(&'static str, V)>, n: int)
    requires
        keys_distinct(s),
        0 <= n <= s.len(),
    ensures
        keys_distinct(s.take(n)),
{
    let t = s.take(n);
    assert forall|i: int, j: int| 0 <= i < t.len() && 0 <= j < t.len() && i != j implies #[trigger] t[i].0@ != #[trigger] t[j].0@ by {
        assert(t[i] == s[i]);
        assert(t[j] == s[j]);
    }
}

/// A small map from labels to values.
pub struct LabelMap<V> {
    entries: Vec<(&'static str, V)>,
}

impl<V: Copy> LabelMap<V> {
    /// No label is stored twice.
    pub closed spec fn wf(self) -> bool {
        keys_distinct(self.entries@)
    }

    pub closed spec fn view(self) -> Map<Seq<char>, V> {
        entries_map(self.entries@)
    }

    /// Entries, in storage order.
    pub closed spec fn entry_seq(self) -> Seq<(&'static str, V)> {
        self.entries@
    }

    /// The entries are distinct by key and denote the map.
    pub proof fn lemma_entries(self)
        requires
            self.wf(),
        ensures
            keys_distinct(self.entry_seq()),
            self.view() == entries_map(self.entry_seq()),
            forall|k: Seq<char>| #[trigger] self.view().contains_key(k) <==> exists|i: int| 0 <= i < self.entry_seq().len() && self.entry_seq()[i].0@ == k,
            forall|i: int| 0 <= i < self.entry_seq().len() ==> #[trigger] self.view()[self.entry_seq()[i].0@] == self.entry_seq()[i].1,
    {
        lemma_entries_map(self.entries@);
    }

    pub fn new() -> (m: Self)
        ensures
            m.wf(),
            m.view() == Map::<Seq<char>, V>::empty(),
            m.entry_seq().len() == 0,
    {
        LabelMap { entries: Vec::new() }
    }

    pub fn len(&self) -> (n: usize)
        ensures
            n == self.entry_seq().len(),
    {
        self.entries.len()
    }

    /// The `i`th entry in storage order.
    pub fn entry(&self, i: usize) -> (e: (&'static str, V))
        requires
            i < self.entry_seq().len(),
        ensures
            e == self.entry_seq()[i as int],
    {
        self.entries[i]
    }

    fn find(&self, label: &str) -> (r: Option<usize>)
        ensures
            match r {
                Some(i) => i < self.entries@.len() && self.entries@[i as int].0@ == label@,
                None => forall|i: int| 0 <= i < self.entries@.len() ==> self.entries@[i].0@ != label@,
            },
    {
        let mut i: usize = 0;
        while i < self.entries.len()
            invariant
                i <= self.entries@.len(),
                forall|j: int| 0 <= j < i ==> self.entries@[j].0@ != label@,
            decreases self.entries.len() - i,
        {
            if str_eq(self.entries[i].0, label) {
                return Some(i);
            }
            i = i + 1;
        }
        None
    }

    pub fn get(&self, label: &str) -> (r: Option<V>)
        requires
            self.wf(),
        ensures
            r == (if self.view().contains_key(label@) {
                Some(self.view()[label@])
            } else {
                None
            }),
    {
        proof {
            lemma_entries_map(self.entries@);
        }
        match self.find(label) {
            Some(i) => Some(self.entries[i].1),
            None => None,
        }
    }

    /// Set `label`'s value.
    pub fn insert(&mut self, label: &'static str, v: V)
        requires
            old(self).wf(),
        ensures
            final(self).wf(),
            final(self).view() == old(self).view().insert(label@, v),
    {
        proof {
            lemma_entries_map(self.entries@);
        }
        let ghost old_entries = self.entries@;
        match self.find(label) {
            Some(i) => {
                let key = self.entries[i].0;
                let mut entries = Vec::new();
                core::mem::swap(&mut self.entries, &mut entries);
                entries.set(i, (key, v));
                assert(keys_distinct(entries@)) by {
                    assert forall|a: int, b: int| 0 <= a < entries@.len() && 0 <= b < entries@.len() && a != b implies #[trigger] entries@[a].0@ != #[trigger] entries@[b].0@ by {
                        assert(entries@[a].0 == old_entries[a].0);
                        assert(entries@[b].0 == old_entries[b].0);
                    }
                }
                proof {
                    lemma_entries_map(entries@);
                    assert(entries_map(entries@) =~= entries_map(old_entries).insert(label@, v)) by {
                        assert forall|k: Seq<char>| entries_map(entries@).contains_key(k) <==> entries_map(old_entries).insert(label@, v).contains_key(k) by {
                            if exists|j: int| 0 <= j < entries@.len() && entries@[j].0@ == k {
                                let j = choose|j: int| 0 <= j < entries@.len() && entries@[j].0@ == k;
                                assert(old_entries[j].0 == entries@[j].0);
                            }
                            if exists|j: int| 0 <= j < old_entries.len() && old_entries[j].0@ == k {
                                let j = choose|j: int| 0 <= j < old_entries.len() && old_entries[j].0@ == k;
                                assert(old_entries[j].0 == entries@[j].0);
                            }
                        }
                        assert forall|k: Seq<char>| #[trigger] entries_map(entries@).contains_key(k) implies entries_map(entries@)[k] == entries_map(old_entries).insert(label@, v)[k] by {
                            let j = choose|j: int| 0 <= j < entries@.len() && entries@[j].0@ == k;
                            assert(entries_map(entries@)[entries@[j].0@] == entries@[j].1);
                            if j != i {
                                assert(old_entries[j] == entries@[j]);
                                assert(entries_map(old_entries)[old_entries[j].0@] == old_entries[j].1);
                            }
                        }
                    }
                }
                self.entries = entries;
            },
            None => {
                let mut entries = Vec::new();
                core::mem::swap(&mut self.entries, &mut entries);
                entries.push((label, v));
                assert(entries@.drop_last() =~= old_entries);
                assert(keys_distinct(entries@)) by {
                    assert forall|a: int, b: int| 0 <= a < entries@.len() && 0 <= b < entries@.len() && a != b implies #[trigger] entries@[a].0@ != #[trigger] entries@[b].0@ by {
                        if a < old_entries.len() {
                            assert(entries@[a] == old_entries[a]);
                        }
                        if b < old_entries.len() {
                            assert(entries@[b] == old_entries[b]);
                        }
                    }
                }
                self.entries = entries;
            },
        }
    }

    /// Remove `label`, returning its value if it was there.
    pub fn remove(&mut self, label: &str) -> (r: Option<V>)
        requires
            old(self).wf(),
        ensures
            final(self).wf(),
            r == (if old(self).view().contains_key(label@) {
                Some(old(self).view()[label@])
            } else {
                None
            }),
            final(self).view() == old(self).view().remove(label@),
    {
        proof {
            lemma_entries_map(self.entries@);
        }
        let ghost old_entries = self.entries@;
        match self.find(label) {
            Some(i) => {
                let mut entries = Vec::new();
                core::mem::swap(&mut self.entries, &mut entries);
                let e = entries.remove(i);
                assert(keys_distinct(entries@)) by {
                    assert forall|a: int, b: int| 0 <= a < entries@.len() && 0 <= b < entries@.len() && a != b implies #[trigger] entries@[a].0@ != #[trigger] entries@[b].0@ by {
                        let oa = if a < i { a } else { a + 1 };
                        let ob = if b < i { b } else { b + 1 };
                        assert(entries@[a] == old_entries[oa]);
                        assert(entries@[b] == old_entries[ob]);
                    }
                }
                proof {
                    lemma_entries_map(entries@);
                    assert(entries_map(entries@) =~= entries_map(old_entries).remove(label@)) by {
                        assert forall|k: Seq<char>| entries_map(entries@).contains_key(k) <==> entries_map(old_entries).remove(label@).contains_key(k) by {
                            if exists|j: int| 0 <= j < entries@.len() && entries@[j].0@ == k {
                                let j = choose|j: int| 0 <= j < entries@.len() && entries@[j].0@ == k;
                                let oj = if j < i { j } else { j + 1 };
                                assert(entries@[j] == old_entries[oj]);
                            }
                            if exists|j: int| 0 <= j < old_entries.len() && old_entries[j].0@ == k && k != label@ {
                                let j = choose|j: int| 0 <= j < old_entries.len() && old_entries[j].0@ == k && k != label@;
                                let nj = if j < i { j } else { j - 1 };
                                assert(j != i);
                                assert(entries@[nj] == old_entries[j]);
                            }
                        }
                        assert forall|k: Seq<char>| #[trigger] entries_map(entries@).contains_key(k) implies entries_map(entries@)[k] == entries_map(old_entries)[k] by {
                            let j = choose|j: int| 0 <= j < entries@.len() && entries@[j].0@ == k;
                            let oj = if j < i { j } else { j + 1 };
                            assert(entries@[j] == old_entries[oj]);
                            assert(entries_map(entries@)[entries@[j].0@] == entries@[j].1);
                            assert(entries_map(old_entries)[old_entries[oj].0@] == old_entries[oj].1);
                        }
                    }
                }
                self.entries = entries;
                Some(e.1)
            },
            None => {
                assert(entries_map(old_entries).remove(label@) =~= entries_map(old_entries));
                None
            },
        }
    }

    pub fn clear(&mut self)
        ensures
            final(self).wf(),
            final(self).view() == Map::<Seq<char>, V>::empty(),
            final(self).entry_seq().len() == 0,
    {
        self.entries.clear();
    }
}

} // verus!
