//! Interned string tags. A `Tag` is a cheap `Copy` handle into a
//! `TagTable`; two tags produced from the same string by the same table
//! are the same handle, so equality and hashing stay O(1).
//!
//! No central enum. Any module (archetype, substance, interaction rule)
//! can intern a name and get back a handle — archetypes declare their
//! properties as tags, rules are keyed on tag pairs, and nobody edits a
//! central registry to add a new kind of thing.
use crate::text::{bytes_eq, bytes_le, bytes_le_exec, lemma_bytes_le_antisymmetric, lemma_bytes_le_total, lemma_same_bytes_same_chars};
use vstd::prelude::*;
use vstd::utf8::*;

verus! {

/// The intern table: one entry per distinct name, a tag is the index of
/// its name.
pub struct TagTable {
    names: Vec<String>,
}

/// Interned string handle; comparing two tags compares two indices.
#[derive(Clone, Copy, PartialEq, Eq, Structural, Hash, Debug)]
pub struct Tag(usize);

impl Tag {
    /// The handle's index into its table.
    pub closed spec fn id(self) -> int {
        self.0 as int
    }
}

impl View for TagTable {
    type V = Seq<Seq<char>>;

    closed spec fn view(&self) -> Seq<Seq<char>> {
        self.names@.map_values(|s: String| s@)
    }
}

impl TagTable {
    /// The table holds no name twice.
    pub open spec fn distinct(names: Seq<Seq<char>>) -> bool {
        forall|i: int, j: int|
            0 <= i < names.len() && 0 <= j < names.len() && i != j ==> #[trigger] names[i]
                != #[trigger] names[j]
    }

    /// `t` was handed out by this table.
    pub open spec fn holds(&self, t: Tag) -> bool {
        0 <= t.id() < self@.len()
    }

    pub open spec fn name(&self, t: Tag) -> Seq<char> {
        self@[t.id()]
    }

    /// Well-formed: no name is interned twice.
    pub open spec fn wf(&self) -> bool {
        Self::distinct(self@)
    }

    pub fn new() -> (t: Self)
        ensures
            t.wf(),
            t@ == Seq::<Seq<char>>::empty(),
    {
        let t = TagTable { names: Vec::new() };
        assert(t@ =~= Seq::<Seq<char>>::empty());
        t
    }

    pub fn len(&self) -> (n: usize)
        ensures
            n == self@.len(),
    {
        self.names.len()
    }

    /// The handle already interned for `s`, if any.
    pub fn lookup(&self, s: &str) -> (r: Option<Tag>)
        ensures
            match r {
                Some(t) => self.holds(t) && self.name(t) == s@,
                None => !self@.contains(s@),
            },
    {
        let sb = s.as_bytes();
        let mut i: usize = 0;
        while i < self.names.len()
            invariant
                i <= self.names@.len(),
                sb@ == encode_utf8(s@),
                forall|j: int| 0 <= j < i ==> #[trigger] self.names@[j]@ != s@,
            decreases self.names.len() - i,
        {
            let nb = self.names[i].as_str().as_bytes();
            if bytes_eq(nb, sb) {
                proof {
                    lemma_same_bytes_same_chars(self.names@[i as int]@, s@);
                }
                return Some(Tag(i));
            }
            i = i + 1;
        }
        assert forall|j: int| 0 <= j < self@.len() implies self@[j] != s@ by {
            assert(self@[j] == self.names@[j]@);
        }
        None
    }
}

impl Tag {
    /// Look up (or create) the interned handle for `s`.
    pub fn new(table: &mut TagTable, s: &str) -> (t: Tag)
        requires
            old(table).wf(),
        ensures
            final(table).wf(),
            final(table)@ == (if old(table)@.contains(s@) {
                old(table)@
            } else {
                old(table)@.push(s@)
            }),
            final(table).holds(t),
            final(table).name(t) == s@,
    {
        match table.lookup(s) {
            Some(t) => t,
            None => {
                let id = table.names.len();
                let owned = s.to_owned();
                table.names.push(owned);
                assert(table@ =~= old(table)@.push(s@));
                Tag(id)
            },
        }
    }

    /// The interned string.
    pub fn as_str(self, table: &TagTable) -> (s: &str)
        requires
            table.holds(self),
        ensures
            s@ == table.name(self),
    {
        table.names[self.0].as_str()
    }
}

/// Two handles of one table are equal exactly when their names are.
pub proof fn lemma_tag_eq_iff_name_eq(table: &TagTable, a: Tag, b: Tag)
    requires
        table.wf(),
        table.holds(a),
        table.holds(b),
    ensures
        (a == b) <==> (table.name(a) == table.name(b)),
{
    if a.id() == b.id() {
        assert(a == b);
    }
}

/// Sorted tag pair used as a key into the interaction book. The order
/// is the byte order of the names, so a rule for `(flammable, blood)`
/// matches whichever side initiated the contact.
#[derive(Clone, Copy, PartialEq, Eq, Structural, Hash, Debug)]
pub struct TagPair(pub Tag, pub Tag);

/// The pair `TagPair::new` builds: the tag whose name sorts first (by
/// UTF-8 bytes) goes first.
pub open spec fn sorted_pair(table: &TagTable, a: Tag, b: Tag) -> TagPair {
    if bytes_le(encode_utf8(table.name(a)), encode_utf8(table.name(b))) {
        TagPair(a, b)
    } else {
        TagPair(b, a)
    }
}

impl TagPair {
    pub fn new(table: &TagTable, a: Tag, b: Tag) -> (p: TagPair)
        requires
            table.holds(a),
            table.holds(b),
        ensures
            p == sorted_pair(table, a, b),
    {
        if bytes_le_exec(a.as_str(table).as_bytes(), b.as_str(table).as_bytes()) {
            TagPair(a, b)
        } else {
            TagPair(b, a)
        }
    }
}

/// A pair is the same whichever order its tags are given in.
pub proof fn lemma_pair_order_insensitive(table: &TagTable, a: Tag, b: Tag)
    requires
        table.wf(),
        table.holds(a),
        table.holds(b),
    ensures
        sorted_pair(table, a, b) == sorted_pair(table, b, a),
{
    let ba = encode_utf8(table.name(a));
    let bb = encode_utf8(table.name(b));
    lemma_bytes_le_total(ba, bb);
    if bytes_le(ba, bb) && bytes_le(bb, ba) {
        lemma_bytes_le_antisymmetric(ba, bb);
        lemma_same_bytes_same_chars(table.name(a), table.name(b));
        lemma_tag_eq_iff_name_eq(table, a, b);
    }
}

/// Set of tags carried by a substance / body / entity. Kept as a small
/// `Vec` because typical counts are under eight.
#[derive(Clone, Debug)]
pub struct TagSet {
    pub tags: Vec<Tag>,
}

impl Default for TagSet {
    fn default() -> (s: Self)
        ensures
            s.tags@ == Seq::<Tag>::empty(),
    {
        TagSet { tags: Vec::new() }
    }
}

impl TagSet {
    /// A set holding exactly `tags`, in order.
    pub fn from_iter(tags: Vec<Tag>) -> (s: Self)
        ensures
            s.tags@ == tags@,
    {
        TagSet { tags }
    }

    /// Intern each string and collect the handles, in order.
    pub fn from_strs(table: &mut TagTable, strs: &[&str]) -> (s: Self)
        requires
            old(table).wf(),
        ensures
            final(table).wf(),
            s.tags@.len() == strs@.len(),
            forall|i: int|
                0 <= i < strs@.len() ==> final(table).holds(#[trigger] s.tags@[i])
                    && final(table).name(s.tags@[i]) == strs@[i]@,
            forall|i: int| 0 <= i < old(table)@.len() ==> final(table)@[i] == old(table)@[i],
            forall|n: Seq<char>| #[trigger] final(table)@.contains(n) <==> old(table)@.contains(n)
                || exists|i: int| 0 <= i < strs@.len() && strs@[i]@ == n,
    {
        let mut tags: Vec<Tag> = Vec::new();
        let mut i: usize = 0;
        while i < strs.len()
            invariant
                table.wf(),
                i <= strs@.len(),
                tags@.len() == i,
                forall|k: int|
                    0 <= k < i ==> table.holds(#[trigger] tags@[k]) && table.name(tags@[k])
                        == strs@[k]@,
                old(table)@.len() <= table@.len(),
                forall|k: int| 0 <= k < old(table)@.len() ==> table@[k] == old(table)@[k],
                forall|n: Seq<char>| #[trigger] table@.contains(n) <==> old(table)@.contains(n)
                    || exists|k: int| 0 <= k < i && strs@[k]@ == n,
            decreases strs.len() - i,
        {
            let ghost before = table@;
            let t = Tag::new(table, strs[i]);
            assert forall|n: Seq<char>| #[trigger] table@.contains(n) <==> old(table)@.contains(n)
                || exists|k: int| 0 <= k < i + 1 && strs@[k]@ == n by {
                if table@.contains(n) && !before.contains(n) {
                    assert(n == strs@[i as int]@);
                }
                if exists|k: int| 0 <= k < i + 1 && strs@[k]@ == n {
                    let k = choose|k: int| 0 <= k < i + 1 && strs@[k]@ == n;
                    if k < i {
                        assert(before.contains(n));
                        let j = choose|j: int| 0 <= j < before.len() && before[j] == n;
                        assert(table@[j] == n);
                    } else {
                        assert(table@[t.id()] == n);
                    }
                }
                if old(table)@.contains(n) {
                    let j = choose|j: int| 0 <= j < old(table)@.len() && old(table)@[j] == n;
                    assert(table@[j] == n);
                }
                if before.contains(n) {
                    let j = choose|j: int| 0 <= j < before.len() && before[j] == n;
                    assert(table@[j] == n);
                }
            }
            tags.push(t);
            i = i + 1;
        }
        TagSet { tags }
    }

    pub fn has(&self, t: Tag) -> (r: bool)
        ensures
            r == self.tags@.contains(t),
    {
        let mut i: usize = 0;
        while i < self.tags.len()
            invariant
                i <= self.tags@.len(),
                forall|j: int| 0 <= j < i ==> self.tags@[j] != t,
            decreases self.tags.len() - i,
        {
            if self.tags[i] == t {
                return true;
            }
            i = i + 1;
        }
        false
    }

    /// Add `t` unless it is already present.
    pub fn add(&mut self, t: Tag)
        ensures
            final(self).tags@ == (if old(self).tags@.contains(t) {
                old(self).tags@
            } else {
                old(self).tags@.push(t)
            }),
    {
        if !self.has(t) {
            self.tags.push(t);
        }
    }

    /// The tags, in insertion order.
    pub fn iter(&self) -> (v: Vec<Tag>)
        ensures
            v@ == self.tags@,
    {
        let mut v: Vec<Tag> = Vec::new();
        let mut i: usize = 0;
        while i < self.tags.len()
            invariant
                i <= self.tags@.len(),
                v@ == self.tags@.take(i as int),
            decreases self.tags.len() - i,
        {
            v.push(self.tags[i]);
            assert(self.tags@.take(i + 1) =~= self.tags@.take(i as int).push(self.tags@[i as int]));
            i = i + 1;
        }
        assert(self.tags@.take(self.tags@.len() as int) =~= self.tags@);
        v
    }

    pub fn len(&self) -> (n: usize)
        ensures
            n == self.tags@.len(),
    {
        self.tags.len()
    }

    pub fn is_empty(&self) -> (b: bool)
        ensures
            b == (self.tags@.len() == 0),
    {
        self.tags.len() == 0
    }
}

} // verus!
