//! Decentralized interaction framework. Rules are registered in an
//! `InteractionBook` keyed on tag pairs (contacts) or on a tag and an
//! event; when two tagged things meet the book is queried for matching
//! rules and the reactions fire.
//!
//! A `DirtyTracker` batches dirty tiles / entities each tick so cold
//! parts of the arena aren't re-scanned every frame. Chained reactions
//! are bounded by `MAX_CHAIN_HOPS`; beyond that the chain terminates.
use crate::tag::{sorted_pair, Tag, TagPair, TagSet, TagTable};
use std::collections::HashSet;
use vstd::prelude::*;

verus! {

broadcast use vstd::std_specs::hash::group_hash_axioms;

/// Hard cap on chain length per tick. Snap explosions, flame spread,
/// shock arcs all stop after this many hops.
pub const MAX_CHAIN_HOPS: u8 = 8;

/// Events a body/substance can react to.
#[derive(Clone, Copy, PartialEq, Eq, Structural, Hash, Debug)]
pub enum Event {
    OnDeath,
    OnHit,
    OnBurnTick,
    OnSteppedOn,
    OnProximity,
}

/// Dirty-set tracker. Cold tiles / entities (no recent modification,
/// no active timer) skip re-scanning each tick.
pub struct DirtyTracker {
    /// Tiles marked for interaction re-check this tick (each at most once).
    pub tiles: Vec<(i32, i32)>,
    /// Entities (corpses, enemies, etc) marked for re-check.
    pub entities: HashSet<u32>,
    /// Chain depth counter — reset each frame, incremented per hop.
    pub chain_depth: u8,
}

impl Default for DirtyTracker {
    fn default() -> (d: Self)
        ensures
            d.tiles@.to_set() == Set::<(i32, i32)>::empty(),
            d.tiles@.no_duplicates(),
            d.entities@ == Set::<u32>::empty(),
            d.chain_depth == 0,
    {
        let d = DirtyTracker { tiles: Vec::new(), entities: HashSet::new(), chain_depth: 0 };
        assert(d.tiles@.to_set() =~= Set::<(i32, i32)>::empty());
        d
    }
}

impl DirtyTracker {
    fn insert_tile(&mut self, t: (i32, i32))
        ensures
            final(self).tiles@.to_set() == old(self).tiles@.to_set().insert(t),
            old(self).tiles@.no_duplicates() ==> final(self).tiles@.no_duplicates(),
            final(self).entities@ == old(self).entities@,
            final(self).chain_depth == old(self).chain_depth,
    {
        let mut i: usize = 0;
        while i < self.tiles.len()
            invariant
                i <= self.tiles@.len(),
                forall|j: int| 0 <= j < i ==> self.tiles@[j] != t,
            decreases self.tiles.len() - i,
        {
            if self.tiles[i].0 == t.0 && self.tiles[i].1 == t.1 {
                assert(self.tiles@.to_set().contains(t)) by {
                    assert(self.tiles@[i as int] == t);
                }
                assert(self.tiles@.to_set() =~= self.tiles@.to_set().insert(t));
                return;
            }
            i = i + 1;
        }
        let ghost old_tiles = self.tiles@;
        self.tiles.push(t);
        assert forall|x: (i32, i32)| #[trigger] self.tiles@.to_set().contains(x) <==> old_tiles.to_set().insert(
            t,
        ).contains(x) by {
            if self.tiles@.contains(x) && x != t {
                let j = choose|j: int| 0 <= j < self.tiles@.len() && self.tiles@[j] == x;
                assert(old_tiles[j] == x);
            }
            if old_tiles.contains(x) {
                let j = choose|j: int| 0 <= j < old_tiles.len() && old_tiles[j] == x;
                assert(self.tiles@[j] == x);
            }
            if x == t {
                assert(self.tiles@[old_tiles.len() as int] == t);
            }
        }
        assert(self.tiles@.to_set() =~= old_tiles.to_set().insert(t));
        assert(old_tiles.no_duplicates() ==> self.tiles@.no_duplicates()) by {
            if old_tiles.no_duplicates() {
                assert forall|a: int, b: int| 0 <= a < b < self.tiles@.len() implies self.tiles@[a] != self.tiles@[b] by {
                    if b == old_tiles.len() {
                        assert(old_tiles[a] != t);
                    } else {
                        assert(old_tiles[a] == self.tiles@[a] && old_tiles[b] == self.tiles@[b]);
                    }
                }
            }
        }
    }

    pub fn dirty_tile(&mut self, x: i32, y: i32)
        ensures
            final(self).tiles@.to_set() == old(self).tiles@.to_set().insert((x, y)),
            old(self).tiles@.no_duplicates() ==> final(self).tiles@.no_duplicates(),
            final(self).entities@ == old(self).entities@,
            final(self).chain_depth == old(self).chain_depth,
    {
        self.insert_tile((x, y));
    }

    pub fn dirty_entity(&mut self, id: u32)
        ensures
            final(self).entities@ == old(self).entities@.insert(id),
            final(self).tiles@ == old(self).tiles@,
            final(self).chain_depth == old(self).chain_depth,
    {
        self.entities.insert(id);
    }

    /// Mark the tile and its 4-neighbours dirty for next tick.
    pub fn dirty_cross(&mut self, x: i32, y: i32)
        requires
            i32::MIN < x < i32::MAX,
            i32::MIN < y < i32::MAX,
        ensures
            final(self).tiles@.to_set() == old(self).tiles@.to_set().insert((x, y)).insert(
                ((x + 1) as i32, y),
            ).insert(((x - 1) as i32, y)).insert((x, (y + 1) as i32)).insert((x, (y - 1) as i32)),
            old(self).tiles@.no_duplicates() ==> final(self).tiles@.no_duplicates(),
            final(self).entities@ == old(self).entities@,
            final(self).chain_depth == old(self).chain_depth,
    {
        self.insert_tile((x, y));
        self.insert_tile((x + 1, y));
        self.insert_tile((x - 1, y));
        self.insert_tile((x, y + 1));
        self.insert_tile((x, y - 1));
    }

    pub fn can_chain(&self) -> (b: bool)
        ensures
            b == (self.chain_depth < MAX_CHAIN_HOPS),
    {
        self.chain_depth < MAX_CHAIN_HOPS
    }

    /// One more hop in the current chain (saturating).
    pub fn note_hop(&mut self)
        ensures
            final(self).chain_depth == hop(old(self).chain_depth),
            final(self).tiles@ == old(self).tiles@,
            final(self).entities@ == old(self).entities@,
    {
        self.chain_depth = self.chain_depth.saturating_add(1);
    }

    pub fn reset_chain(&mut self)
        ensures
            final(self).chain_depth == 0,
            final(self).tiles@ == old(self).tiles@,
            final(self).entities@ == old(self).entities@,
    {
        self.chain_depth = 0;
    }

    pub fn reset_frame(&mut self)
        ensures
            final(self).tiles@.len() == 0,
            final(self).entities@ == Set::<u32>::empty(),
            final(self).chain_depth == 0,
    {
        self.tiles.clear();
        self.entities.clear();
        self.chain_depth = 0;
    }
}

/// The chain depth after one `note_hop`.
pub open spec fn hop(depth: u8) -> u8 {
    if depth == u8::MAX {
        u8::MAX
    } else {
        (depth + 1) as u8
    }
}

/// The chain depth after `n` hops since the last reset.
pub open spec fn depth_after_hops(n: nat) -> u8
    decreases n,
{
    if n == 0 {
        0
    } else {
        hop(depth_after_hops((n - 1) as nat))
    }
}

/// After a reset, a chain may take exactly `MAX_CHAIN_HOPS` hops:
/// `can_chain` holds before each of the first `MAX_CHAIN_HOPS` hops and
/// fails once they are taken, however many more are attempted.
pub proof fn lemma_chain_cap(n: nat)
    ensures
        (depth_after_hops(n) < MAX_CHAIN_HOPS) <==> (n < MAX_CHAIN_HOPS),
        n <= u8::MAX ==> depth_after_hops(n) == n,
    decreases n,
{
    if n > 0 {
        lemma_chain_cap((n - 1) as nat);
    }
}

/// A key of the interaction book, compared by value.
pub trait RuleKey: Copy + Sized {
    fn same_key(&self, other: &Self) -> (b: bool)
        ensures
            b == (*self == *other),
    ;
}

impl RuleKey for TagPair {
    fn same_key(&self, other: &Self) -> (b: bool) {
        self.0 == other.0 && self.1 == other.1
    }
}

/// Key of an event rule: the tag and the event.
#[derive(Clone, Copy, PartialEq, Eq, Structural, Hash, Debug)]
pub struct EventKey {
    pub tag: Tag,
    pub event: Event,
}

impl RuleKey for EventKey {
    fn same_key(&self, other: &Self) -> (b: bool) {
        self.tag == other.tag && self.event == other.event
    }
}

/// The rules a keyed list holds for `k` (none when absent).
pub open spec fn rules_at<K, R>(m: Map<K, Seq<R>>, k: K) -> Seq<R> {
    if m.contains_key(k) {
        m[k]
    } else {
        Seq::empty()
    }
}

/// The map a keyed rule list denotes (keys kept distinct).
pub open spec fn keyed_map<K, R>(s: Seq<(K, Vec<R>)>) -> Map<K, Seq<R>>
    decreases s.len(),
{
    if s.len() == 0 {
        Map::empty()
    } else {
        keyed_map(s.drop_last()).insert(s.last().0, s.last().1@)
    }
}

pub open spec fn distinct_keys<K, R>(s: Seq<(K, Vec<R>)>) -> bool {
    forall|i: int, j: int| 0 <= i < s.len() && 0 <= j < s.len() && i != j ==> #[trigger] s[i].0 != #[trigger] s[j].0
}

/// With distinct keys, entry `i` is what the map holds for its key, and
/// a key is present exactly when some entry carries it.
proof fn lemma_keyed_map<K, R>(s: Seq<(K, Vec<R>)>)
    requires
        distinct_keys(s),
    ensures
        forall|i: int| 0 <= i < s.len() ==> #[trigger] keyed_map(s)[s[i].0] == s[i].1@ && keyed_map(s).contains_key(s[i].0),
        forall|k: K| #[trigger] keyed_map(s).contains_key(k) ==> exists|i: int| 0 <= i < s.len() && s[i].0 == k,
    decreases s.len(),
{
    if s.len() > 0 {
        let p = s.drop_last();
        assert(distinct_keys(p)) by {
            assert forall|i: int, j: int| 0 <= i < p.len() && 0 <= j < p.len() && i != j implies #[trigger] p[i].0 != #[trigger] p[j].0 by {
                assert(p[i] == s[i] && p[j] == s[j]);
            }
        }
        lemma_keyed_map(p);
        assert(keyed_map(s) == keyed_map(p).insert(s.last().0, s.last().1@));
        assert forall|i: int| 0 <= i < s.len() implies #[trigger] keyed_map(s)[s[i].0] == s[i].1@ && keyed_map(s).contains_key(s[i].0) by {
            if i < s.len() - 1 {
                assert(p[i] == s[i]);
                assert(s[i].0 != s[s.len() - 1].0);
                assert(keyed_map(p)[p[i].0] == p[i].1@);
            }
        }
        assert forall|k: K| #[trigger] keyed_map(s).contains_key(k) implies exists|i: int| 0 <= i < s.len() && s[i].0 == k by {
            if k != s.last().0 {
                assert(keyed_map(p).contains_key(k));
                let i = choose|i: int| 0 <= i < p.len() && p[i].0 == k;
                assert(s[i] == p[i]);
            } else {
                assert(s[s.len() - 1].0 == k);
            }
        }
    }
}

/// Replacing an entry's rules (same key) replaces what the map holds
/// for that key.
proof fn lemma_keyed_map_update<K, R>(s: Seq<(K, Vec<R>)>, i: int, e: (K, Vec<R>))
    requires
        distinct_keys(s),
        0 <= i < s.len(),
        e.0 == s[i].0,
    ensures
        keyed_map(s.update(i, e)) == keyed_map(s).insert(e.0, e.1@),
        distinct_keys(s.update(i, e)),
    decreases s.len(),
{
    let t = s.update(i, e);
    assert(distinct_keys(t)) by {
        assert forall|a: int, b: int| 0 <= a < t.len() && 0 <= b < t.len() && a != b implies #[trigger] t[a].0 != #[trigger] t[b].0 by {
            assert(t[a].0 == s[a].0 && t[b].0 == s[b].0);
        }
    }
    let p = s.drop_last();
    if i == s.len() - 1 {
        assert(t.drop_last() =~= p);
        assert(keyed_map(t) =~= keyed_map(s).insert(e.0, e.1@));
    } else {
        assert(distinct_keys(p)) by {
            assert forall|a: int, b: int| 0 <= a < p.len() && 0 <= b < p.len() && a != b implies #[trigger] p[a].0 != #[trigger] p[b].0 by {
                assert(p[a] == s[a] && p[b] == s[b]);
            }
        }
        lemma_keyed_map_update(p, i, e);
        assert(t.drop_last() =~= p.update(i, e));
        assert(t.last() == s.last());
        assert(s.last().0 != e.0) by {
            assert(s[s.len() - 1].0 != s[i].0);
        }
        assert(keyed_map(t) =~= keyed_map(s).insert(e.0, e.1@));
    }
}

/// Index of key `k` in a keyed rule list, if present.
fn find_key<K: RuleKey, R>(s: &Vec<(K, Vec<R>)>, k: K) -> (r: Option<usize>)
    ensures
        match r {
            Some(i) => i < s@.len() && s@[i as int].0 == k,
            None => forall|i: int| 0 <= i < s@.len() ==> s@[i].0 != k,
        },
{
    let mut i: usize = 0;
    while i < s.len()
        invariant
            i <= s@.len(),
            forall|j: int| 0 <= j < i ==> s@[j].0 != k,
        decreases s@.len() - i,
    {
        if s[i].0.same_key(&k) {
            return Some(i);
        }
        i = i + 1;
    }
    None
}

/// Append `rule` to the rules kept under `k`.
fn push_rule<K: RuleKey, R>(s: &mut Vec<(K, Vec<R>)>, k: K, rule: R)
    requires
        distinct_keys(old(s)@),
    ensures
        distinct_keys(final(s)@),
        keyed_map(final(s)@) == keyed_map(old(s)@).insert(k, rules_at(keyed_map(old(s)@), k).push(rule)),
{
    proof {
        lemma_keyed_map(s@);
    }
    match find_key(s, k) {
        Some(i) => {
            let ghost before = s@;
            let (key, mut rules) = s.remove(i);
            rules.push(rule);
            s.insert(i, (key, rules));
            proof {
                assert(s@ =~= before.update(i as int, s@[i as int]));
                assert(before[i as int].0 == k);
                assert(keyed_map(before)[before[i as int].0] == before[i as int].1@);
                lemma_keyed_map_update(before, i as int, s@[i as int]);
            }
        },
        None => {
            let mut rules: Vec<R> = Vec::new();
            rules.push(rule);
            let ghost before = s@;
            s.push((k, rules));
            proof {
                assert(s@.drop_last() =~= before);
                assert(distinct_keys(s@)) by {
                    assert forall|a: int, b: int| 0 <= a < s@.len() && 0 <= b < s@.len() && a != b implies #[trigger] s@[a].0 != #[trigger] s@[b].0 by {
                        if a < before.len() && b < before.len() {
                            assert(s@[a] == before[a] && s@[b] == before[b]);
                        } else if a < before.len() {
                            assert(s@[a] == before[a]);
                        } else {
                            assert(s@[b] == before[b]);
                        }
                    }
                }
                assert(!keyed_map(before).contains_key(k)) by {
                    lemma_keyed_map(before);
                    if keyed_map(before).contains_key(k) {
                        let j = choose|j: int| 0 <= j < before.len() && before[j].0 == k;
                    }
                }
                assert(rules_at(keyed_map(before), k).push(rule) =~= rules@);
            }
        },
    }
}

/// The rules kept under `k`.
fn rules_for<K: RuleKey, R>(s: &Vec<(K, Vec<R>)>, k: K) -> (r: &[R])
    requires
        distinct_keys(s@),
    ensures
        r@ == rules_at(keyed_map(s@), k),
{
    proof {
        lemma_keyed_map(s@);
    }
    match find_key(s, k) {
        Some(i) => {
            assert(keyed_map(s@)[s@[i as int].0] == s@[i as int].1@);
            s[i].1.as_slice()
        },
        None => {
            proof {
                if keyed_map(s@).contains_key(k) {
                    let j = choose|j: int| 0 <= j < s@.len() && s@[j].0 == k;
                }
            }
            &[]
        },
    }
}

/// The interaction book: rules keyed on a sorted tag pair (contacts) or
/// on a tag and an event. Rules are appended from anywhere and kept in
/// registration order per key.
pub struct InteractionBook<R> {
    pair_rules: Vec<(TagPair, Vec<R>)>,
    event_rules: Vec<(EventKey, Vec<R>)>,
}

impl<R> InteractionBook<R> {
    pub closed spec fn wf(&self) -> bool {
        distinct_keys(self.pair_rules@) && distinct_keys(self.event_rules@)
    }

    /// Contact rules by sorted pair.
    pub closed spec fn pairs(&self) -> Map<TagPair, Seq<R>> {
        keyed_map(self.pair_rules@)
    }

    /// Event rules by (tag, event).
    pub closed spec fn events(&self) -> Map<EventKey, Seq<R>> {
        keyed_map(self.event_rules@)
    }

    /// The contact rules two tags meet under, whichever side came first.
    pub open spec fn contact_view(&self, table: &TagTable, a: Tag, b: Tag) -> Seq<R> {
        rules_at(self.pairs(), sorted_pair(table, a, b))
    }

    pub fn new() -> (b: Self)
        ensures
            b.wf(),
            b.pairs() == Map::<TagPair, Seq<R>>::empty(),
            b.events() == Map::<EventKey, Seq<R>>::empty(),
    {
        InteractionBook { pair_rules: Vec::new(), event_rules: Vec::new() }
    }

    /// Register a contact rule; both `(a, b)` and `(b, a)` contacts fire it.
    pub fn on_contact(&mut self, table: &TagTable, a: Tag, b: Tag, rule: R)
        requires
            old(self).wf(),
            table.holds(a),
            table.holds(b),
        ensures
            final(self).wf(),
            final(self).pairs() == old(self).pairs().insert(
                sorted_pair(table, a, b),
                old(self).contact_view(table, a, b).push(rule),
            ),
            final(self).events() == old(self).events(),
    {
        let key = TagPair::new(table, a, b);
        push_rule(&mut self.pair_rules, key, rule);
    }

    /// Register an event rule: fires when a thing with `tag` sees `event`.
    pub fn on_event(&mut self, tag: Tag, event: Event, rule: R)
        requires
            old(self).wf(),
        ensures
            final(self).wf(),
            final(self).events() == old(self).events().insert(
                EventKey { tag, event },
                rules_at(old(self).events(), EventKey { tag, event }).push(rule),
            ),
            final(self).pairs() == old(self).pairs(),
    {
        push_rule(&mut self.event_rules, EventKey { tag, event }, rule);
    }

    /// The rules for a contact between `a` and `b`.
    pub fn contact_rules(&self, table: &TagTable, a: Tag, b: Tag) -> (r: &[R])
        requires
            self.wf(),
            table.holds(a),
            table.holds(b),
        ensures
            r@ == self.contact_view(table, a, b),
    {
        let key = TagPair::new(table, a, b);
        rules_for(&self.pair_rules, key)
    }

    /// The rules for `tag` under `event`.
    pub fn event_rules(&self, tag: Tag, event: Event) -> (r: &[R])
        requires
            self.wf(),
        ensures
            r@ == rules_at(self.events(), EventKey { tag, event }),
    {
        rules_for(&self.event_rules, EventKey { tag, event })
    }
}

/// The rules a list of references points at.
pub open spec fn derefs<R>(s: Seq<&R>) -> Seq<R> {
    s.map_values(|r: &R| *r)
}

/// Every contact rule between a tag of `a` and a tag of `b`: for each tag
/// of `a` in order, each tag of `b` in order, its rules in order.
pub open spec fn all_contacts<R>(book: InteractionBook<R>, table: &TagTable, a: Seq<Tag>, b: Seq<Tag>) -> Seq<R>
    decreases a.len(),
{
    if a.len() == 0 {
        Seq::empty()
    } else {
        all_contacts(book, table, a.drop_last(), b) + contact_row(book, table, a.last(), b)
    }
}

/// The contact rules of one tag against each tag of `b`, in order.
pub open spec fn contact_row<R>(book: InteractionBook<R>, table: &TagTable, t: Tag, b: Seq<Tag>) -> Seq<R>
    decreases b.len(),
{
    if b.len() == 0 {
        Seq::empty()
    } else {
        contact_row(book, table, t, b.drop_last()) + book.contact_view(table, t, b.last())
    }
}

/// A contact is a contact: the rules for `a` meeting `b` are those for
/// `b` meeting `a`.
pub proof fn lemma_contact_symmetric<R>(book: &InteractionBook<R>, table: &TagTable, a: Tag, b: Tag)
    requires
        table.wf(),
        table.holds(a),
        table.holds(b),
    ensures
        book.contact_view(table, a, b) == book.contact_view(table, b, a),
{
    crate::tag::lemma_pair_order_insensitive(table, a, b);
}

impl<R> InteractionBook<R> {
    /// Append to `out` every contact rule matching a tag of `tags_a`
    /// against a tag of `tags_b`; a rule reached through several pairs
    /// is appended once per pair (matches may stack).
    pub fn collect_contact_rules<'s>(&'s self, table: &TagTable, tags_a: &TagSet, tags_b: &TagSet, out: &mut Vec<&'s R>)
        requires
            self.wf(),
            forall|i: int| 0 <= i < tags_a.tags@.len() ==> table.holds(#[trigger] tags_a.tags@[i]),
            forall|i: int| 0 <= i < tags_b.tags@.len() ==> table.holds(#[trigger] tags_b.tags@[i]),
        ensures
            derefs(final(out)@) == derefs(old(out)@) + all_contacts(*self, table, tags_a.tags@, tags_b.tags@),
    {
        let av = tags_a.iter();
        let bv = tags_b.iter();
        let mut i: usize = 0;
        while i < av.len()
            invariant
                self.wf(),
                av@ == tags_a.tags@,
                bv@ == tags_b.tags@,
                forall|k: int| 0 <= k < av@.len() ==> table.holds(#[trigger] av@[k]),
                forall|k: int| 0 <= k < bv@.len() ==> table.holds(#[trigger] bv@[k]),
                i <= av@.len(),
                derefs(out@) == derefs(old(out)@) + all_contacts(*self, table, av@.take(i as int), bv@),
            decreases av@.len() - i,
        {
            let a = av[i];
            let ghost mid = derefs(out@);
            let mut j: usize = 0;
            while j < bv.len()
                invariant
                    self.wf(),
                    bv@ == tags_b.tags@,
                    forall|k: int| 0 <= k < bv@.len() ==> table.holds(#[trigger] bv@[k]),
                    table.holds(a),
                    j <= bv@.len(),
                    derefs(out@) == mid + contact_row(*self, table, a, bv@.take(j as int)),
                decreases bv@.len() - j,
            {
                let rules = self.contact_rules(table, a, bv[j]);
                let ghost row_before = derefs(out@);
                let mut k: usize = 0;
                while k < rules.len()
                    invariant
                        k <= rules@.len(),
                        derefs(out@) == row_before + rules@.take(k as int),
                    decreases rules@.len() - k,
                {
                    let ghost prev = out@;
                    out.push(&rules[k]);
                    assert(derefs(out@) =~= derefs(prev).push(rules@[k as int]));
                    assert(row_before + rules@.take(k + 1) =~= (row_before + rules@.take(k as int)).push(rules@[k as int]));
                    k = k + 1;
                }
                assert(rules@.take(rules@.len() as int) =~= rules@);
                assert(bv@.take(j + 1).drop_last() =~= bv@.take(j as int));
                assert(derefs(out@) =~= mid + contact_row(*self, table, a, bv@.take(j + 1)));
                j = j + 1;
            }
            assert(bv@.take(bv@.len() as int) =~= bv@);
            assert(av@.take(i + 1).drop_last() =~= av@.take(i as int));
            assert(derefs(out@) =~= derefs(old(out)@) + all_contacts(*self, table, av@.take(i + 1), bv@));
            i = i + 1;
        }
        assert(av@.take(av@.len() as int) =~= av@);
    }
}

} // verus!
