//! Brand-bleed votes. During the Vote phase a kiosk stands for each
//! offered brand; a player votes by using a kiosk, one vote per player,
//! moving with them to whichever kiosk they used last. At phase end the
//! most-voted brand joins the active brand stack (the first offered on a
//! tie; a random offered one when nobody voted), replacing the default
//! brand the first time.
use crate::rng::gen_below;
use crate::text::{str_eq, string_push_str};
use rand::rngs::SmallRng;
use vstd::prelude::*;

verus! {

/// One kiosk's tally: its brand and who voted for it.
pub struct KioskTally {
    brand_id: String,
    votes: u32,
    voters: Vec<u32>,
}

/// The kiosks of one vote.
pub struct VoteBox {
    kiosks: Vec<KioskTally>,
}

proof fn lemma_remove_unique(s: Seq<u32>, j: int)
    requires
        s.no_duplicates(),
        0 <= j < s.len(),
    ensures
        s.remove(j).no_duplicates(),
        s.remove(j).to_set() == s.to_set().remove(s[j]),
{
    let r = s.remove(j);
    assert forall|a: int, b: int| 0 <= a < r.len() && 0 <= b < r.len() && a != b implies r[a] != r[b] by {
        let oa = if a < j { a } else { a + 1 };
        let ob = if b < j { b } else { b + 1 };
        assert(r[a] == s[oa] && r[b] == s[ob]);
    }
    assert forall|x: u32| #[trigger] r.to_set().contains(x) <==> s.to_set().remove(s[j]).contains(x) by {
        if r.contains(x) {
            let a = choose|a: int| 0 <= a < r.len() && r[a] == x;
            let oa = if a < j { a } else { a + 1 };
            assert(s[oa] == x);
            assert(oa != j);
        }
        if s.contains(x) && x != s[j] {
            let a = choose|a: int| 0 <= a < s.len() && s[a] == x;
            assert(a != j);
            let ra = if a < j { a } else { a - 1 };
            assert(r[ra] == x);
        }
    }
    assert(r.to_set() =~= s.to_set().remove(s[j]));
}

proof fn lemma_push_unique(s: Seq<u32>, p: u32)
    requires
        s.no_duplicates(),
        !s.contains(p),
    ensures
        s.push(p).no_duplicates(),
        s.push(p).to_set() == s.to_set().insert(p),
{
    let t = s.push(p);
    assert forall|a: int, b: int| 0 <= a < t.len() && 0 <= b < t.len() && a != b implies t[a] != t[b] by {
        if a < s.len() && b < s.len() {
            assert(t[a] == s[a] && t[b] == s[b]);
        } else if a < s.len() {
            assert(t[a] == s[a]);
            assert(s.contains(s[a]));
        } else {
            assert(t[b] == s[b]);
            assert(s.contains(s[b]));
        }
    }
    assert forall|x: u32| #[trigger] t.to_set().contains(x) <==> s.to_set().insert(p).contains(x) by {
        if t.contains(x) {
            let a = choose|a: int| 0 <= a < t.len() && t[a] == x;
            if a < s.len() {
                assert(s[a] == x);
            }
        }
        if s.contains(x) {
            let a = choose|a: int| 0 <= a < s.len() && s[a] == x;
            assert(t[a] == x);
        }
        if x == p {
            assert(t[s.len() as int] == p);
        }
    }
    assert(t.to_set() =~= s.to_set().insert(p));
}

impl KioskTally {
    pub closed spec fn ok(&self) -> bool {
        &&& self.voters@.no_duplicates()
        &&& self.votes == self.voters@.len()
    }
}

/// Where `p` sits in `v`, if it is there.
fn position(v: &Vec<u32>, p: u32) -> (r: Option<usize>)
    ensures
        match r {
            Some(j) => j < v@.len() && v@[j as int] == p,
            None => !v@.contains(p),
        },
{
    let mut j: usize = 0;
    while j < v.len()
        invariant
            j <= v@.len(),
            forall|k: int| 0 <= k < j ==> v@[k] != p,
        decreases v@.len() - j,
    {
        if v[j] == p {
            return Some(j);
        }
        j = j + 1;
    }
    None
}

impl VoteBox {
    /// Every tally counts its distinct voters, and no player is in two
    /// tallies.
    pub closed spec fn wf(&self) -> bool {
        &&& forall|i: int| 0 <= i < self.kiosks@.len() ==> (#[trigger] self.kiosks@[i]).ok()
        &&& forall|i: int, j: int, p: u32|
            0 <= i < self.kiosks@.len() && 0 <= j < self.kiosks@.len() && i != j
                && #[trigger] self.kiosks@[i].voters@.contains(p) ==> !#[trigger] self.kiosks@[j].voters@.contains(p)
    }

    pub closed spec fn count(&self) -> nat {
        self.kiosks@.len()
    }

    /// Kiosk `i`'s brand.
    pub closed spec fn brand(&self, i: int) -> Seq<char> {
        self.kiosks@[i].brand_id@
    }

    /// The players whose vote is on kiosk `i`.
    pub closed spec fn voters(&self, i: int) -> Set<u32> {
        self.kiosks@[i].voters@.to_set()
    }

    /// Kiosk `i`'s vote count.
    pub closed spec fn votes(&self, i: int) -> u32 {
        self.kiosks@[i].votes
    }

    /// One kiosk per brand offered, in order, with no votes.
    pub fn new(brand_ids: &[String]) -> (b: Self)
        ensures
            b.wf(),
            b.count() == brand_ids@.len(),
            forall|i: int| 0 <= i < brand_ids@.len() ==> #[trigger] b.brand(i) == brand_ids@[i]@ && b.voters(i)
                == Set::<u32>::empty(),
    {
        let mut kiosks: Vec<KioskTally> = Vec::new();
        let mut i: usize = 0;
        while i < brand_ids.len()
            invariant
                i <= brand_ids@.len(),
                kiosks@.len() == i,
                forall|k: int| 0 <= k < i ==> (#[trigger] kiosks@[k]).brand_id@ == brand_ids@[k]@ && kiosks@[k].voters@
                    == Seq::<u32>::empty() && kiosks@[k].votes == 0,
            decreases brand_ids@.len() - i,
        {
            let mut id = String::new();
            string_push_str(&mut id, brand_ids[i].as_str());
            kiosks.push(KioskTally { brand_id: id, votes: 0, voters: Vec::new() });
            i = i + 1;
        }
        let b = VoteBox { kiosks };
        assert forall|k: int| 0 <= k < brand_ids@.len() implies #[trigger] b.brand(k) == brand_ids@[k]@ && b.voters(k)
            == Set::<u32>::empty() by {
            assert(b.kiosks@[k].voters@.to_set() =~= Set::<u32>::empty());
        }
        b
    }

    pub fn len(&self) -> (n: usize)
        ensures
            n == self.count(),
    {
        self.kiosks.len()
    }

    /// Kiosk `i`'s brand and votes.
    pub fn tally(&self, i: usize) -> (r: (&str, u32))
        requires
            i < self.count(),
        ensures
            r.0@ == self.brand(i as int),
            r.1 == self.votes(i as int),
    {
        (self.kiosks[i].brand_id.as_str(), self.kiosks[i].votes)
    }

    /// Player `player_id` votes on kiosk `kiosk_idx`: their vote leaves
    /// every other kiosk and lands on this one (once). An index past the
    /// kiosks only withdraws the vote.
    pub fn register_vote(&mut self, player_id: u32, kiosk_idx: usize)
        requires
            old(self).wf(),
            kiosk_idx < old(self).count() ==> old(self).voters(kiosk_idx as int).len() < u32::MAX,
        ensures
            final(self).wf(),
            final(self).count() == old(self).count(),
            forall|i: int| 0 <= i < old(self).count() ==> #[trigger] final(self).brand(i) == old(self).brand(i),
            forall|i: int|
                0 <= i < old(self).count() && i != kiosk_idx ==> #[trigger] final(self).voters(i)
                    == old(self).voters(i).remove(player_id),
            kiosk_idx < old(self).count() ==> final(self).voters(kiosk_idx as int) == old(self).voters(
                kiosk_idx as int,
            ).insert(player_id),
    {
        let n = self.kiosks.len();
        let mut i: usize = 0;
        while i < n
            invariant
                i <= n,
                n == old(self).kiosks@.len(),
                self.kiosks@.len() == n,
                old(self).wf(),
                forall|k: int| 0 <= k < n ==> (#[trigger] self.kiosks@[k]).ok(),
                forall|k: int| 0 <= k < n ==> #[trigger] self.kiosks@[k].brand_id@ == old(self).kiosks@[k].brand_id@,
                forall|k: int, p: u32|
                    0 <= k < n && #[trigger] self.kiosks@[k].voters@.contains(p) ==> old(self).kiosks@[k].voters@.contains(p),
                forall|k: int|
                    0 <= k < i && k != kiosk_idx ==> #[trigger] self.kiosks@[k].voters@.to_set() == old(
                        self,
                    ).kiosks@[k].voters@.to_set().remove(player_id),
                forall|k: int| 0 <= k < n && (i <= k || k == kiosk_idx) ==> #[trigger] self.kiosks@[k] == old(self).kiosks@[k],
            decreases n - i,
        {
            if i != kiosk_idx {
                match position(&self.kiosks[i].voters, player_id) {
                    Some(j) => {
                        let mut k = KioskTally { brand_id: String::new(), votes: 0, voters: Vec::new() };
                        core::mem::swap(&mut self.kiosks[i], &mut k);
                        let ghost before = k.voters@;
                        proof {
                            lemma_remove_unique(before, j as int);
                        }
                        k.voters.remove(j);
                        k.votes = k.votes - 1;
                        self.kiosks.set(i, k);
                    },
                    None => {
                        assert(self.kiosks@[i as int].voters@.to_set() =~= old(self).kiosks@[i as int].voters@.to_set().remove(
                            player_id,
                        ));
                    },
                }
            }
            i = i + 1;
        }
        if kiosk_idx < n {
            if position(&self.kiosks[kiosk_idx].voters, player_id).is_none() {
                let mut k = KioskTally { brand_id: String::new(), votes: 0, voters: Vec::new() };
                core::mem::swap(&mut self.kiosks[kiosk_idx], &mut k);
                let ghost before = k.voters@;
                proof {
                    lemma_push_unique(before, player_id);
                    before.unique_seq_to_set();
                }
                k.voters.push(player_id);
                k.votes = k.votes + 1;
                self.kiosks.set(kiosk_idx, k);
            } else {
                assert(self.kiosks@[kiosk_idx as int].voters@.to_set() =~= old(self).kiosks@[kiosk_idx as int].voters@.to_set().insert(
                    player_id,
                ));
            }
        }
        assert forall|a: int, b: int, p: u32|
            0 <= a < n && 0 <= b < n && a != b && #[trigger] self.kiosks@[a].voters@.contains(p) implies !#[trigger] self.kiosks@[b].voters@.contains(
                p,
            ) by {
            if p == player_id {
                if a != kiosk_idx {
                    assert(!self.kiosks@[a].voters@.to_set().contains(p));
                }
                if b != kiosk_idx {
                    assert(!self.kiosks@[b].voters@.to_set().contains(p));
                }
            } else {
                if a == kiosk_idx {
                    assert(self.kiosks@[a].voters@.to_set().contains(p));
                    assert(old(self).kiosks@[a].voters@.to_set().contains(p));
                }
                if b == kiosk_idx && self.kiosks@[b].voters@.contains(p) {
                    assert(self.kiosks@[b].voters@.to_set().contains(p));
                    assert(old(self).kiosks@[b].voters@.to_set().contains(p));
                }
            }
        }
    }

    /// The first kiosk with the most votes, if any kiosk has a vote.
    pub fn leader(&self) -> (r: Option<usize>)
        ensures
            match r {
                Some(i) => i < self.count() && self.votes(i as int) > 0 && (forall|k: int|
                    0 <= k < self.count() ==> #[trigger] self.votes(k) <= self.votes(i as int)) && (forall|k: int|
                    0 <= k < i ==> #[trigger] self.votes(k) < self.votes(i as int)),
                None => forall|k: int| 0 <= k < self.count() ==> #[trigger] self.votes(k) == 0,
            },
    {
        let mut best: usize = 0;
        let mut top: u32 = 0;
        let mut i: usize = 0;
        while i < self.kiosks.len()
            invariant
                i <= self.kiosks@.len(),
                forall|k: int| 0 <= k < i ==> #[trigger] self.kiosks@[k].votes <= top,
                top > 0 ==> best < i && self.kiosks@[best as int].votes == top && forall|k: int|
                    0 <= k < best ==> #[trigger] self.kiosks@[k].votes < top,
            decreases self.kiosks@.len() - i,
        {
            if self.kiosks[i].votes > top {
                top = self.kiosks[i].votes;
                best = i;
            }
            i = i + 1;
        }
        if top == 0 {
            None
        } else {
            Some(best)
        }
    }

    /// The brand the vote adds: the leader's, or, when nobody voted, an
    /// offered brand drawn at random; none without kiosks.
    pub fn resolve(&self, rng: &mut SmallRng) -> (r: Option<String>)
        ensures
            self.count() == 0 <==> r is None,
            r matches Some(b) ==> exists|i: int| 0 <= i < self.count() && #[trigger] self.brand(i) == b@,
            (exists|k: int| 0 <= k < self.count() && #[trigger] self.votes(k) > 0) ==> (r matches Some(b)
                && exists|i: int|
                0 <= i < self.count() && #[trigger] self.brand(i) == b@ && self.votes(i) > 0 && (forall|k: int|
                    0 <= k < self.count() ==> #[trigger] self.votes(k) <= self.votes(i)) && (forall|k: int|
                    0 <= k < i ==> #[trigger] self.votes(k) < self.votes(i))),
    {
        if self.kiosks.len() == 0 {
            return None;
        }
        let i = match self.leader() {
            Some(i) => i,
            None => {
                let n: u32 = if self.kiosks.len() > u32::MAX as usize {
                    u32::MAX
                } else {
                    self.kiosks.len() as u32
                };
                gen_below(rng, n) as usize
            },
        };
        let mut b = String::new();
        string_push_str(&mut b, self.kiosks[i].brand_id.as_str());
        assert(self.brand(i as int) == b@);
        Some(b)
    }
}

/// The player votes on at most one kiosk, and each kiosk's count is the
/// number of players voting on it.
pub proof fn lemma_one_vote_per_player(vb: &VoteBox, p: u32, i: int, j: int)
    requires
        vb.wf(),
        0 <= i < vb.count(),
        0 <= j < vb.count(),
        i != j,
    ensures
        !(vb.voters(i).contains(p) && vb.voters(j).contains(p)),
        vb.votes(i) == vb.voters(i).len(),
{
    vb.kiosks@[i].voters@.unique_seq_to_set();
    if vb.voters(i).contains(p) && vb.voters(j).contains(p) {
        assert(vb.kiosks@[i].voters@.contains(p));
        assert(vb.kiosks@[j].voters@.contains(p));
    }
}

/// The run's active brands: the default brand until the first vote adds
/// one, then the voted brands in order, none twice.
pub struct BrandStack {
    brands: Vec<String>,
    default_active: bool,
}

impl BrandStack {
    pub closed spec fn view(&self) -> Seq<Seq<char>> {
        self.brands@.map_values(|s: String| s@)
    }

    /// The stack still holds only the default brand.
    pub closed spec fn on_default(&self) -> bool {
        self.default_active
    }

    pub closed spec fn wf(&self) -> bool {
        self@.no_duplicates()
    }

    /// A stack holding the default brand.
    pub fn new(default_brand: &str) -> (s: Self)
        ensures
            s.wf(),
            s@ == seq![default_brand@],
            s.on_default(),
    {
        let mut b = String::new();
        string_push_str(&mut b, default_brand);
        let mut brands: Vec<String> = Vec::new();
        brands.push(b);
        let s = BrandStack { brands, default_active: true };
        assert(s@ =~= seq![default_brand@]);
        s
    }

    /// The brands, in order.
    pub fn brands(&self) -> (v: &Vec<String>)
        ensures
            v@.map_values(|s: String| s@) == self@,
    {
        &self.brands
    }

    /// Add the vote's brand: nothing for an empty id or a brand already
    /// active; otherwise the first adoption replaces the default brand,
    /// later ones stack on top.
    pub fn adopt(&mut self, picked: &str)
        requires
            old(self).wf(),
        ensures
            final(self).wf(),
            (picked@.len() == 0 || old(self)@.contains(picked@)) ==> final(self)@ == old(self)@
                && final(self).on_default() == old(self).on_default(),
            !(picked@.len() == 0 || old(self)@.contains(picked@)) ==> !final(self).on_default() && final(self)@
                == (if old(self).on_default() {
                seq![picked@]
            } else {
                old(self)@.push(picked@)
            }),
    {
        if crate::text::chars_of(picked).len() == 0 {
            return;
        }
        let mut i: usize = 0;
        while i < self.brands.len()
            invariant
                i <= self.brands@.len(),
                self.brands@ == old(self).brands@,
                self.default_active == old(self).default_active,
                old(self).wf(),
                forall|k: int| 0 <= k < i ==> self.brands@[k]@ != picked@,
            decreases self.brands@.len() - i,
        {
            if str_eq(self.brands[i].as_str(), picked) {
                assert(self@[i as int] == picked@);
                return;
            }
            i = i + 1;
        }
        assert(!self@.contains(picked@)) by {
            if self@.contains(picked@) {
                let k = choose|k: int| 0 <= k < self@.len() && self@[k] == picked@;
                assert(self.brands@[k]@ == picked@);
            }
        }
        if self.default_active {
            self.brands.clear();
            self.default_active = false;
        }
        let ghost before = self@;
        assert(before == old(self)@ || before =~= Seq::<Seq<char>>::empty());
        assert(before.no_duplicates());
        assert(!before.contains(picked@));
        let mut b = String::new();
        string_push_str(&mut b, picked);
        self.brands.push(b);
        assert(self@ =~= before.push(picked@));
        proof {
            assert forall|a: int, c: int| 0 <= a < self@.len() && 0 <= c < self@.len() && a != c implies self@[a]
                != self@[c] by {
                if a < before.len() && c < before.len() {
                    assert(self@[a] == before[a] && self@[c] == before[c]);
                } else if a < before.len() {
                    assert(self@[a] == before[a]);
                    assert(before.contains(before[a]));
                } else {
                    assert(self@[c] == before[c]);
                    assert(before.contains(before[c]));
                }
            }
        }
    }
}

/// A voted brand ends up active, and the stack never holds a brand
/// twice.
pub proof fn lemma_adopted_brand_is_active(before: Seq<Seq<char>>, after: Seq<Seq<char>>, on_default: bool, picked: Seq<char>)
    requires
        before.no_duplicates(),
        picked.len() > 0,
        (before.contains(picked)) ==> after == before,
        !before.contains(picked) ==> after == (if on_default {
            seq![picked]
        } else {
            before.push(picked)
        }),
    ensures
        after.contains(picked),
{
    if !before.contains(picked) {
        if on_default {
            assert(after[0] == picked);
        } else {
            assert(after[before.len() as int] == picked);
        }
    }
}

} // verus!
