//! Single-owner cell reservation registry.
//!
//! Maps grid cells to the id of the actor that reserved them. The registry
//! keeps at most one entry per cell; claims are gated by the caller (the
//! motion state machine), releases are guarded against stale owners, and a
//! deferred sweep purges entries left behind by despawned actors.

use vstd::prelude::*;
use crate::coords::GridVec;

verus! {

/// `(c, id)` is one of the entries of `s`.
pub open spec fn holds_pair(s: Seq<(GridVec, u64)>, c: GridVec, id: u64) -> bool {
    exists|i: int| 0 <= i < s.len() && s[i] == (c, id)
}

/// Some entry of `s` reserves cell `c`.
pub open spec fn occupied(s: Seq<(GridVec, u64)>, c: GridVec) -> bool {
    exists|i: int| 0 <= i < s.len() && s[i].0 == c
}

/// No cell appears in two entries: at most one owner per cell.
pub open spec fn cells_unique(s: Seq<(GridVec, u64)>) -> bool {
    forall|i: int, j: int| 0 <= i < j < s.len() ==> s[i].0 != s[j].0
}

/// `i` is the first entry reserving `c`.
pub open spec fn is_first_match(s: Seq<(GridVec, u64)>, c: GridVec, i: int) -> bool {
    0 <= i < s.len() && s[i].0 == c && (forall|j: int| 0 <= j < i ==> s[j].0 != c)
}

/// Index of the first entry reserving `c` (meaningful when `occupied`).
pub open spec fn first_cell_idx(s: Seq<(GridVec, u64)>, c: GridVec) -> int {
    choose|i: int| is_first_match(s, c, i)
}

/// The reserving actor of cell `c`, if any.
pub open spec fn owner_of(s: Seq<(GridVec, u64)>, c: GridVec) -> Option<u64> {
    if occupied(s, c) {
        Some(s[first_cell_idx(s, c)].1)
    } else {
        None
    }
}

/// Result of inserting `c -> id`: an existing entry for `c` is replaced.
pub open spec fn spec_claim(s: Seq<(GridVec, u64)>, c: GridVec, id: u64) -> Seq<(GridVec, u64)> {
    if occupied(s, c) {
        s.remove(first_cell_idx(s, c)).push((c, id))
    } else {
        s.push((c, id))
    }
}

/// Result of removing the entry for `c`, but only when `id` owns it: a stale
/// release never evicts a newer occupant.
pub open spec fn spec_release(s: Seq<(GridVec, u64)>, c: GridVec, id: u64) -> Seq<(GridVec, u64)> {
    if occupied(s, c) && s[first_cell_idx(s, c)].1 == id {
        s.remove(first_cell_idx(s, c))
    } else {
        s
    }
}

/// Result of removing every entry whose owner is in `gone`.
pub open spec fn spec_sweep(s: Seq<(GridVec, u64)>, gone: Seq<u64>) -> Seq<(GridVec, u64)>
    decreases s.len(),
{
    if s.len() == 0 {
        Seq::empty()
    } else {
        let rest = spec_sweep(s.drop_last(), gone);
        if gone.contains(s.last().1) {
            rest
        } else {
            rest.push(s.last())
        }
    }
}

/// There is a first match whenever the cell is occupied at all.
pub proof fn lemma_first_match_exists(s: Seq<(GridVec, u64)>, c: GridVec)
    requires
        occupied(s, c),
    ensures
        is_first_match(s, c, first_cell_idx(s, c)),
{
    let k = choose|k: int| 0 <= k < s.len() && s[k].0 == c;
    lemma_first_match_from_witness(s, c, k);
    assert(exists|i: int| is_first_match(s, c, i));
}

proof fn lemma_first_match_from_witness(s: Seq<(GridVec, u64)>, c: GridVec, k: int)
    requires
        0 <= k < s.len(),
        s[k].0 == c,
    ensures
        exists|i: int| is_first_match(s, c, i),
    decreases k,
{
    if forall|j: int| 0 <= j < k ==> s[j].0 != c {
        assert(is_first_match(s, c, k));
    } else {
        let j = choose|j: int| 0 <= j < k && s[j].0 == c;
        lemma_first_match_from_witness(s, c, j);
    }
}

/// Two first matches are the same index.
pub proof fn lemma_first_match_unique(s: Seq<(GridVec, u64)>, c: GridVec, i1: int, i2: int)
    requires
        is_first_match(s, c, i1),
        is_first_match(s, c, i2),
    ensures
        i1 == i2,
{
}

/// With unique cells, a cell determines its owner: the single-owner law.
pub proof fn lemma_single_owner(s: Seq<(GridVec, u64)>, c: GridVec, id1: u64, id2: u64)
    requires
        cells_unique(s),
        holds_pair(s, c, id1),
        holds_pair(s, c, id2),
    ensures
        id1 == id2,
{
    let i1 = choose|i: int| 0 <= i < s.len() && s[i] == (c, id1);
    let i2 = choose|i: int| 0 <= i < s.len() && s[i] == (c, id2);
    assert(i1 == i2);
}

/// With unique cells, `holds_pair` and `owner_of` agree.
pub proof fn lemma_owner_is_pair(s: Seq<(GridVec, u64)>, c: GridVec, id: u64)
    requires
        cells_unique(s),
    ensures
        holds_pair(s, c, id) <==> owner_of(s, c) == Some(id),
{
    if holds_pair(s, c, id) {
        let i = choose|i: int| 0 <= i < s.len() && s[i] == (c, id);
        lemma_first_match_exists(s, c);
        let f = first_cell_idx(s, c);
        assert(s[f].0 == c);
        assert(i == f || s[f].1 == id);
    }
    if occupied(s, c) {
        lemma_first_match_exists(s, c);
        let f = first_cell_idx(s, c);
        assert(s[f] == (c, s[f].1));
        assert(holds_pair(s, c, s[f].1));
    }
}

/// The cell -> owner map after a claim: `c` now maps to `id`, other cells are
/// untouched, and uniqueness is preserved.
pub proof fn lemma_claim_effect(s: Seq<(GridVec, u64)>, c: GridVec, id: u64)
    requires
        cells_unique(s),
    ensures
        cells_unique(spec_claim(s, c, id)),
        holds_pair(spec_claim(s, c, id), c, id),
        forall|c2: GridVec, id2: u64|
            c2 != c ==> (holds_pair(spec_claim(s, c, id), c2, id2) <==> holds_pair(s, c2, id2)),
        forall|id2: u64| holds_pair(spec_claim(s, c, id), c, id2) ==> id2 == id,
    {
    let s2 = spec_claim(s, c, id);
    if occupied(s, c) {
        lemma_first_match_exists(s, c);
        let f = first_cell_idx(s, c);
        let r = s.remove(f);
        assert(forall|j: int| 0 <= j < r.len() ==> r[j] == (if j < f { s[j] } else { s[j + 1] }));
        assert(s2 =~= r.push((c, id)));
        assert(holds_pair(s2, c, id)) by {
            assert(s2[r.len() as int] == (c, id));
        }
        assert forall|c2: GridVec, id2: u64|
            c2 != c && holds_pair(s, c2, id2) implies holds_pair(s2, c2, id2) by {
            let i = choose|i: int| 0 <= i < s.len() && s[i] == (c2, id2);
            assert(i != f);
            if i < f {
                assert(s2[i] == (c2, id2));
            } else {
                assert(s2[i - 1] == (c2, id2));
            }
        }
        assert forall|c2: GridVec, id2: u64|
            c2 != c && holds_pair(s2, c2, id2) implies holds_pair(s, c2, id2) by {
            let i = choose|i: int| 0 <= i < s2.len() && s2[i] == (c2, id2);
            assert(i < r.len());
            if i < f {
                assert(s[i] == (c2, id2));
            } else {
                assert(s[i + 1] == (c2, id2));
            }
        }
        assert(forall|j: int| 0 <= j < r.len() ==> r[j].0 != c);
        assert(cells_unique(s2));
        assert(forall|id2: u64| holds_pair(s2, c, id2) ==> id2 == id) by {
            assert forall|id2: u64| holds_pair(s2, c, id2) implies id2 == id by {
                let i = choose|i: int| 0 <= i < s2.len() && s2[i] == (c, id2);
                assert(i == r.len());
            }
        }
    } else {
        assert(s2 =~= s.push((c, id)));
        assert(s2[s.len() as int] == (c, id));
        assert forall|c2: GridVec, id2: u64|
            c2 != c && holds_pair(s2, c2, id2) implies holds_pair(s, c2, id2) by {
            let i = choose|i: int| 0 <= i < s2.len() && s2[i] == (c2, id2);
            assert(i < s.len());
        }
        assert forall|c2: GridVec, id2: u64|
            c2 != c && holds_pair(s, c2, id2) implies holds_pair(s2, c2, id2) by {
            let i = choose|i: int| 0 <= i < s.len() && s[i] == (c2, id2);
            assert(s2[i] == (c2, id2));
        }
        assert(forall|j: int| 0 <= j < s.len() ==> s[j].0 != c);
        assert(cells_unique(s2));
        assert forall|id2: u64| holds_pair(s2, c, id2) implies id2 == id by {
            let i = choose|i: int| 0 <= i < s2.len() && s2[i] == (c, id2);
            assert(i == s.len());
        }
    }
}

/// The cell -> owner map after a guarded release: if `id` owned `c` the entry
/// is gone, otherwise nothing changes; other cells are untouched.
pub proof fn lemma_release_effect(s: Seq<(GridVec, u64)>, c: GridVec, id: u64)
    requires
        cells_unique(s),
    ensures
        cells_unique(spec_release(s, c, id)),
        holds_pair(s, c, id) ==> !occupied(spec_release(s, c, id), c),
        !holds_pair(s, c, id) ==> spec_release(s, c, id) == s,
        forall|c2: GridVec, id2: u64|
            c2 != c ==> (holds_pair(spec_release(s, c, id), c2, id2) <==> holds_pair(s, c2, id2)),
{
    lemma_owner_is_pair(s, c, id);
    let s2 = spec_release(s, c, id);
    if occupied(s, c) && s[first_cell_idx(s, c)].1 == id {
        lemma_first_match_exists(s, c);
        let f = first_cell_idx(s, c);
        assert(forall|j: int| 0 <= j < s2.len() ==> s2[j] == (if j < f { s[j] } else { s[j + 1] }));
        assert(cells_unique(s2));
        assert(holds_pair(s, c, id)) by {
            assert(s[f] == (c, id));
        }
        assert(!occupied(s2, c)) by {
            if occupied(s2, c) {
                let i = choose|i: int| 0 <= i < s2.len() && s2[i].0 == c;
                if i < f {
                    assert(s[i].0 == c);
                } else {
                    assert(s[i + 1].0 == c);
                }
            }
        }
        assert forall|c2: GridVec, id2: u64|
            c2 != c && holds_pair(s, c2, id2) implies holds_pair(s2, c2, id2) by {
            let i = choose|i: int| 0 <= i < s.len() && s[i] == (c2, id2);
            assert(i != f);
            if i < f {
                assert(s2[i] == (c2, id2));
            } else {
                assert(s2[i - 1] == (c2, id2));
            }
        }
        assert forall|c2: GridVec, id2: u64|
            c2 != c && holds_pair(s2, c2, id2) implies holds_pair(s, c2, id2) by {
            let i = choose|i: int| 0 <= i < s2.len() && s2[i] == (c2, id2);
            if i < f {
                assert(s[i] == (c2, id2));
            } else {
                assert(s[i + 1] == (c2, id2));
            }
        }
    } else {
        if holds_pair(s, c, id) {
            lemma_first_match_exists(s, c);
            lemma_single_owner(s, c, id, s[first_cell_idx(s, c)].1);
            assert(holds_pair(s, c, s[first_cell_idx(s, c)].1)) by {
                let f = first_cell_idx(s, c);
                assert(s[f] == (c, s[f].1));
            }
        }
    }
}

/// Every entry that survives a sweep is an entry of the original registry.
pub proof fn lemma_sweep_subset(s: Seq<(GridVec, u64)>, gone: Seq<u64>)
    ensures
        forall|c: GridVec, id: u64|
            holds_pair(spec_sweep(s, gone), c, id)
                <==> (holds_pair(s, c, id) && !gone.contains(id)),
    decreases s.len(),
{
    if s.len() == 0 {
    } else {
        let pre = s.drop_last();
        lemma_sweep_subset(pre, gone);
        let s2 = spec_sweep(s, gone);
        let r = spec_sweep(pre, gone);
        assert forall|c: GridVec, id: u64|
            holds_pair(s2, c, id) implies (holds_pair(s, c, id) && !gone.contains(id)) by {
            let i = choose|i: int| 0 <= i < s2.len() && s2[i] == (c, id);
            if i < r.len() {
                assert(r[i] == (c, id));
                assert(holds_pair(r, c, id));
                assert(holds_pair(pre, c, id));
                let j = choose|j: int| 0 <= j < pre.len() && pre[j] == (c, id);
                assert(s[j] == (c, id));
            } else {
                assert(s2[i] == s.last());
                assert(s[s.len() - 1] == (c, id));
            }
        }
        assert forall|c: GridVec, id: u64|
            holds_pair(s, c, id) && !gone.contains(id) implies holds_pair(s2, c, id) by {
            let i = choose|i: int| 0 <= i < s.len() && s[i] == (c, id);
            if i < s.len() - 1 {
                assert(pre[i] == (c, id));
                assert(holds_pair(pre, c, id));
                assert(holds_pair(r, c, id));
                let j = choose|j: int| 0 <= j < r.len() && r[j] == (c, id);
                assert(s2[j] == (c, id));
            } else {
                assert(!gone.contains(s.last().1));
                assert(s2[s2.len() - 1] == (c, id));
            }
        }
    }
}

/// A sweep keeps cells unique.
pub proof fn lemma_sweep_unique(s: Seq<(GridVec, u64)>, gone: Seq<u64>)
    requires
        cells_unique(s),
    ensures
        cells_unique(spec_sweep(s, gone)),
    decreases s.len(),
{
    if s.len() == 0 {
    } else {
        let pre = s.drop_last();
        assert(cells_unique(pre)) by {
            assert(forall|i: int| 0 <= i < pre.len() ==> pre[i] == s[i]);
        }
        lemma_sweep_unique(pre, gone);
        lemma_sweep_subset(pre, gone);
        let s2 = spec_sweep(s, gone);
        let r = spec_sweep(pre, gone);
        if !gone.contains(s.last().1) {
            assert forall|i: int, j: int| 0 <= i < j < s2.len() implies s2[i].0 != s2[j].0 by {
                if j < r.len() {
                } else {
                    assert(s2[j] == s.last());
                    assert(holds_pair(r, r[i].0, r[i].1)) by {
                        assert(r[i] == (r[i].0, r[i].1));
                    }
                    assert(holds_pair(pre, r[i].0, r[i].1));
                    let k = choose|k: int| 0 <= k < pre.len() && pre[k] == (r[i].0, r[i].1);
                    assert(s[k].0 == r[i].0);
                    assert(s[k].0 != s[s.len() - 1].0);
                }
            }
        }
    }
}

/// The reservation registry: a table of `(cell, owner)` entries with at most
/// one entry per cell.
pub struct Registry {
    entries: Vec<(GridVec, u64)>,
}

impl View for Registry {
    type V = Seq<(GridVec, u64)>;

    closed spec fn view(&self) -> Seq<(GridVec, u64)> {
        self.entries@
    }
}

impl Registry {
    /// At most one owner per cell.
    pub open spec fn wf(self) -> bool {
        cells_unique(self@)
    }

    pub fn new() -> (r: Registry)
        ensures
            r.wf(),
            r@.len() == 0,
    {
        Registry { entries: Vec::new() }
    }

    pub fn len(&self) -> (r: usize)
        ensures
            r == self@.len(),
    {
        self.entries.len()
    }

    /// Who currently reserves `pos`, if anyone.
    pub fn occupant(&self, pos: GridVec) -> (r: Option<u64>)
        ensures
            r == owner_of(self@, pos),
            r is None ==> !occupied(self@, pos),
            match r {
                Some(id) => holds_pair(self@, pos, id),
                None => true,
            },
    {
        let n: usize = self.entries.len();
        let mut i: usize = 0;
        while i < n
            invariant
                n == self@.len(),
                0 <= i <= n,
                forall|j: int| 0 <= j < i ==> self@[j].0 != pos,
            decreases n - i,
        {
            let e = self.entries[i];
            if e.0.x == pos.x && e.0.y == pos.y {
                proof {
                    assert(e.0 == pos);
                    assert(is_first_match(self@, pos, i as int));
                    lemma_first_match_unique(self@, pos, i as int, first_cell_idx(self@, pos));
                    assert(self@[i as int] == (pos, e.1));
                }
                return Some(e.1);
            }
            i = i + 1;
        }
        proof {
            if occupied(self@, pos) {
                let k = choose|k: int| 0 <= k < self@.len() && self@[k].0 == pos;
                assert(false);
            }
        }
        None
    }

    /// Insert `pos -> id`, replacing any previous entry for `pos`. Exclusivity
    /// is the caller's responsibility: the motion state machine only claims a
    /// cell it verified to be free or already its own.
    pub fn claim(&mut self, pos: GridVec, id: u64)
        requires
            old(self).wf(),
        ensures
            final(self).wf(),
            final(self)@ == spec_claim(old(self)@, pos, id),
    {
        let ghost s0 = self@;
        let n: usize = self.entries.len();
        let mut i: usize = 0;
        while i < n
            invariant
                n == self@.len(),
                self@ == s0,
                s0 == old(self)@,
                cells_unique(s0),
                0 <= i <= n,
                forall|j: int| 0 <= j < i ==> self@[j].0 != pos,
            decreases n - i,
        {
            let e = self.entries[i];
            if e.0.x == pos.x && e.0.y == pos.y {
                proof {
                    assert(e.0 == pos);
                    assert(is_first_match(s0, pos, i as int));
                    lemma_first_match_exists(s0, pos);
                    lemma_first_match_unique(s0, pos, i as int, first_cell_idx(s0, pos));
                }
                self.entries.remove(i);
                self.entries.push((pos, id));
                proof {
                    lemma_claim_effect(s0, pos, id);
                }
                return;
            }
            i = i + 1;
        }
        proof {
            if occupied(s0, pos) {
                let k = choose|k: int| 0 <= k < s0.len() && s0[k].0 == pos;
                assert(false);
            }
        }
        self.entries.push((pos, id));
        proof {
            lemma_claim_effect(s0, pos, id);
        }
    }

    /// Remove the entry for `pos` only if `id` owns it; a stale release from
    /// a previous occupant is silently ignored.
    pub fn release(&mut self, pos: GridVec, id: u64)
        requires
            old(self).wf(),
        ensures
            final(self).wf(),
            final(self)@ == spec_release(old(self)@, pos, id),
    {
        let ghost s0 = self@;
        let n: usize = self.entries.len();
        let mut i: usize = 0;
        while i < n
            invariant
                n == self@.len(),
                self@ == s0,
                s0 == old(self)@,
                cells_unique(s0),
                0 <= i <= n,
                forall|j: int| 0 <= j < i ==> self@[j].0 != pos,
            decreases n - i,
        {
            let e = self.entries[i];
            if e.0.x == pos.x && e.0.y == pos.y {
                proof {
                    assert(e.0 == pos);
                    assert(is_first_match(s0, pos, i as int));
                    lemma_first_match_exists(s0, pos);
                    lemma_first_match_unique(s0, pos, i as int, first_cell_idx(s0, pos));
                    lemma_release_effect(s0, pos, id);
                }
                if e.1 == id {
                    self.entries.remove(i);
                }
                return;
            }
            i = i + 1;
        }
        proof {
            if occupied(s0, pos) {
                let k = choose|k: int| 0 <= k < s0.len() && s0[k].0 == pos;
                assert(false);
            }
            lemma_release_effect(s0, pos, id);
        }
    }

    /// Remove every entry owned by one of the given actors. Runs once per
    /// tick, after all motion and collision work, to purge entries left by
    /// despawned actors.
    pub fn sweep(&mut self, gone: &Vec<u64>)
        requires
            old(self).wf(),
        ensures
            final(self).wf(),
            final(self)@ == spec_sweep(old(self)@, gone@),
            forall|c: GridVec, id: u64|
                holds_pair(final(self)@, c, id)
                    <==> (holds_pair(old(self)@, c, id) && !gone@.contains(id)),
    {
        let ghost s0 = self@;
        let n: usize = self.entries.len();
        let mut kept: Vec<(GridVec, u64)> = Vec::new();
        let mut i: usize = 0;
        while i < n
            invariant
                n == self@.len(),
                self@ == s0,
                s0 == old(self)@,
                0 <= i <= n,
                kept@ == spec_sweep(s0.take(i as int), gone@),
            decreases n - i,
        {
            let e = self.entries[i];
            proof {
                assert(s0.take(i as int + 1).drop_last() =~= s0.take(i as int));
                assert(s0.take(i as int + 1).last() == s0[i as int]);
            }
            if !id_listed(gone, e.1) {
                kept.push(e);
            }
            i = i + 1;
        }
        proof {
            assert(s0.take(n as int) =~= s0);
        }
        self.entries = kept;
        proof {
            lemma_sweep_unique(s0, gone@);
            lemma_sweep_subset(s0, gone@);
        }
    }
}

/// Linear membership test over a list of actor ids.
pub fn id_listed(ids: &Vec<u64>, id: u64) -> (r: bool)
    ensures
        r == ids@.contains(id),
{
    let n: usize = ids.len();
    let mut i: usize = 0;
    while i < n
        invariant
            n == ids@.len(),
            0 <= i <= n,
            forall|j: int| 0 <= j < i ==> ids@[j] != id,
        decreases n - i,
    {
        if ids[i] == id {
            return true;
        }
        i = i + 1;
    }
    false
}

} // verus!
