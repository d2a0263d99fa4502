use vstd::prelude::*;
use crate::blocks::Blocks;
use crate::palette::Palette;

verus! {

/// Cells per section edge.
pub const SECTION_WIDTH: u16 = 16;
/// Cells per section edge.
pub const SECTION_HEIGHT: u16 = 16;
/// Cells per section edge.
pub const SECTION_LENGTH: u16 = 16;
/// Sections in a chunk column.
pub const SECTIONS_NUM: u16 = 16;

/// Cells in one section.
pub const SECTION_CELLS: usize = 4096;

/// The storage index of cell `(x, y, z)` inside a section.
pub open spec fn spec_cell_index(x: u16, y: u16, z: u16) -> int {
    x + z * 16 + y * 256
}

/// True iff the entries of `s` are pairwise distinct.
pub open spec fn distinct_seq(s: Seq<Blocks>) -> bool {
    forall|i: int, j: int| 0 <= i < j < s.len() ==> s[i] != s[j]
}

/// Number of entries of `s` that are not the default ("air") state.
pub open spec fn count_non_air(s: Seq<Blocks>) -> int
    decreases s.len(),
{
    if s.len() == 0 {
        0
    } else {
        count_non_air(s.drop_last()) + if s.last() != Blocks::Air { 1int } else { 0int }
    }
}

/// Number of non-zero palette indices in `s`.
spec fn count_nonzero(s: Seq<u16>) -> int
    decreases s.len(),
{
    if s.len() == 0 {
        0
    } else {
        count_nonzero(s.drop_last()) + if s.last() != 0 { 1int } else { 0int }
    }
}

proof fn lemma_count_nonzero_le(s: Seq<u16>)
    ensures
        0 <= count_nonzero(s) <= s.len(),
    decreases s.len(),
{
    if s.len() > 0 {
        lemma_count_nonzero_le(s.drop_last());
    }
}

proof fn lemma_count_nonzero_update(s: Seq<u16>, i: int, v: u16)
    requires
        0 <= i < s.len(),
    ensures
        count_nonzero(s.update(i, v)) == count_nonzero(s)
            + (if v != 0 { 1int } else { 0int })
            - (if s[i] != 0 { 1int } else { 0int }),
    decreases s.len(),
{
    let t = s.update(i, v);
    if i == s.len() - 1 {
        assert(t.drop_last() =~= s.drop_last());
    } else {
        lemma_count_nonzero_update(s.drop_last(), i, v);
        assert(t.drop_last() =~= s.drop_last().update(i, v));
        assert(t.last() == s.last());
    }
}

proof fn lemma_count_nonzero_zero_iff(s: Seq<u16>)
    ensures
        (count_nonzero(s) == 0) <==> (forall|i: int| 0 <= i < s.len() ==> s[i] == 0),
    decreases s.len(),
{
    if s.len() > 0 {
        lemma_count_nonzero_zero_iff(s.drop_last());
        lemma_count_nonzero_le(s.drop_last());
        assert(forall|i: int| 0 <= i < s.len() - 1 ==> s[i] == s.drop_last()[i]);
        assert(s.last() == s[s.len() - 1]);
    }
}

proof fn lemma_count_nonzero_pointwise(a: Seq<u16>, b: Seq<u16>)
    requires
        a.len() == b.len(),
        forall|i: int| 0 <= i < a.len() ==> ((a[i] != 0) <==> (b[i] != 0)),
    ensures
        count_nonzero(a) == count_nonzero(b),
    decreases a.len(),
{
    if a.len() > 0 {
        assert(forall|i: int| 0 <= i < a.len() - 1 ==> a.drop_last()[i] == a[i]);
        assert(forall|i: int| 0 <= i < b.len() - 1 ==> b.drop_last()[i] == b[i]);
        lemma_count_nonzero_pointwise(a.drop_last(), b.drop_last());
        assert(a.last() == a[a.len() - 1]);
        assert(b.last() == b[b.len() - 1]);
    }
}

proof fn lemma_count_align(blocks: Seq<u16>, states: Seq<Blocks>)
    requires
        blocks.len() == states.len(),
        forall|i: int| 0 <= i < blocks.len() ==> ((blocks[i] != 0) <==> (states[i] != Blocks::Air)),
    ensures
        count_nonzero(blocks) == count_non_air(states),
    decreases blocks.len(),
{
    if blocks.len() > 0 {
        assert(forall|i: int| 0 <= i < blocks.len() - 1 ==> blocks.drop_last()[i] == blocks[i]);
        assert(forall|i: int| 0 <= i < states.len() - 1 ==> states.drop_last()[i] == states[i]);
        lemma_count_align(blocks.drop_last(), states.drop_last());
        assert(blocks.last() == blocks[blocks.len() - 1]);
        assert(states.last() == states[states.len() - 1]);
    }
}

/// One 16 x 16 x 16 cuboid of block data: a palette of the distinct block
/// states in use, a cell array of palette indices, and a maintained count of
/// non-air cells.
///
/// The count is an internal heuristic only: some protocol versions recognise
/// block kinds the palette conflates, so it must not be taken as
/// authoritative for wire-level synchronisation.
#[derive(Clone, Debug)]
pub struct ChunkSection {
    block_count: u16,
    palette: Palette,
    blocks: Vec<u16>,
}

impl ChunkSection {
    /// The block state a stored palette index resolves to.
    closed spec fn spec_state_of(self, v: u16) -> Blocks {
        if v < self.palette@.len() {
            self.palette@[v as int]
        } else {
            Blocks::Air
        }
    }

    /// The resolved block state of every cell, in storage order.
    pub closed spec fn spec_states(self) -> Seq<Blocks> {
        Seq::new(self.blocks@.len(), |i: int| self.spec_state_of(self.blocks@[i]))
    }

    /// The palette entries, in index order.
    pub closed spec fn spec_palette(self) -> Seq<Blocks> {
        self.palette@
    }

    /// The maintained non-air cell count.
    pub closed spec fn spec_block_count(self) -> u16 {
        self.block_count
    }

    /// Well-formedness: 4096 cells, every cell index resolves into the
    /// palette, the palette entries are distinct with air seated at index 0,
    /// and the count agrees with the cells.
    pub closed spec fn wf(self) -> bool {
        &&& self.blocks@.len() == SECTION_CELLS
        &&& self.palette@.len() >= 1
        &&& self.palette@[0] == Blocks::Air
        &&& forall|i: int| 0 <= i < self.blocks@.len() ==> (self.blocks@[i] as int) < self.palette@.len()
        &&& distinct_seq(self.palette@)
        &&& self.block_count as int == count_nonzero(self.blocks@)
    }

    /// The palette is distinct and seats air at index 0; the count agrees
    /// with the number of non-air cells.
    pub proof fn lemma_wf_facts(self)
        requires
            self.wf(),
        ensures
            self.spec_states().len() == SECTION_CELLS,
            distinct_seq(self.spec_palette()),
            self.spec_palette().len() >= 1,
            self.spec_palette()[0] == Blocks::Air,
            self.spec_block_count() as int == count_non_air(self.spec_states()),
    {
        assert forall|i: int| 0 <= i < self.blocks@.len() implies
            ((self.blocks@[i] != 0) <==> (self.spec_states()[i] != Blocks::Air)) by {
            if self.blocks@[i] == 0 {
                assert(self.spec_states()[i] == Blocks::Air);
            } else {
                assert(self.spec_states()[i] == self.palette@[self.blocks@[i] as int]);
            }
        }
        lemma_count_align(self.blocks@, self.spec_states());
    }

    /// Palette compaction, seen from outside: once a state is out of the
    /// palette of a well-formed section (as after clearing its last
    /// occurrence), no cell resolves to it.
    pub proof fn lemma_no_cell_references_removed_state(self, st: Blocks)
        requires
            self.wf(),
            !self.spec_palette().contains(st),
        ensures
            forall|i: int| 0 <= i < self.spec_states().len() ==> self.spec_states()[i] != st,
    {
        assert forall|i: int| 0 <= i < self.spec_states().len()
            implies self.spec_states()[i] != st by {
            assert(self.spec_states()[i] == self.palette@[self.blocks@[i] as int]);
            if self.spec_states()[i] == st {
                assert(self.spec_palette().contains(st));
            }
        }
    }

    /// The palette never holds duplicates, so its length equals the number
    /// of distinct (non-removed) states it currently holds.
    pub proof fn lemma_palette_len_counts_distinct_states(self)
        requires
            self.wf(),
        ensures
            self.spec_palette().no_duplicates(),
            self.spec_palette().len() == self.spec_palette().to_set().len(),
    {
        assert(self.palette@.no_duplicates()) by {
            assert forall|i: int, j: int| 0 <= i < self.palette@.len()
                && 0 <= j < self.palette@.len() && i != j
                implies self.palette@[i] != self.palette@[j] by {
                if i < j {
                } else {
                }
            }
        }
        self.palette@.unique_seq_to_set();
    }

    /// A fresh section: palette seeded with air, every cell pointing at it,
    /// no non-air cell.
    pub fn empty() -> (r: Self)
        ensures
            r.wf(),
            r.spec_states() == Seq::new(SECTION_CELLS as nat, |i: int| Blocks::Air),
            r.spec_palette() == seq![Blocks::Air],
            r.spec_block_count() == 0,
    {
        let mut seed: Vec<Blocks> = Vec::new();
        seed.push(Blocks::Air);
        let palette = Palette::new(seed);
        let mut blocks: Vec<u16> = Vec::new();
        let mut i: usize = 0;
        while i < SECTION_CELLS
            invariant
                i <= SECTION_CELLS,
                blocks@.len() == i,
                forall|j: int| 0 <= j < i ==> blocks@[j] == 0u16,
            decreases SECTION_CELLS - i,
        {
            blocks.push(0u16);
            i += 1;
        }
        let r = ChunkSection { block_count: 0, palette, blocks };
        proof {
            lemma_count_nonzero_zero_iff(r.blocks@);
            assert(r.spec_states() =~= Seq::new(SECTION_CELLS as nat, |i: int| Blocks::Air));
            assert(r.spec_palette() =~= seq![Blocks::Air]);
        }
        r
    }

    /// The storage index of cell `(x, y, z)`: `x + z*16 + y*256`.
    pub fn calculate_index(x: u16, y: u16, z: u16) -> (r: usize)
        requires
            x < 16,
            y < 16,
            z < 16,
        ensures
            r == spec_cell_index(x, y, z),
            r < SECTION_CELLS,
    {
        (x + z * SECTION_WIDTH + y * SECTION_WIDTH * SECTION_LENGTH) as usize
    }

    /// Sets the cell at `(x, y, z)` to `block_state`, maintaining the
    /// non-air count and compacting the palette: when the cell being cleared
    /// held the last occurrence of its state, that state's palette entry is
    /// removed (swap-with-last) and every cell referencing the former last
    /// index is rewritten, so no cell ever references a removed state.
    pub fn set_block_at(&mut self, x: u16, y: u16, z: u16, block_state: Blocks)
        requires
            old(self).wf(),
            x < 16,
            y < 16,
            z < 16,
            old(self).spec_palette().len() < 0x10000,
        ensures
            final(self).wf(),
            final(self).spec_states() == old(self).spec_states().update(
                spec_cell_index(x, y, z), block_state),
            final(self).spec_block_count() as int == old(self).spec_block_count() as int
                + (if block_state != Blocks::Air
                    && old(self).spec_states()[spec_cell_index(x, y, z)] == Blocks::Air
                    { 1int } else { 0int })
                - (if block_state == Blocks::Air
                    && old(self).spec_states()[spec_cell_index(x, y, z)] != Blocks::Air
                    { 1int } else { 0int }),
            ({
                let cell = spec_cell_index(x, y, z);
                let sold = old(self).spec_states()[cell];
                if block_state == Blocks::Air && sold != Blocks::Air
                    && (forall|j: int| 0 <= j < SECTION_CELLS && j != cell
                        ==> old(self).spec_states()[j] != sold) {
                    &&& final(self).spec_palette().len() == old(self).spec_palette().len() - 1
                    &&& !final(self).spec_palette().contains(sold)
                    &&& forall|s: Blocks| s != sold ==> (final(self).spec_palette().contains(s)
                        <==> old(self).spec_palette().contains(s))
                    &&& final(self).spec_palette() == old(self).spec_palette().update(
                        old(self).spec_palette().index_of(sold),
                        old(self).spec_palette().last(),
                    ).drop_last()
                } else if old(self).spec_palette().contains(block_state) {
                    final(self).spec_palette() == old(self).spec_palette()
                } else {
                    final(self).spec_palette() == old(self).spec_palette().push(block_state)
                }
            }),
    {
        let idx = Self::calculate_index(x, y, z);
        let ghost blocks0 = self.blocks@;
        let ghost pal0 = self.palette@;
        let ghost states0 = self.spec_states();
        let ghost cell = spec_cell_index(x, y, z);
        let ghost sold = states0[cell];
        let ghost count0 = self.block_count;
        proof {
            // A cell holds index 0 exactly when it resolves to air.
            assert forall|i: int| 0 <= i < SECTION_CELLS implies
                ((blocks0[i] != 0) <==> (states0[i] != Blocks::Air)) by {
                if blocks0[i] == 0 {
                    assert(states0[i] == Blocks::Air);
                } else {
                    assert(states0[i] == pal0[blocks0[i] as int]);
                    assert(pal0[blocks0[i] as int] != pal0[0]);
                }
            }
        }
        let old_value = self.blocks[idx];
        if block_state.is_air() && old_value != 0 {
            proof {
                lemma_count_nonzero_le(blocks0);
                lemma_count_nonzero_zero_iff(blocks0);
            }
            self.block_count = self.block_count - 1;
            self.blocks.set(idx, 0u16);
            let ghost blocks1 = self.blocks@;
            proof {
                lemma_count_nonzero_update(blocks0, cell, 0u16);
            }
            let still_used = contains_value(&self.blocks, old_value);
            if !still_used {
                // The cleared cell held the last occurrence of its state:
                // drop that palette entry and rehome the swapped-in last
                // entry's index.
                let last = self.palette.remove(old_value as usize);
                let last16 = last as u16;
                proof {
                    assert(forall|j: int| 0 <= j < SECTION_CELLS ==> blocks1[j] != old_value);
                }
                let mut i: usize = 0;
                while i < SECTION_CELLS
                    invariant
                        i <= SECTION_CELLS,
                        self.blocks@.len() == SECTION_CELLS,
                        self.palette@ == pal0.update(old_value as int, pal0.last()).drop_last(),
                        last == pal0.len() - 1,
                        last16 as int == last,
                        self.block_count == count0 - 1,
                        forall|j: int| 0 <= j < i ==> self.blocks@[j]
                            == (if blocks1[j] == last16 { old_value } else { blocks1[j] }),
                        forall|j: int| i <= j < SECTION_CELLS ==> self.blocks@[j] == blocks1[j],
                    decreases SECTION_CELLS - i,
                {
                    if self.blocks[i] == last16 {
                        self.blocks.set(i, old_value);
                    }
                    i += 1;
                }
                proof {
                    assert(states0 =~= Seq::new(blocks0.len(), |i: int| pal0[blocks0[i] as int]));
                    self.lemma_after_compaction(blocks0, blocks1, pal0, states0, cell,
                        old_value, last16);
                    // The cleared cell held the last occurrence of its state.
                    assert forall|j: int| 0 <= j < SECTION_CELLS && j != cell
                        implies states0[j] != sold by {
                        if states0[j] == sold {
                            assert(pal0[blocks0[j] as int] == pal0[old_value as int]);
                            assert(blocks0[j] == old_value);
                            assert(blocks1[j] == old_value);
                        }
                    }
                    assert(last16 as int >= 1);
                    assert(blocks1[cell] == 0);
                    assert(self.blocks@[cell] == 0);
                    assert(count_nonzero(blocks1) == count0 - 1);
                    assert(count_nonzero(self.blocks@) == count0 - 1);
                    // The freed slot is exactly the index of the cleared
                    // state, so the swap-with-last arrangement is pinned.
                    assert(pal0[old_value as int] == sold);
                    assert(pal0.contains(sold));
                    let oi = pal0.index_of(sold);
                    assert(0 <= oi < pal0.len() && pal0[oi] == sold);
                    assert(oi == old_value as int);
                }
            } else {
                proof {
                    assert(self.spec_states() =~= states0.update(cell, Blocks::Air));
                    // Some other cell still resolves to the cleared state.
                    let j = choose|j: int| 0 <= j < blocks1.len() && blocks1[j] == old_value;
                    assert(j != cell);
                    assert(states0[j] == sold);
                    assert(pal0.contains(Blocks::Air)) by {
                        assert(pal0[0] == Blocks::Air);
                    }
                    assert(self.blocks@[cell] == 0);
                    assert(count_nonzero(self.blocks@) == count0 - 1);
                }
            }
        } else if !block_state.is_air() && old_value == 0 {
            proof {
                lemma_count_nonzero_le(blocks0);
                // The target cell is zero, so the count is below the cap.
                lemma_count_nonzero_update(blocks0, cell, 1u16);
                lemma_count_nonzero_le(blocks0.update(cell, 1u16));
            }
            self.block_count = self.block_count + 1;
        }
        let ghost mid = *self;
        let ghost pal_m = self.palette@;
        proof {
            // The intermediate palette is still distinct, air-seated, and
            // below the index cap; every cell index is still in range.
            assert(pal_m.len() >= 1 && pal_m[0] == Blocks::Air && distinct_seq(pal_m));
            assert(pal_m.len() <= pal0.len());
            assert(forall|i: int| 0 <= i < SECTION_CELLS
                ==> (mid.blocks@[i] as int) < pal_m.len());
        }
        let index_new: usize = match self.palette.get_index(&block_state) {
            Some(i) => i,
            None => self.palette.push(block_state),
        };
        proof {
            assert(index_new < 0x10000);
            assert(self.palette@[index_new as int] == block_state);
            assert(index_new == 0 <==> block_state == Blocks::Air) by {
                if block_state == Blocks::Air {
                    assert(pal_m[0] == Blocks::Air);
                } else {
                    if index_new == 0 {
                        assert(self.palette@[0] == block_state);
                    }
                }
            }
        }
        self.blocks.set(idx, index_new as u16);
        proof {
            let pal_f = self.palette@;
            lemma_count_nonzero_update(mid.blocks@, cell, index_new as u16);
            // Distinctness survives a push of an absent state.
            assert(distinct_seq(pal_f)) by {
                if pal_f.len() == pal_m.len() + 1 {
                    assert forall|i: int, j: int| 0 <= i < j < pal_f.len()
                        implies pal_f[i] != pal_f[j] by {
                        if j == pal_f.len() - 1 {
                            assert(pal_f[j] == block_state);
                            assert(!pal_m.contains(block_state));
                            assert(pal_m[i] == pal_f[i]);
                        }
                    }
                }
            }
            // Every cell still resolves, and the states come out as the
            // single-cell update of the prior states.
            assert forall|i: int| 0 <= i < SECTION_CELLS
                implies (self.blocks@[i] as int) < pal_f.len()
                    && self.spec_state_of(self.blocks@[i])
                        == (if i == cell { block_state } else { mid.spec_state_of(mid.blocks@[i]) }) by {
                if i == cell {
                    assert(self.blocks@[i] == index_new as u16);
                } else {
                    assert(self.blocks@[i] == mid.blocks@[i]);
                    assert(pal_f[mid.blocks@[i] as int] == pal_m[mid.blocks@[i] as int]);
                }
            }
            assert(self.spec_states() =~= states0.update(cell, block_state));
            // The count bookkeeping closes per case.
            assert(blocks0[cell] == old_value);
            assert(count0 as int == count_nonzero(blocks0));
            assert(self.block_count as int == count_nonzero(self.blocks@)) by {
                if block_state == Blocks::Air && old_value != 0 {
                    assert(mid.blocks@[cell] == 0);
                    assert(count_nonzero(mid.blocks@) == count0 - 1);
                    assert(index_new == 0);
                    assert(mid.block_count == count0 - 1);
                } else if block_state != Blocks::Air && old_value == 0 {
                    assert(mid.blocks@ == blocks0);
                    assert(mid.blocks@[cell] == 0);
                    assert(index_new != 0);
                    assert(mid.block_count == count0 + 1);
                } else {
                    assert(mid.blocks@ == blocks0);
                    assert(mid.block_count == count0);
                    assert((index_new != 0) <==> (old_value != 0));
                }
            }
        }
    }

    /// After the compaction pass, every cell resolves to the state it
    /// resolved to before the target cell was cleared, the removed state is
    /// gone from the palette, and well-formedness is restored.
    proof fn lemma_after_compaction(
        self,
        blocks0: Seq<u16>,
        blocks1: Seq<u16>,
        pal0: Seq<Blocks>,
        states0: Seq<Blocks>,
        cell: int,
        old_value: u16,
        last16: u16,
    )
        requires
            blocks0.len() == SECTION_CELLS,
            0 <= cell < SECTION_CELLS,
            pal0.len() >= 1,
            pal0.len() < 0x10000,
            pal0[0] == Blocks::Air,
            distinct_seq(pal0),
            forall|i: int| 0 <= i < SECTION_CELLS ==> (blocks0[i] as int) < pal0.len(),
            states0 == Seq::new(blocks0.len(), |i: int| pal0[blocks0[i] as int]),
            old_value != 0,
            (old_value as int) < pal0.len(),
            blocks0[cell] == old_value,
            blocks1 == blocks0.update(cell, 0u16),
            forall|j: int| 0 <= j < SECTION_CELLS ==> blocks1[j] != old_value,
            last16 as int == pal0.len() - 1,
            self.spec_palette() == pal0.update(old_value as int, pal0.last()).drop_last(),
            self.blocks@.len() == SECTION_CELLS,
            forall|j: int| 0 <= j < SECTION_CELLS ==> self.blocks@[j]
                == (if blocks1[j] == last16 { old_value } else { blocks1[j] }),
        ensures
            self.spec_states() == states0.update(cell, Blocks::Air),
            count_nonzero(self.blocks@) == count_nonzero(blocks1),
            self.spec_palette().len() == pal0.len() - 1,
            !self.spec_palette().contains(pal0[old_value as int]),
            forall|s: Blocks| s != pal0[old_value as int]
                ==> (self.spec_palette().contains(s) <==> pal0.contains(s)),
            self.spec_palette()[0] == Blocks::Air,
            distinct_seq(self.spec_palette()),
            forall|i: int| 0 <= i < SECTION_CELLS ==> (self.blocks@[i] as int) < self.spec_palette().len(),
    {
        let pal1 = self.spec_palette();
        let removed = pal0[old_value as int];
        // Cells of index zero stay zero: the former last index is non-zero.
        assert(last16 as int >= 1);
        // Index validity, cell by cell.
        assert forall|i: int| 0 <= i < SECTION_CELLS implies
            (self.blocks@[i] as int) < pal1.len() by {
            if blocks1[i] == last16 {
                assert(self.blocks@[i] == old_value);
                assert(old_value != last16);
            } else {
                assert(self.blocks@[i] == blocks1[i]);
                assert(blocks1[i] != old_value);
            }
        }
        // State preservation, cell by cell.
        assert forall|i: int| 0 <= i < SECTION_CELLS implies
            self.spec_states()[i] == states0.update(cell, Blocks::Air)[i] by {
            assert(states0[i] == pal0[blocks0[i] as int]);
            if blocks1[i] == last16 {
                assert(self.blocks@[i] == old_value);
                assert(old_value != last16);
                assert((old_value as int) < pal1.len());
                assert(pal1[old_value as int] == pal0.last());
                assert(pal0.last() == pal0[last16 as int]);
                assert(i != cell);
                assert(blocks0[i] == blocks1[i]);
                assert(self.spec_states()[i] == self.spec_state_of(self.blocks@[i]));
                assert(self.spec_state_of(old_value) == pal1[old_value as int]);
            } else {
                assert(self.blocks@[i] == blocks1[i]);
                assert(blocks1[i] != old_value);
                assert((blocks1[i] as int) < pal0.len() - 1);
                assert(pal1[blocks1[i] as int] == pal0[blocks1[i] as int]);
                assert(self.spec_states()[i] == self.spec_state_of(self.blocks@[i]));
                if i == cell {
                    assert(blocks1[i] == 0);
                    assert(pal1[0] == pal0[0]);
                } else {
                    assert(blocks0[i] == blocks1[i]);
                }
            }
        }
        assert(self.spec_states() =~= states0.update(cell, Blocks::Air));
        assert forall|i: int| 0 <= i < SECTION_CELLS implies
            ((self.blocks@[i] != 0) <==> (blocks1[i] != 0)) by {
            if blocks1[i] == last16 {
                assert(self.blocks@[i] == old_value);
            }
        }
        lemma_count_nonzero_pointwise(self.blocks@, blocks1);
        // The removed state is out of the palette; everything else stays.
        assert forall|k: int| 0 <= k < pal1.len() implies pal1[k] != removed by {
            if k == old_value as int {
                assert(pal1[k] == pal0.last());
                assert(pal0.last() == pal0[pal0.len() - 1]);
            } else {
                assert(pal1[k] == pal0[k]);
            }
        }
        if pal1.contains(removed) {
            let k = choose|k: int| 0 <= k < pal1.len() && pal1[k] == removed;
            assert(false);
        }
        assert forall|s: Blocks| s != removed implies
            (pal1.contains(s) <==> pal0.contains(s)) by {
            if pal1.contains(s) {
                let k = choose|k: int| 0 <= k < pal1.len() && pal1[k] == s;
                if k == old_value as int {
                    assert(pal0[pal0.len() - 1] == s);
                } else {
                    assert(pal0[k] == s);
                }
                assert(pal0.contains(s));
            }
            if pal0.contains(s) {
                let k = choose|k: int| 0 <= k < pal0.len() && pal0[k] == s;
                assert(k != old_value as int);
                if k == pal0.len() - 1 {
                    assert((old_value as int) < pal1.len());
                    assert(pal1[old_value as int] == s);
                } else {
                    assert(pal1[k] == s);
                }
                assert(pal1.contains(s));
            }
        }
        assert(pal1[0] == pal0[0]);
        assert forall|i: int, j: int| 0 <= i < j < pal1.len() implies pal1[i] != pal1[j] by {
            let vi = if i == old_value as int { pal0.len() - 1 } else { i };
            let vj = if j == old_value as int { pal0.len() - 1 } else { j };
            assert(pal1[i] == pal0[vi]);
            assert(pal1[j] == pal0[vj]);
            assert(vi != vj);
        }
    }

}

impl ChunkSection {
    /// Bounds-checked read of the block state at `(x, y, z)`.
    pub fn block_at(&self, x: u16, y: u16, z: u16) -> (r: &Blocks)
        requires
            self.wf(),
            x < 16,
            y < 16,
            z < 16,
        ensures
            *r == self.spec_states()[spec_cell_index(x, y, z)],
    {
        let idx = Self::calculate_index(x, y, z);
        let v = self.blocks[idx];
        let opt = self.palette.at(v as usize);
        proof {
            assert(opt is Some);
        }
        match opt {
            Some(b) => b,
            None => vstd::pervasive::unreached(),
        }
    }

    /// The maintained non-air cell count. Depending on the protocol version
    /// this count can under-report blocks the palette conflates: do not rely
    /// on it for networking synchronisation.
    pub fn get_block_count(&self) -> (r: u16)
        ensures
            r == self.spec_block_count(),
    {
        self.block_count
    }

    /// Read-only access to the palette, for serialization.
    pub fn get_palette(&self) -> (r: &Palette)
        ensures
            r@ == self.spec_palette(),
    {
        &self.palette
    }

    /// Read-only access to the cell index array, for serialization.
    pub fn get_block_data(&self) -> (r: &Vec<u16>)
        ensures
            r@.len() == self.spec_states().len(),
            forall|i: int| 0 <= i < r@.len() ==> (self.wf()
                ==> (r@[i] as int) < self.spec_palette().len()
                    && self.spec_palette()[r@[i] as int] == self.spec_states()[i]),
    {
        &self.blocks
    }
}

impl Default for ChunkSection {
    /// Same as [`ChunkSection::empty`].
    fn default() -> (r: Self)
        ensures
            r.wf(),
            r.spec_states() == Seq::new(SECTION_CELLS as nat, |i: int| Blocks::Air),
            r.spec_palette() == seq![Blocks::Air],
            r.spec_block_count() == 0,
    {
        ChunkSection::empty()
    }
}

/// A column coordinate on the world's chunk grid, immutable after creation.
#[derive(Clone, Copy, Debug, Default, PartialEq, Eq, Hash, Structural)]
pub struct ChunkPos {
    pub x: i32,
    pub z: i32,
}

impl ChunkPos {
    pub fn new(x: i32, z: i32) -> (r: Self)
        ensures
            r.x == x,
            r.z == z,
    {
        ChunkPos { x, z }
    }
}

impl From<(i32, i32)> for ChunkPos {
    fn from(t: (i32, i32)) -> (r: Self) {
        ChunkPos { x: t.0, z: t.1 }
    }
}

impl vstd::std_specs::convert::FromSpecImpl<(i32, i32)> for ChunkPos {
    open spec fn obeys_from_spec() -> bool {
        true
    }

    open spec fn from_spec(t: (i32, i32)) -> ChunkPos {
        ChunkPos { x: t.0, z: t.1 }
    }
}

impl From<ChunkPos> for (i32, i32) {
    fn from(pos: ChunkPos) -> (r: Self) {
        (pos.x, pos.z)
    }
}

impl vstd::std_specs::convert::FromSpecImpl<ChunkPos> for (i32, i32) {
    open spec fn obeys_from_spec() -> bool {
        true
    }

    open spec fn from_spec(pos: ChunkPos) -> (i32, i32) {
        (pos.x, pos.z)
    }
}

/// True iff bit `i` of `m` is set.
pub open spec fn nth_bit(m: i32, i: u32) -> bool {
    ((m >> i) & 1i32) == 1i32
}

proof fn lemma_bitmask_toggle(m: i32, i: u32)
    by (bit_vector)
    requires
        0 <= m < 0x10000,
        i < 16,
    ensures
        0 <= (m ^ (1i32 << i)) < 0x10000,
        forall|j: u32| j < 16 && j != i ==> (nth_bit(m ^ (1i32 << i), j) <==> nth_bit(m, j)),
        nth_bit(m ^ (1i32 << i), i) <==> !nth_bit(m, i),
{
}

proof fn lemma_bitmask_zero()
    by (bit_vector)
    ensures
        forall|j: u32| j < 16 ==> !nth_bit(0i32, j),
{
}

/// A vertical column of up to 16 optional sections, a presence bitmask with
/// bit `i` set iff section `i` is present, a dirty flag marking state not yet
/// re-sent to observers, and the column's grid position.
#[derive(Debug)]
pub struct Chunk {
    sections: Vec<Option<ChunkSection>>,
    bitmask: i32,
    pos: ChunkPos,
    dirty: bool,
}

impl Chunk {
    /// The section slots, bottom first.
    pub closed spec fn spec_sections(self) -> Seq<Option<ChunkSection>> {
        self.sections@
    }

    /// The presence bitmask.
    pub closed spec fn spec_bitmask(self) -> i32 {
        self.bitmask
    }

    /// The column position.
    pub closed spec fn spec_pos(self) -> ChunkPos {
        self.pos
    }

    /// The dirty flag.
    pub closed spec fn spec_dirty(self) -> bool {
        self.dirty
    }

    /// True iff section `i` is present.
    pub open spec fn spec_section_present(self, i: int) -> bool {
        self.spec_sections()[i] is Some
    }

    /// The palette of section `i`; an absent section reads as a fresh one.
    pub open spec fn spec_section_palette(self, i: int) -> Seq<Blocks> {
        if self.spec_sections()[i] is Some {
            self.spec_sections()[i]->0.spec_palette()
        } else {
            seq![Blocks::Air]
        }
    }

    /// The non-air count of section `i`; an absent section reads as empty.
    pub open spec fn spec_section_count(self, i: int) -> u16 {
        if self.spec_sections()[i] is Some {
            self.spec_sections()[i]->0.spec_block_count()
        } else {
            0
        }
    }

    /// The block state at column-local coordinates; cells of absent sections
    /// read as air.
    pub open spec fn spec_state_at(self, x: u16, y: u16, z: u16) -> Blocks {
        if self.spec_sections()[y as int / 16] is Some {
            self.spec_sections()[y as int / 16]->0.spec_states()[
                spec_cell_index(x, (y as int % 16) as u16, z)]
        } else {
            Blocks::Air
        }
    }

    /// Well-formedness: 16 slots, every present section well-formed and
    /// holding at least one non-air cell, and bit `i` of the bitmask set
    /// iff section `i` is present.
    pub closed spec fn wf(self) -> bool {
        &&& self.sections@.len() == 16
        &&& 0 <= self.bitmask < 0x10000
        &&& forall|i: int| 0 <= i < 16 && self.sections@[i] is Some
            ==> (#[trigger] self.sections@[i])->0.wf()
                && self.sections@[i]->0.spec_block_count() > 0
        &&& forall|i: u32| i < 16
            ==> (#[trigger] nth_bit(self.bitmask, i) <==> self.sections@[i as int] is Some)
    }

    /// An empty column at `pos`: no sections, bitmask zero, marked dirty.
    pub fn empty(pos: ChunkPos) -> (r: Self)
        ensures
            r.wf(),
            r.spec_pos() == pos,
            r.spec_dirty() == true,
            r.spec_bitmask() == 0,
            forall|i: int| 0 <= i < 16 ==> !r.spec_section_present(i),
            forall|a: u16, b: u16, c: u16| a < 16 && b < 256 && c < 16
                ==> r.spec_state_at(a, b, c) == Blocks::Air,
            forall|i: int| 0 <= i < 16 ==> r.spec_section_palette(i).len() == 1,
    {
        let mut sections: Vec<Option<ChunkSection>> = Vec::new();
        let mut i: usize = 0;
        while i < 16
            invariant
                i <= 16,
                sections@.len() == i,
                forall|j: int| 0 <= j < i ==> sections@[j] is None,
            decreases 16 - i,
        {
            sections.push(None);
            i += 1;
        }
        let r = Chunk { sections, bitmask: 0, pos, dirty: true };
        proof {
            lemma_bitmask_zero();
        }
        r
    }

    /// Sets the block at column-local coordinates. Delegates to the section
    /// holding `y`, allocating it lazily on a non-air set and dropping it
    /// (clearing its bitmask bit) when the set empties it completely. A
    /// write that changes stored state marks the chunk dirty; nothing
    /// clears the flag implicitly.
    ///
    /// Setting a cell to its current value leaves the section count, the
    /// palette contents, the bitmask and the dirty flag unchanged.
    #[verifier::rlimit(60)]
    pub fn set_block_at(&mut self, x: u16, y: u16, z: u16, block_state: Blocks)
        requires
            old(self).wf(),
            x < 16,
            y < 256,
            z < 16,
            old(self).spec_section_palette(y as int / 16).len() < 0x10000,
        ensures
            final(self).wf(),
            final(self).spec_pos() == old(self).spec_pos(),
            final(self).spec_dirty() == (old(self).spec_dirty()
                || old(self).spec_state_at(x, y, z) != block_state),
            forall|a: u16, b: u16, c: u16| a < 16 && b < 256 && c < 16
                ==> final(self).spec_state_at(a, b, c)
                    == (if a == x && b == y && c == z { block_state }
                        else { old(self).spec_state_at(a, b, c) }),
            forall|i: int| 0 <= i < 16 && i != y as int / 16
                ==> final(self).spec_sections()[i] == old(self).spec_sections()[i],
            forall|i: int| 0 <= i < 16
                ==> final(self).spec_section_palette(i).len()
                    <= old(self).spec_section_palette(i).len() + 1,
            (final(self).spec_section_present(y as int / 16) <==> (exists|a: u16, b: u16, c: u16|
                a < 16 && b < 256 && c < 16 && b as int / 16 == y as int / 16
                && final(self).spec_state_at(a, b, c) != Blocks::Air)),
            old(self).spec_state_at(x, y, z) == block_state
                ==> final(self).spec_bitmask() == old(self).spec_bitmask()
                    && (forall|i: int| 0 <= i < 16
                        ==> final(self).spec_section_palette(i)
                                == old(self).spec_section_palette(i)
                            && final(self).spec_section_count(i)
                                == old(self).spec_section_count(i)),
    {
        let section_y = (y / SECTION_HEIGHT) as usize;
        let ghost sections0 = self.sections@;
        let slot: Option<ChunkSection> = self.sections.remove(section_y);
        let (new_slot, changed): (Option<ChunkSection>, bool) = match slot {
            Some(mut section) => {
                let prior: Blocks = *section.block_at(x, y % SECTION_HEIGHT, z);
                let changed = prior != block_state;
                section.set_block_at(x, y % SECTION_HEIGHT, z, block_state);
                proof {
                    section.lemma_wf_facts();
                    lemma_count_non_air_zero_iff(section.spec_states());
                }
                if section.get_block_count() == 0 {
                    proof {
                        lemma_bitmask_toggle(self.bitmask, section_y as u32);
                    }
                    self.bitmask = self.bitmask ^ (1i32 << section_y);
                    (None, changed)
                } else {
                    (Some(section), changed)
                }
            },
            None => {
                if !block_state.is_air() {
                    let mut section = ChunkSection::empty();
                    section.set_block_at(x, y % SECTION_HEIGHT, z, block_state);
                    proof {
                        section.lemma_wf_facts();
                        lemma_count_non_air_zero_iff(section.spec_states());
                        lemma_bitmask_toggle(self.bitmask, section_y as u32);
                    }
                    self.bitmask = self.bitmask ^ (1i32 << section_y);
                    (Some(section), true)
                } else {
                    (None, false)
                }
            },
        };
        self.sections.insert(section_y, new_slot);
        if changed {
            self.dirty = true;
        }
        proof {
            assert(self.sections@ =~= sections0.update(section_y as int, new_slot));
            let sy = y as int / 16;
            let y2 = (y as int % 16) as u16;
            assert(section_y as int == sy);
            assert(y % SECTION_HEIGHT == y2);
            let cell = spec_cell_index(x, y2, z);
            // Presence bits line up again after the toggle (or non-toggle).
            assert forall|j: u32| j < 16 implies
                (nth_bit(self.bitmask, j) <==> self.sections@[j as int] is Some) by {
                assert(nth_bit(old(self).spec_bitmask(), j) <==> sections0[j as int] is Some);
                if j as int == sy {
                    assert(self.sections@[j as int] == new_slot);
                } else {
                    assert(self.sections@[j as int] == sections0[j as int]);
                }
            }
            // The block states come out as the single-cell update.
            assert forall|a: u16, b: u16, c: u16| a < 16 && b < 256 && c < 16
                implies self.spec_state_at(a, b, c)
                    == (if a == x && b == y && c == z { block_state }
                        else { old(self).spec_state_at(a, b, c) }) by {
                let sb = b as int / 16;
                let b2 = (b as int % 16) as u16;
                let cell_b = spec_cell_index(a, b2, c);
                if sb == sy {
                    assert(self.sections@[sb] == new_slot);
                    if a == x && b == y && c == z {
                        assert(cell_b == cell);
                    } else {
                        if cell_b == cell {
                            lemma_cell_index_inj(a, b2, c, x, y2, z);
                            assert(b == 16 * (b as int / 16) + b as int % 16);
                            assert(b == y);
                        }
                        assert(cell_b != cell);
                    }
                } else {
                    assert(self.sections@[sb] == sections0[sb]);
                    assert(b != y);
                }
                assert(self.spec_state_at(a, b, c) == (if self.sections@[sb] is Some {
                    self.sections@[sb]->0.spec_states()[cell_b]
                } else {
                    Blocks::Air
                }));
                assert(old(self).spec_state_at(a, b, c) == (if sections0[sb] is Some {
                    sections0[sb]->0.spec_states()[cell_b]
                } else {
                    Blocks::Air
                }));
                if sb == sy {
                    if sections0[sb] is Some && self.sections@[sb] is Some {
                        assert(self.sections@[sb]->0.spec_states()
                            == sections0[sb]->0.spec_states().update(cell, block_state));
                    }
                    if sections0[sb] is Some && self.sections@[sb] is None {
                        // The set emptied the section and the slot was cleared.
                        assert(sections0[sb]->0.spec_states().update(cell, block_state)[cell_b]
                            == Blocks::Air);
                        assert(sections0[sb]->0.spec_states().update(cell, block_state)[cell]
                            == Blocks::Air);
                        assert(block_state == Blocks::Air);
                    }
                    if sections0[sb] is None && self.sections@[sb] is Some {
                        // The slot was lazily allocated from a fresh section.
                        assert(self.sections@[sb]->0.spec_states()
                            == Seq::new(SECTION_CELLS as nat, |i: int| Blocks::Air).update(
                                cell, block_state));
                        assert(Seq::new(SECTION_CELLS as nat, |i: int| Blocks::Air)[cell_b]
                            == Blocks::Air);
                    }
                    if sections0[sb] is None && self.sections@[sb] is None {
                        assert(block_state == Blocks::Air);
                    }
                }
            }
            // A state-changing write was detected exactly when the prior
            // state at the target cell differed.
            assert(changed == (old(self).spec_state_at(x, y, z) != block_state));
            // The target slot is present exactly when one of its cells is
            // non-air afterwards.
            if self.sections@[sy] is Some {
                let sec = self.sections@[sy]->0;
                assert(sec.spec_block_count() > 0);
                assert(count_non_air(sec.spec_states()) > 0);
                assert(sec.spec_states().len() == SECTION_CELLS);
                assert(!(forall|i: int| 0 <= i < sec.spec_states().len()
                    ==> sec.spec_states()[i] == Blocks::Air));
                let j = choose|i: int| 0 <= i < sec.spec_states().len()
                    && sec.spec_states()[i] != Blocks::Air;
                lemma_cell_decompose(j as u16);
                let a_w = ((j as u16) % 16) as u16;
                let c_w = (((j as u16) / 16) % 16) as u16;
                let b2_w = ((j as u16) / 256) as u16;
                let b_w = ((sy * 16) + b2_w) as u16;
                assert(a_w < 16 && c_w < 16 && b2_w < 16 && b_w < 256);
                assert(b_w == 16 * sy + b2_w);
                assert(b_w as int / 16 == sy) by (nonlinear_arith)
                    requires
                        b_w == 16 * sy + b2_w,
                        0 <= sy < 16,
                        b2_w < 16,
                ;
                assert(b_w as int % 16 == b2_w) by (nonlinear_arith)
                    requires
                        b_w == 16 * sy + b2_w,
                        0 <= sy < 16,
                        b2_w < 16,
                ;
                assert(spec_cell_index(a_w, b2_w, c_w) == j);
                assert(self.spec_state_at(a_w, b_w, c_w) == sec.spec_states()[j]);
                assert(self.spec_state_at(a_w, b_w, c_w) != Blocks::Air);
                assert(exists|a: u16, b: u16, c: u16| a < 16 && b < 256 && c < 16
                    && b as int / 16 == sy && self.spec_state_at(a, b, c) != Blocks::Air);
            } else {
                assert forall|a: u16, b: u16, c: u16| a < 16 && b < 256 && c < 16
                    && b as int / 16 == sy
                    implies self.spec_state_at(a, b, c) == Blocks::Air by {}
            }
        }
    }

    /// Every well-formed chunk has 16 slots, a bitmask confined to those 16
    /// bits, and well-formed present sections each holding at least one
    /// non-air cell.
    pub proof fn lemma_wf_facts(self)
        requires
            self.wf(),
        ensures
            self.spec_sections().len() == 16,
            0 <= self.spec_bitmask() < 0x10000,
            forall|i: int| 0 <= i < 16 && self.spec_sections()[i] is Some
                ==> (#[trigger] self.spec_sections()[i])->0.wf()
                    && self.spec_sections()[i]->0.spec_block_count() > 0,
    {
    }

    /// Bitmask consistency: for every well-formed chunk, bit `i` of the
    /// bitmask is set iff section `i` is present.
    pub proof fn lemma_bitmask_consistency(self, i: u32)
        requires
            self.wf(),
            i < 16,
        ensures
            nth_bit(self.spec_bitmask(), i) <==> self.spec_section_present(i as int),
    {
    }

    /// The presence bitmask, bit `i` set iff section `i` is present.
    pub fn get_bit_mask(&self) -> (r: i32)
        ensures
            r == self.spec_bitmask(),
    {
        self.bitmask
    }

    /// The column's grid position.
    pub fn get_position(&self) -> (r: &ChunkPos)
        ensures
            *r == self.spec_pos(),
    {
        &self.pos
    }

    /// Sets the dirty flag; nothing clears it implicitly.
    pub fn mark_dirty(&mut self, dirty: bool)
        ensures
            final(self).spec_dirty() == dirty,
            final(self).spec_sections() == old(self).spec_sections(),
            final(self).spec_bitmask() == old(self).spec_bitmask(),
            final(self).spec_pos() == old(self).spec_pos(),
            final(self).wf() == old(self).wf(),
    {
        self.dirty = dirty;
    }

    /// True iff the chunk has state not yet re-sent to observers.
    pub fn is_dirty(&self) -> (r: bool)
        ensures
            r == self.spec_dirty(),
    {
        self.dirty
    }

    /// Read-only access to the section slots, for serialization.
    pub fn get_chunk_sections(&self) -> (r: &Vec<Option<ChunkSection>>)
        ensures
            r@ == self.spec_sections(),
    {
        &self.sections
    }
}

proof fn lemma_cell_index_inj(a: u16, b: u16, c: u16, x: u16, y: u16, z: u16)
    requires
        a < 16,
        b < 16,
        c < 16,
        x < 16,
        y < 16,
        z < 16,
        spec_cell_index(a, b, c) == spec_cell_index(x, y, z),
    ensures
        a == x,
        b == y,
        c == z,
{
    assert(a == x && b == y && c == z) by (bit_vector)
        requires
            a < 16,
            b < 16,
            c < 16,
            x < 16,
            y < 16,
            z < 16,
            a + c * 16 + b * 256 == x + z * 16 + y * 256,
    ;
}

/// A storage index below 4096 decomposes into its cell coordinates.
pub proof fn lemma_cell_decompose(j: u16)
    requires
        j < 4096,
    ensures
        j % 16 < 16,
        (j / 16) % 16 < 16,
        j / 256 < 16,
        spec_cell_index((j % 16) as u16, (j / 256) as u16, ((j / 16) % 16) as u16) == j,
{
    assert(j % 16 < 16 && (j / 16) % 16 < 16 && j / 256 < 16
        && j % 16 + ((j / 16) % 16) * 16 + (j / 256) * 256 == j) by (bit_vector)
        requires
            j < 4096,
    ;
}

/// A state sequence counts zero non-air entries exactly when it is all air.
pub proof fn lemma_count_non_air_zero_iff(s: Seq<Blocks>)
    ensures
        (count_non_air(s) == 0) <==> (forall|i: int| 0 <= i < s.len() ==> s[i] == Blocks::Air),
    decreases s.len(),
{
    if s.len() > 0 {
        lemma_count_non_air_zero_iff(s.drop_last());
        lemma_count_non_air_le(s.drop_last());
        assert(forall|i: int| 0 <= i < s.len() - 1 ==> s[i] == s.drop_last()[i]);
        assert(s.last() == s[s.len() - 1]);
    }
}

/// How a single-cell update moves the non-air count.
pub proof fn lemma_count_non_air_update(s: Seq<Blocks>, i: int, v: Blocks)
    requires
        0 <= i < s.len(),
    ensures
        count_non_air(s.update(i, v)) == count_non_air(s)
            + (if v != Blocks::Air { 1int } else { 0int })
            - (if s[i] != Blocks::Air { 1int } else { 0int }),
    decreases s.len(),
{
    let t = s.update(i, v);
    if i == s.len() - 1 {
        assert(t.drop_last() =~= s.drop_last());
    } else {
        lemma_count_non_air_update(s.drop_last(), i, v);
        assert(t.drop_last() =~= s.drop_last().update(i, v));
        assert(t.last() == s.last());
    }
}

/// The non-air count never exceeds the cell count.
pub proof fn lemma_count_non_air_le(s: Seq<Blocks>)
    ensures
        0 <= count_non_air(s) <= s.len(),
    decreases s.len(),
{
    if s.len() > 0 {
        lemma_count_non_air_le(s.drop_last());
    }
}

/// True iff `haystack` holds `needle`.
fn contains_value(haystack: &Vec<u16>, needle: u16) -> (r: bool)
    ensures
        r == haystack@.contains(needle),
{
    let mut i: usize = 0;
    while i < haystack.len()
        invariant
            i <= haystack@.len(),
            forall|j: int| 0 <= j < i ==> haystack@[j] != needle,
        decreases haystack@.len() - i,
    {
        if haystack[i] == needle {
            return true;
        }
        i += 1;
    }
    false
}

} // verus!
