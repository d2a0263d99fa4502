use falcon_protocol::blocks::Blocks;
use falcon_protocol::chunks::{Chunk, ChunkPos, ChunkSection};
use falcon_protocol::palette::Palette;

#[test]
fn palette_push_lookup_remove() {
    let mut p = Palette::new(vec![Blocks::Air]);
    assert_eq!(p.len(), 1);
    assert_eq!(p.get_index(&Blocks::Air), Some(0));
    assert_eq!(p.get_index(&Blocks::State(7)), None);
    let i = p.push(Blocks::State(7));
    assert_eq!(i, 1);
    let j = p.push(Blocks::State(9));
    assert_eq!(j, 2);
    // Swap-with-last removal hands back the old final index.
    let last = p.remove(1);
    assert_eq!(last, 2);
    assert_eq!(p.len(), 2);
    assert_eq!(p.at(1), Some(&Blocks::State(9)));
    assert_eq!(p.get_index(&Blocks::State(7)), None);
}

#[test]
fn section_counts_and_compaction() {
    let mut s = ChunkSection::empty();
    assert_eq!(s.get_block_count(), 0);
    assert_eq!(s.get_palette().len(), 1);
    s.set_block_at(0, 0, 0, Blocks::State(1));
    s.set_block_at(1, 0, 0, Blocks::State(1));
    assert_eq!(s.get_block_count(), 2);
    assert_eq!(s.get_palette().len(), 2);
    // Clearing one occurrence keeps the state in the palette.
    s.set_block_at(0, 0, 0, Blocks::Air);
    assert_eq!(s.get_block_count(), 1);
    assert_eq!(s.get_palette().len(), 2);
    assert!(s.get_palette().get_index(&Blocks::State(1)).is_some());
    // Clearing the last occurrence compacts the palette.
    s.set_block_at(1, 0, 0, Blocks::Air);
    assert_eq!(s.get_block_count(), 0);
    assert_eq!(s.get_palette().len(), 1);
    assert!(s.get_palette().get_index(&Blocks::State(1)).is_none());
}

#[test]
fn section_reindex_after_removal_keeps_other_cells() {
    let mut s = ChunkSection::empty();
    s.set_block_at(0, 0, 0, Blocks::State(10));
    s.set_block_at(1, 0, 0, Blocks::State(20));
    s.set_block_at(2, 0, 0, Blocks::State(30));
    // Remove the middle state: the last palette entry is swapped into its
    // slot and every cell referencing it is rewritten.
    s.set_block_at(1, 0, 0, Blocks::Air);
    assert_eq!(*s.block_at(0, 0, 0), Blocks::State(10));
    assert_eq!(*s.block_at(1, 0, 0), Blocks::Air);
    assert_eq!(*s.block_at(2, 0, 0), Blocks::State(30));
    assert_eq!(s.get_palette().len(), 3);
    assert_eq!(s.get_block_count(), 2);
    // No cell stores an index outside the palette.
    for &cell in s.get_block_data().iter() {
        assert!((cell as usize) < s.get_palette().len());
    }
}

#[test]
fn section_set_same_value_is_idempotent() {
    let mut s = ChunkSection::empty();
    s.set_block_at(3, 4, 5, Blocks::State(2));
    let count = s.get_block_count();
    let palette_len = s.get_palette().len();
    s.set_block_at(3, 4, 5, Blocks::State(2));
    assert_eq!(s.get_block_count(), count);
    assert_eq!(s.get_palette().len(), palette_len);
    assert_eq!(*s.block_at(3, 4, 5), Blocks::State(2));
}

#[test]
fn chunk_bitmask_tracks_sections() {
    let mut c = Chunk::empty(ChunkPos::new(0, 0));
    assert_eq!(c.get_bit_mask(), 0);
    c.set_block_at(0, 0, 0, Blocks::State(1));
    assert_eq!(c.get_bit_mask(), 0b1);
    c.set_block_at(0, 17, 0, Blocks::State(1));
    assert_eq!(c.get_bit_mask(), 0b11);
    c.set_block_at(0, 255, 0, Blocks::State(1));
    assert_eq!(c.get_bit_mask(), 0b1000_0000_0000_0011);
    // Bit i is set exactly when section i is present.
    for (i, slot) in c.get_chunk_sections().iter().enumerate() {
        let bit = (c.get_bit_mask() >> i) & 1;
        assert_eq!(bit == 1, slot.is_some());
    }
    c.set_block_at(0, 17, 0, Blocks::Air);
    assert_eq!(c.get_bit_mask(), 0b1000_0000_0000_0001);
}

#[test]
fn chunk_set_same_value_leaves_bitmask() {
    let mut c = Chunk::empty(ChunkPos::new(1, 2));
    c.set_block_at(5, 40, 9, Blocks::State(77));
    let mask = c.get_bit_mask();
    c.set_block_at(5, 40, 9, Blocks::State(77));
    assert_eq!(c.get_bit_mask(), mask);
    // Setting an absent section's cell to air is a no-op.
    c.set_block_at(0, 0, 0, Blocks::Air);
    assert_eq!(c.get_bit_mask(), mask);
}

#[test]
fn chunk_lifecycle_returns_to_empty() {
    let pos = ChunkPos::new(3, -2);
    let mut c = Chunk::empty(pos);
    assert_eq!(c.get_bit_mask(), 0);
    assert!(c.is_dirty());
    c.set_block_at(0, 0, 0, Blocks::State(5));
    assert!(c.get_chunk_sections()[0].is_some());
    assert_eq!(c.get_bit_mask() & 1, 1);
    c.set_block_at(0, 0, 0, Blocks::Air);
    assert!(c.get_chunk_sections()[0].is_none());
    assert_eq!(c.get_bit_mask(), 0);
    assert_eq!(*c.get_position(), pos);
    assert_eq!(c.get_position().x, 3);
    assert_eq!(c.get_position().z, -2);
}

#[test]
fn dirty_flag_is_explicit() {
    let mut c = Chunk::empty(ChunkPos::new(0, 0));
    assert!(c.is_dirty());
    c.mark_dirty(false);
    assert!(!c.is_dirty());
    c.mark_dirty(true);
    assert!(c.is_dirty());
}

#[test]
fn dirty_set_on_state_change_only() {
    let mut c = Chunk::empty(ChunkPos::new(0, 0));
    c.mark_dirty(false);
    // A state-changing write marks the chunk dirty.
    c.set_block_at(0, 0, 0, Blocks::State(1));
    assert!(c.is_dirty());
    // Re-writing the same state does not.
    c.mark_dirty(false);
    c.set_block_at(0, 0, 0, Blocks::State(1));
    assert!(!c.is_dirty());
    // Clearing air on an absent section is a no-op.
    c.set_block_at(5, 200, 5, Blocks::Air);
    assert!(!c.is_dirty());
    // Clearing the block is a state change again.
    c.set_block_at(0, 0, 0, Blocks::Air);
    assert!(c.is_dirty());
}

#[test]
fn calculate_index_formula() {
    assert_eq!(ChunkSection::calculate_index(0, 0, 0), 0);
    assert_eq!(ChunkSection::calculate_index(1, 0, 0), 1);
    assert_eq!(ChunkSection::calculate_index(0, 0, 1), 16);
    assert_eq!(ChunkSection::calculate_index(0, 1, 0), 256);
    assert_eq!(ChunkSection::calculate_index(15, 15, 15), 4095);
}

#[test]
fn section_default_is_empty() {
    let s = ChunkSection::default();
    assert_eq!(s.get_block_count(), 0);
    assert_eq!(s.get_palette().len(), 1);
    assert_eq!(s.get_block_data().len(), 4096);
    assert!(s.get_block_data().iter().all(|&v| v == 0));
}
