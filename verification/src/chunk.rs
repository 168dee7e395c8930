//! Chunks: a palette of unique blocks per section, sections of 16x16x16
//! palette indices, and 16-section columns.

use vstd::prelude::*;

verus! {

/// Blocks are 16 wide and a chunk column is 256 tall.
pub const CHUNK_WIDTH: usize = 16;

/// The height of a full chunk column in blocks.
pub const CHUNK_HEIGHT: usize = 256;

/// A section is as wide as the chunk.
pub const SECTION_WIDTH: usize = 16;

/// The height of one chunk section in blocks.
pub const SECTION_HEIGHT: usize = 16;

/// The block kinds this world knows.
#[derive(Clone, Copy, PartialEq, Eq, Structural, Debug)]
pub enum Block {
    Air,
    Stone,
    Dirt,
    GrassBlock,
}

/// Fills newly created chunks with terrain; implemented by the embedding
/// application's generators.
pub trait ChunkGenerator {
    /// Populates `chunk` in place, once, right after it is created.
    fn generate_chunk(&self, chunk: &mut Chunk);
}

/// The first position of `block` in `s`, if it occurs.
pub open spec fn index_of_block(s: Seq<Block>, block: Block) -> Option<int>
    decreases s.len(),
{
    if s.len() == 0 {
        None
    } else if s[0] == block {
        Some(0int)
    } else {
        match index_of_block(s.drop_first(), block) {
            Some(i) => Some(i + 1),
            None => None,
        }
    }
}

proof fn lemma_index_of_block_found(s: Seq<Block>, i: int)
    requires
        0 <= i < s.len(),
        forall|k: int| 0 <= k < i ==> s[k] != s[i],
    ensures
        index_of_block(s, s[i]) == Some(i),
    decreases i,
{
    if i > 0 {
        lemma_index_of_block_found(s.drop_first(), i - 1);
    }
}

proof fn lemma_index_of_block_is_block(s: Seq<Block>, block: Block)
    requires
        index_of_block(s, block) is Some,
    ensures
        ({
            let i = index_of_block(s, block).unwrap();
            0 <= i < s.len() && s[i] == block
        }),
    decreases s.len(),
{
    if s.len() > 0 && s[0] != block {
        lemma_index_of_block_is_block(s.drop_first(), block);
    }
}

proof fn lemma_index_of_block_none(s: Seq<Block>, block: Block)
    requires
        forall|k: int| 0 <= k < s.len() ==> s[k] != block,
    ensures
        index_of_block(s, block) == None::<int>,
    decreases s.len(),
{
    if s.len() > 0 {
        lemma_index_of_block_none(s.drop_first(), block);
    }
}

/// A sequence of pairwise distinct blocks cannot outnumber the block kinds.
proof fn lemma_distinct_blocks_few(s: Seq<Block>)
    requires
        forall|i: int, j: int| 0 <= i < j < s.len() ==> s[i] != s[j],
    ensures
        s.len() <= 4,
{
    if s.len() >= 5 {
        assert(s[0] != s[1] && s[0] != s[2] && s[0] != s[3] && s[0] != s[4] && s[1] != s[2] && s[1]
            != s[3] && s[1] != s[4] && s[2] != s[3] && s[2] != s[4] && s[3] != s[4]);
        assert(false);
    }
}

/// The unique blocks of one chunk section, indexed by small numbers; index
/// 0 is always air.
#[derive(Clone, Debug)]
pub struct Palette {
    blocks: Vec<Block>,
}

impl Palette {
    /// The palette's block list.
    pub closed spec fn spec_blocks(self) -> Seq<Block> {
        self.blocks@
    }

    /// What an index stands for: the block at that position, or air for an
    /// index the palette does not hold.
    pub open spec fn spec_get(self, idx: int) -> Block {
        if 0 <= idx < self.spec_blocks().len() {
            self.spec_blocks()[idx]
        } else {
            Block::Air
        }
    }

    /// A palette starts at air and never holds a block twice.
    pub open spec fn wf(self) -> bool {
        &&& self.spec_blocks().len() >= 1
        &&& self.spec_blocks()[0] == Block::Air
        &&& forall|i: int, j: int|
            0 <= i < j < self.spec_blocks().len() ==> self.spec_blocks()[i]
                != self.spec_blocks()[j]
    }

    /// A fresh palette holding only air.
    pub fn new() -> (r: Self)
        ensures
            r.wf(),
            r.spec_blocks() == seq![Block::Air],
    {
        let mut blocks: Vec<Block> = Vec::new();
        blocks.push(Block::Air);
        proof {
            assert(blocks@ =~= seq![Block::Air]);
        }
        Self { blocks }
    }

    /// Returns the palette index for the given block, adding it if not
    /// present.
    pub fn get_or_insert(&mut self, block: Block) -> (r: u8)
        requires
            old(self).wf(),
        ensures
            final(self).wf(),
            match index_of_block(old(self).spec_blocks(), block) {
                Some(i) => (r == i && *final(self) == *old(self)),
                None => (final(self).spec_blocks() == old(self).spec_blocks().push(block) && r
                    == old(self).spec_blocks().len()),
            },
    {
        proof {
            lemma_distinct_blocks_few(self.blocks@);
        }
        let mut idx: usize = 0;
        loop
            invariant
                idx <= self.blocks@.len(),
                forall|k: int| 0 <= k < idx ==> self.blocks@[k] != block,
                self.blocks@.len() <= 4,
                old(self).wf(),
                *self == *old(self),
            ensures
                *self == *old(self),
                match index_of_block(self.blocks@, block) {
                    Some(i) => idx == i && idx < self.blocks@.len(),
                    None => idx == self.blocks@.len(),
                },
            decreases self.blocks@.len() - idx,
        {
            if idx >= self.blocks.len() {
                proof {
                    lemma_index_of_block_none(self.blocks@, block);
                }
                break ;
            }
            if self.blocks[idx] == block {
                proof {
                    lemma_index_of_block_found(self.blocks@, idx as int);
                }
                break ;
            }
            idx = idx + 1;
        }
        if idx < self.blocks.len() {
            idx as u8
        } else {
            self.blocks.push(block);
            proof {
                assert(forall|i: int, j: int|
                    0 <= i < j < self.blocks@.len() ==> self.blocks@[i] != self.blocks@[j]);
            }
            idx as u8
        }
    }

    /// The block an index stands for; air when the index is out of range.
    pub fn get(&self, idx: u8) -> (r: Block)
        ensures
            r == self.spec_get(idx as int),
    {
        if (idx as usize) < self.blocks.len() {
            self.blocks[idx as usize]
        } else {
            Block::Air
        }
    }

    /// The palette's block list, in index order.
    pub fn as_vec(&self) -> (r: &Vec<Block>)
        ensures
            r@ == self.spec_blocks(),
    {
        &self.blocks
    }
}

/// One 16x16x16 section: a palette and a cell per position holding a
/// palette index.
pub struct ChunkSection {
    palette: Palette,
    cells: Vec<u8>,
}

/// The cell position of block coordinates within a section.
pub open spec fn cell_index(x: int, y: int, z: int) -> int {
    x * 256 + y * 16 + z
}

impl ChunkSection {
    /// Every cell exists, holds a live palette index, and the palette is
    /// well formed.
    pub open spec fn wf(self) -> bool {
        &&& self.spec_palette().wf()
        &&& self.spec_cells().len() == 4096
        &&& forall|c: int|
            0 <= c < 4096 ==> (#[trigger] self.spec_cells()[c]) < self.spec_palette().spec_blocks().len()
    }

    /// The palette of this section.
    pub closed spec fn spec_palette(self) -> Palette {
        self.palette
    }

    /// The raw cells of this section.
    pub closed spec fn spec_cells(self) -> Seq<u8> {
        self.cells@
    }

    /// The block at a position within the section.
    pub open spec fn spec_block_at(self, x: int, y: int, z: int) -> Block {
        self.spec_palette().spec_get(self.spec_cells()[cell_index(x, y, z)] as int)
    }

    /// A fresh section: all air.
    pub fn new() -> (r: Self)
        ensures
            r.wf(),
            forall|x: int, y: int, z: int|
                0 <= x < 16 && 0 <= y < 16 && 0 <= z < 16 ==> r.spec_block_at(x, y, z)
                    == Block::Air,
    {
        let palette = Palette::new();
        let cells: Vec<u8> = vec![0u8; 4096];
        let r = Self { palette, cells };
        proof {
            assert forall|x: int, y: int, z: int|
                0 <= x < 16 && 0 <= y < 16 && 0 <= z < 16 implies r.spec_block_at(x, y, z)
                == Block::Air by {
                assert(0 <= cell_index(x, y, z) < 4096) by (nonlinear_arith)
                    requires
                        0 <= x < 16 && 0 <= y < 16 && 0 <= z < 16,
                ;
            }
        }
        r
    }

    /// Sets the block at a position; coordinates outside the section are
    /// ignored.
    pub fn set_block(&mut self, x: u8, y: u8, z: u8, block: Block)
        requires
            old(self).wf(),
        ensures
            final(self).wf(),
            x < 16 && y < 16 && z < 16 ==> final(self).spec_block_at(
                x as int,
                y as int,
                z as int,
            ) == block,
            forall|x2: int, y2: int, z2: int|
                0 <= x2 < 16 && 0 <= y2 < 16 && 0 <= z2 < 16 && !(x2 == x as int && y2 == y as int
                    && z2 == z as int) ==> final(self).spec_block_at(x2, y2, z2) == old(
                    self,
                ).spec_block_at(x2, y2, z2),
            !(x < 16 && y < 16 && z < 16) ==> *final(self) == *old(self),
    {
        if x < 16 && y < 16 && z < 16 {
            let ghost old_palette = self.palette;
            let idx = self.palette.get_or_insert(block);
            proof {
                match index_of_block(old_palette.spec_blocks(), block) {
                    Some(_) => {
                        lemma_index_of_block_is_block(old_palette.spec_blocks(), block);
                    },
                    None => {},
                }
                assert(self.palette.spec_get(idx as int) == block);
                assert(old_palette.spec_blocks().len() <= self.palette.spec_blocks().len());
                assert(forall|c: int|
                    0 <= c < old_palette.spec_blocks().len() ==> #[trigger] self.palette.spec_get(
                        c,
                    ) == old_palette.spec_get(c));
            }
            let cell = (x as usize) * 256 + (y as usize) * 16 + (z as usize);
            proof {
                assert(cell == cell_index(x as int, y as int, z as int));
                assert(0 <= cell_index(x as int, y as int, z as int) < 4096) by (nonlinear_arith)
                    requires
                        x < 16 && y < 16 && z < 16,
                ;
            }
            self.cells[cell] = idx;
            proof {
                assert forall|x2: int, y2: int, z2: int|
                    0 <= x2 < 16 && 0 <= y2 < 16 && 0 <= z2 < 16 && !(x2 == x as int && y2
                        == y as int && z2 == z as int) implies self.spec_block_at(x2, y2, z2)
                    == old(self).spec_block_at(x2, y2, z2) by {
                    lemma_cell_index_injective(
                        x2,
                        y2,
                        z2,
                        x as int,
                        y as int,
                        z as int,
                    );
                    assert(0 <= cell_index(x2, y2, z2) < 4096) by (nonlinear_arith)
                        requires
                            0 <= x2 < 16 && 0 <= y2 < 16 && 0 <= z2 < 16,
                    ;
                    assert(self.spec_cells()[cell_index(x2, y2, z2)] == old(self).spec_cells()[
                        cell_index(x2, y2, z2)]);
                }
            }
        }
    }

    /// The block at a position; air outside the section.
    pub fn get_block(&self, x: u8, y: u8, z: u8) -> (r: Block)
        requires
            self.wf(),
        ensures
            x < 16 && y < 16 && z < 16 ==> r == self.spec_block_at(x as int, y as int, z as int),
            !(x < 16 && y < 16 && z < 16) ==> r == Block::Air,
    {
        if x < 16 && y < 16 && z < 16 {
            let cell = (x as usize) * 256 + (y as usize) * 16 + (z as usize);
            proof {
                assert(cell == cell_index(x as int, y as int, z as int));
                assert(0 <= cell_index(x as int, y as int, z as int) < 4096) by (nonlinear_arith)
                    requires
                        x < 16 && y < 16 && z < 16,
                ;
            }
            let idx = self.cells[cell];
            self.palette.get(idx)
        } else {
            Block::Air
        }
    }
}

/// Two distinct in-range positions occupy distinct cells.
proof fn lemma_cell_index_injective(x1: int, y1: int, z1: int, x2: int, y2: int, z2: int)
    requires
        0 <= x1 < 16,
        0 <= y1 < 16,
        0 <= z1 < 16,
        0 <= x2 < 16,
        0 <= y2 < 16,
        0 <= z2 < 16,
        !(x1 == x2 && y1 == y2 && z1 == z2),
    ensures
        cell_index(x1, y1, z1) != cell_index(x2, y2, z2),
{
    assert(x1 * 256 + y1 * 16 + z1 != x2 * 256 + y2 * 16 + z2) by (nonlinear_arith)
        requires
            0 <= x1 < 16 && 0 <= y1 < 16 && 0 <= z1 < 16 && 0 <= x2 < 16 && 0 <= y2 < 16 && 0
                <= z2 < 16 && !(x1 == x2 && y1 == y2 && z1 == z2),
    ;
}

/// Whether every position of a section holds air.
pub open spec fn section_all_air(s: ChunkSection) -> bool {
    forall|x: int, y: int, z: int|
        0 <= x < 16 && 0 <= y < 16 && 0 <= z < 16 ==> s.spec_block_at(x, y, z) == Block::Air
}

/// A full 16x256x16 chunk column: sixteen sections stacked bottom-up.
pub struct Chunk {
    pub x: i32,
    pub z: i32,
    pub sections: Vec<ChunkSection>,
}

impl Chunk {
    /// The stacked sections.
    pub open spec fn spec_sections(self) -> Seq<ChunkSection> {
        self.sections@
    }

    /// Sixteen sections, each well formed.
    pub open spec fn wf(self) -> bool {
        &&& self.spec_sections().len() == 16
        &&& forall|i: int| 0 <= i < 16 ==> (#[trigger] self.spec_sections()[i]).wf()
    }

    /// The block at a position within the column.
    pub open spec fn spec_block_at(self, x: int, y: int, z: int) -> Block {
        self.spec_sections()[y / 16].spec_block_at(x, y % 16, z)
    }

    /// A fresh all-air chunk at the given chunk coordinates.
    pub fn new(x: i32, z: i32) -> (r: Self)
        ensures
            r.wf(),
            r.x == x,
            r.z == z,
            forall|x2: int, y2: int, z2: int|
                0 <= x2 < 16 && 0 <= y2 < 256 && 0 <= z2 < 16 ==> r.spec_block_at(x2, y2, z2)
                    == Block::Air,
    {
        let mut sections: Vec<ChunkSection> = Vec::new();
        let mut i: usize = 0;
        loop
            invariant
                sections@.len() == i,
                i <= 16,
                forall|k: int|
                    0 <= k < i ==> (#[trigger] sections@[k]).wf() && section_all_air(
                        sections@[k],
                    ),
            ensures
                sections@.len() == 16,
                forall|k: int|
                    0 <= k < 16 ==> (#[trigger] sections@[k]).wf() && section_all_air(
                        sections@[k],
                    ),
            decreases 16 - i,
        {
            if i >= 16 {
                break ;
            }
            sections.push(ChunkSection::new());
            i = i + 1;
        }
        let r = Self { x, z, sections };
        proof {
            assert forall|x2: int, y2: int, z2: int|
                0 <= x2 < 16 && 0 <= y2 < 256 && 0 <= z2 < 16 implies r.spec_block_at(x2, y2, z2)
                == Block::Air by {
                assert(0 <= y2 / 16 < 16);
                assert(0 <= y2 % 16 < 16);
                assert(section_all_air(r.spec_sections()[y2 / 16]));
            }
        }
        r
    }

    /// The chunk coordinates of this column.
    pub fn coordinates(&self) -> (r: (i32, i32))
        ensures
            r == (self.x, self.z),
    {
        (self.x, self.z)
    }

    /// Sets the block at a position; coordinates outside the column are
    /// ignored. A `u8` y covers the whole 256-block height.
    pub fn set_block(&mut self, x: u8, y: u8, z: u8, block: Block)
        requires
            old(self).wf(),
        ensures
            final(self).wf(),
            final(self).x == old(self).x && final(self).z == old(self).z,
            x < 16 && z < 16 ==> final(self).spec_block_at(x as int, y as int, z as int) == block,
            forall|x2: int, y2: int, z2: int|
                0 <= x2 < 16 && 0 <= y2 < 256 && 0 <= z2 < 16 && !(x2 == x as int && y2
                    == y as int && z2 == z as int) ==> final(self).spec_block_at(x2, y2, z2)
                    == old(self).spec_block_at(x2, y2, z2),
            !(x < 16 && z < 16) ==> *final(self) == *old(self),
    {
        if x < 16 && z < 16 {
            let section_idx = (y / 16) as usize;
            let section_y = y % 16;
            let ghost old_sections = self.sections@;
            let section = vstd::std_specs::vec::vec_index_mut(&mut self.sections, section_idx);
            section.set_block(x, section_y, z, block);
            proof {
                assert(self.sections@ == old_sections.update(
                    section_idx as int,
                    self.sections@[section_idx as int],
                ));
                assert forall|x2: int, y2: int, z2: int|
                    0 <= x2 < 16 && 0 <= y2 < 256 && 0 <= z2 < 16 && !(x2 == x as int && y2
                        == y as int && z2 == z as int) implies self.spec_block_at(x2, y2, z2)
                    == old(self).spec_block_at(x2, y2, z2) by {
                    assert(0 <= y2 / 16 < 16);
                    assert(0 <= y2 % 16 < 16);
                    if y2 / 16 == section_idx as int {
                        assert(y2 == 16 * (y2 / 16) + y2 % 16);
                        assert(y as int == 16 * (y as int / 16) + y as int % 16);
                        assert(!(x2 == x as int && y2 % 16 == section_y as int && z2
                            == z as int));
                    }
                }
            }
        }
    }

    /// The block at a position; air outside the column.
    pub fn get_block(&self, x: u8, y: u8, z: u8) -> (r: Block)
        requires
            self.wf(),
        ensures
            x < 16 && z < 16 ==> r == self.spec_block_at(x as int, y as int, z as int),
            !(x < 16 && z < 16) ==> r == Block::Air,
    {
        if x < 16 && z < 16 {
            let section_idx = (y / 16) as usize;
            let section_y = y % 16;
            self.sections[section_idx].get_block(x, section_y, z)
        } else {
            Block::Air
        }
    }
}

} // verus!
