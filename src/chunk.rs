//! Voxel classifications and the fixed-size chunk that holds them.
use vstd::prelude::*;

verus! {

/// Horizontal extent of a chunk, along x and along z.
pub const CHUNK_XZ: usize = 16;

/// Vertical extent of a chunk.
pub const CHUNK_Y: usize = 64;

/// Number of cells in a chunk.
pub const CHUNK_CELLS: usize = 16384;

/// The material of one voxel. A solid voxel carries its fill: how full a
/// voxel at the surface is, from 0 to 255.
#[derive(Clone, Copy, Debug, PartialEq, Eq, Structural)]
pub enum VoxelType {
    Air,
    Dirt(u8),
    Grass(u8),
    Stone(u8),
}

/// Index of the cell `(x, y, z)` in a chunk's storage.
pub open spec fn cell_index(x: int, y: int, z: int) -> int {
    (x * CHUNK_Y + y) * CHUNK_XZ + z
}

pub open spec fn in_chunk(x: int, y: int, z: int) -> bool {
    0 <= x < CHUNK_XZ && 0 <= y < CHUNK_Y && 0 <= z < CHUNK_XZ
}

pub proof fn lemma_cell_index_bounds(x: int, y: int, z: int)
    requires
        in_chunk(x, y, z),
    ensures
        0 <= cell_index(x, y, z) < CHUNK_CELLS,
{
    assert(0 <= (x * 64 + y) * 16 + z < 16384) by (nonlinear_arith)
        requires 0 <= x < 16, 0 <= y < 64, 0 <= z < 16;
}

pub proof fn lemma_cell_index_injective(x: int, y: int, z: int, x2: int, y2: int, z2: int)
    requires
        in_chunk(x, y, z),
        in_chunk(x2, y2, z2),
        cell_index(x, y, z) == cell_index(x2, y2, z2),
    ensures
        x == x2 && y == y2 && z == z2,
{
    assert(x == x2 && y == y2 && z == z2) by (nonlinear_arith)
        requires
            0 <= x < 16, 0 <= y < 64, 0 <= z < 16,
            0 <= x2 < 16, 0 <= y2 < 64, 0 <= z2 < 16,
            (x * 64 + y) * 16 + z == (x2 * 64 + y2) * 16 + z2;
}

/// A `CHUNK_XZ` x `CHUNK_Y` x `CHUNK_XZ` block of voxels.
pub struct Chunk {
    blocks: Vec<VoxelType>,
}

impl Chunk {
    /// The cells in storage order (see `cell_index`).
    pub closed spec fn view(&self) -> Seq<VoxelType> {
        self.blocks@
    }

    pub open spec fn wf(&self) -> bool {
        self@.len() == CHUNK_CELLS
    }

    /// The voxel at `(x, y, z)`.
    pub open spec fn cell(&self, x: int, y: int, z: int) -> VoxelType {
        self@[cell_index(x, y, z)]
    }

    /// A chunk of air.
    pub fn new() -> (r: Chunk)
        ensures
            r.wf(),
            forall|i: int| 0 <= i < CHUNK_CELLS ==> r@[i] == VoxelType::Air,
    {
        let mut blocks: Vec<VoxelType> = Vec::new();
        let mut i: usize = 0;
        while i < CHUNK_CELLS
            invariant
                i <= CHUNK_CELLS,
                blocks@.len() == i,
                forall|k: int| 0 <= k < i ==> blocks@[k] == VoxelType::Air,
            decreases CHUNK_CELLS - i,
        {
            blocks.push(VoxelType::Air);
            i = i + 1;
        }
        Chunk { blocks }
    }

    /// Writes `block` at `(x, y, z)` and leaves every other cell as it was.
    pub fn set_block(&mut self, x: usize, y: usize, z: usize, block: VoxelType)
        requires
            old(self).wf(),
            in_chunk(x as int, y as int, z as int),
        ensures
            final(self).wf(),
            final(self)@ == old(self)@.update(cell_index(x as int, y as int, z as int), block),
    {
        proof { lemma_cell_index_bounds(x as int, y as int, z as int); }
        let i = (x * CHUNK_Y + y) * CHUNK_XZ + z;
        self.blocks.set(i, block);
    }

    /// The voxel at `(x, y, z)`.
    pub fn get_block(&self, x: usize, y: usize, z: usize) -> (r: VoxelType)
        requires
            self.wf(),
            in_chunk(x as int, y as int, z as int),
        ensures
            r == self.cell(x as int, y as int, z as int),
    {
        proof { lemma_cell_index_bounds(x as int, y as int, z as int); }
        self.blocks[(x * CHUNK_Y + y) * CHUNK_XZ + z]
    }
}

} // verus!
