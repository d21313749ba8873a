//! The terrain generator: a height field over noise samples, the voxel
//! classifier, the chunk filler and the heightmap preview.
//!
//! The noise itself is sampled by the caller. `Terrain` hands out the points at
//! which to sample it (`sample_point`, `chunk_columns`, `preview_columns`), and
//! takes the samples back, one per column, as `Fixed` values.
use vstd::prelude::*;
use crate::chunk::{cell_index, in_chunk, lemma_cell_index_bounds, Chunk, VoxelType, CHUNK_XZ, CHUNK_Y};
use crate::fixed::{abs, div_toward_zero, fits_i64, magnitude, map_range_raw, to_u8_spec, Fixed, RangeError, SCALE};

verus! {

/// Height, in whole cells, at and below which every voxel is solid stone.
pub const BEDROCK_Y: i32 = 10;

/// Columns along each side of the heightmap preview.
pub const PREVIEW_SIDE: usize = 128;

/// Columns in the heightmap preview.
pub const PREVIEW_COLUMNS: usize = 16384;

/// Bytes in the heightmap preview: four channels per column.
pub const PREVIEW_BYTES: usize = 65536;

/// Columns in a chunk.
pub const CHUNK_COLUMNS: usize = 256;

/// A world position in whole cells: `x` and `z` horizontal, `y` up.
#[derive(Clone, Copy, Debug, PartialEq, Eq, Structural)]
pub struct Position {
    pub x: i32,
    pub y: i32,
    pub z: i32,
}

/// Raw noise coordinate for the world coordinate `c`: `c / 64 * 1.5 + 0.001`.
/// The small offset keeps samples off the seams of the noise grid.
pub open spec fn sample_coord(c: int) -> int {
    c * SCALE * 3 / 128 + SCALE / 1000
}

/// Raw terrain height over a column whose noise sample is `noise` (raw):
/// `CHUNK_Y / 4 + CHUNK_Y / 2 * noise`.
pub open spec fn height_raw(noise: int) -> int {
    (CHUNK_Y / 4) * SCALE + (CHUNK_Y / 2) * noise
}

/// The classification at height `y` of a column whose noise sample is `noise`.
pub open spec fn voxel_at(y: int, noise: int) -> VoxelType {
    if y <= BEDROCK_Y {
        VoxelType::Stone(255)
    } else {
        let h = height_raw(noise);
        let ry = y * SCALE;
        if h > ry {
            let diff = h - ry;
            if diff <= SCALE {
                VoxelType::Stone(to_u8_spec(map_range_raw(0, SCALE as int, 0, 255 * SCALE, diff)))
            } else {
                VoxelType::Stone(255)
            }
        } else {
            VoxelType::Air
        }
    }
}

/// The scalar that the preview reads off a classification: air reads 0, a
/// solid voxel its fill.
pub open spec fn surface_value(v: VoxelType) -> int {
    match v {
        VoxelType::Air => 0,
        VoxelType::Dirt(d) => d as int,
        VoxelType::Grass(d) => d as int,
        VoxelType::Stone(d) => d as int,
    }
}

/// Scanning up from `cy`, the first height whose surface value is not
/// positive; 0 where there is none below `CHUNK_Y`.
pub open spec fn scan_height(noise: int, cy: int) -> int
    decreases CHUNK_Y - cy,
{
    if cy >= CHUNK_Y || cy < 0 {
        0
    } else if surface_value(voxel_at(cy, noise)) <= 0 {
        cy
    } else {
        scan_height(noise, cy + 1)
    }
}

/// Grey level of a column: its scanned height mapped from `[0, CHUNK_Y]` onto
/// `[0, 255]`, truncated to `u8`.
pub open spec fn column_shade(noise: int) -> u8 {
    to_u8_spec(map_range_raw(0, CHUNK_Y * SCALE, 0, 255 * SCALE, scan_height(noise, 0) * SCALE))
}

/// The preview image of the column samples `cols`: one RGBA pixel per column,
/// grey in red, green and blue, and opaque.
pub open spec fn heightmap(cols: Seq<Fixed>) -> Seq<u8> {
    Seq::new(PREVIEW_BYTES as nat, |b: int| if b % 4 == 3 { 255u8 } else { column_shade(cols[b / 4].raw as int) })
}

/// World x of preview column `i` (columns run x-major, then z).
pub open spec fn preview_x(i: int) -> int {
    i / (PREVIEW_SIDE as int) - 64
}

/// World z of preview column `i`.
pub open spec fn preview_z(i: int) -> int {
    i % (PREVIEW_SIDE as int) - 64
}

/// The noise coordinates of the column `(x, z)`.
pub open spec fn sample_at(x: int, z: int) -> (Fixed, Fixed) {
    (Fixed { raw: sample_coord(x) as i64 }, Fixed { raw: sample_coord(z) as i64 })
}

/// Index of the column `(x, z)` of a chunk in a table of its column samples.
pub open spec fn column_of(x: int, z: int) -> int {
    x * CHUNK_XZ + z
}

/// Where the chunk filler may place a chunk: every cell's world position fits.
pub open spec fn origin_fits(origin: Position) -> bool {
    origin.x + CHUNK_XZ <= i32::MAX && origin.y + CHUNK_Y <= i32::MAX && origin.z + CHUNK_XZ <= i32::MAX
}

/// The terrain generator. The seed builds the noise source that the caller
/// samples at the points this generator names.
pub struct Terrain {
    pub seed: u64,
}

proof fn lemma_exact_quotient(q: int, d: int)
    requires
        d > 0,
    ensures
        (q * d) / d == q,
{
    vstd::arithmetic::div_mod::lemma_div_multiples_vanish(q, d);
    assert(q * d == d * q) by (nonlinear_arith);
}

proof fn lemma_fill_map(diff: int)
    requires
        0 < diff <= SCALE,
    ensures
        map_range_raw(0, SCALE as int, 0, 255 * SCALE, diff) == 255 * diff,
{
    assert((diff - 0) * (255 * SCALE - 0) == (255 * diff) * SCALE) by (nonlinear_arith);
    assert((255 * diff) * SCALE > 0) by (nonlinear_arith) requires diff > 0;
    lemma_exact_quotient(255 * diff, SCALE as int);
}

proof fn lemma_shade_map(h: int)
    requires
        0 <= h < CHUNK_Y,
    ensures
        map_range_raw(0, CHUNK_Y * SCALE, 0, 255 * SCALE, h * SCALE) == h * 255 * 1024000,
        0 <= h * 255 * 1024000 <= 255 * SCALE,
{
    assert((h * SCALE - 0) * (255 * SCALE - 0) == (h * 255 * 1024000) * (CHUNK_Y * SCALE)) by (nonlinear_arith);
    assert((h * 255 * 1024000) * (CHUNK_Y * SCALE) >= 0) by (nonlinear_arith) requires h >= 0;
    lemma_exact_quotient(h * 255 * 1024000, CHUNK_Y * SCALE);
    assert(0 <= h * 255 * 1024000 <= 255 * SCALE) by (nonlinear_arith) requires 0 <= h < 64;
}

/// Raw terrain height, held wide enough for any sample.
fn height_wide(noise: Fixed) -> (r: i128)
    ensures
        r == height_raw(noise.raw as int),
{
    let quarter: i128 = (CHUNK_Y / 4) as i128;
    let half: i128 = (CHUNK_Y / 2) as i128;
    let n: i128 = noise.raw as i128;
    proof {
        assert(quarter == 16 && half == 32);
        assert(-32 * 0x8000_0000_0000_0000 <= half * n <= 32 * 0x7fff_ffff_ffff_ffff) by (nonlinear_arith)
            requires half == 32, -0x8000_0000_0000_0000 <= n <= 0x7fff_ffff_ffff_ffff;
    }
    quarter * (SCALE as i128) + half * n
}

impl Terrain {
    pub fn new(seed: u64) -> (r: Terrain)
        ensures
            r.seed == seed,
    {
        Terrain { seed }
    }

    /// The noise coordinates sampled for the column `(x, z)`.
    pub fn sample_point(x: i32, z: i32) -> (r: (Fixed, Fixed))
        ensures
            r.0.raw == sample_coord(x as int),
            r.1.raw == sample_coord(z as int),
            r == sample_at(x as int, z as int),
    {
        proof {
            assert(x * SCALE * 3 == (x * 1536000) * 128) by (nonlinear_arith);
            assert(z * SCALE * 3 == (z * 1536000) * 128) by (nonlinear_arith);
            lemma_exact_quotient(x * 1536000, 128);
            lemma_exact_quotient(z * 1536000, 128);
        }
        let sx = (x as i64) * 1536000 + 65536;
        let sz = (z as i64) * 1536000 + 65536;
        (Fixed { raw: sx }, Fixed { raw: sz })
    }

    /// Terrain height over a column whose noise sample is `noise`.
    pub fn height_at(noise: Fixed) -> (r: Fixed)
        requires
            fits_i64(height_raw(noise.raw as int)),
        ensures
            r.raw == height_raw(noise.raw as int),
    {
        Fixed { raw: height_wide(noise) as i64 }
    }

    /// Maps `s` linearly from the range `from` onto the range `to`, with no
    /// clamping: values outside `from` extrapolate. Fails with `DegenerateRange`
    /// exactly when the ends of `from` are equal, and with `Overflow` exactly when
    /// the result does not fit a `Fixed`.
    pub fn map_range(from: (Fixed, Fixed), to: (Fixed, Fixed), s: Fixed) -> (r: Result<Fixed, RangeError>)
        ensures
            from.0.raw == from.1.raw <==> r == Err::<Fixed, RangeError>(RangeError::DegenerateRange),
            from.0.raw != from.1.raw ==> {
                let m = map_range_raw(from.0.raw as int, from.1.raw as int, to.0.raw as int, to.1.raw as int, s.raw as int);
                &&& fits_i64(m) ==> r == Ok::<Fixed, RangeError>(Fixed { raw: m as i64 })
                &&& !fits_i64(m) ==> r == Err::<Fixed, RangeError>(RangeError::Overflow)
            },
    {
        if from.0.raw == from.1.raw {
            return Err(RangeError::DegenerateRange);
        }
        let a: i128 = (s.raw as i128) - (from.0.raw as i128);
        let b: i128 = (to.1.raw as i128) - (to.0.raw as i128);
        let c: i128 = (from.1.raw as i128) - (from.0.raw as i128);
        let ma = magnitude(a);
        let mb = magnitude(b);
        let mc = magnitude(c);
        proof {
            assert(ma * mb <= 0xffff_ffff_ffff_ffffu128 * 0xffff_ffff_ffff_ffffu128) by (nonlinear_arith)
                requires ma <= 0xffff_ffff_ffff_ffffu128, mb <= 0xffff_ffff_ffff_ffffu128;
            assert(abs(a * b) == abs(a as int) * abs(b as int)) by (nonlinear_arith);
            assert((a * b < 0) == ((a < 0) != (b < 0)) || a * b == 0) by (nonlinear_arith);
        }
        let q: u128 = (ma * mb) / mc;
        if q > 0x1_0000_0000_0000_0000u128 {
            proof {
                assert(abs(map_range_raw(from.0.raw as int, from.1.raw as int, to.0.raw as int, to.1.raw as int, s.raw as int) - to.0.raw) == q);
            }
            return Err(RangeError::Overflow);
        }
        let negative = (a < 0) != (b < 0) && a != 0 && b != 0;
        let signed: i128 = if (negative != (c < 0)) && q != 0 { -(q as i128) } else { q as i128 };
        proof {
            assert(signed == div_toward_zero(a * b, c as int)) by {
                if a == 0 || b == 0 {
                    assert(a * b == 0) by (nonlinear_arith) requires a == 0 || b == 0;
                } else {
                    assert((a * b < 0) == ((a < 0) != (b < 0))) by (nonlinear_arith) requires a != 0, b != 0;
                }
            }
        }
        let m: i128 = (to.0.raw as i128) + signed;
        if m < (i64::MIN as i128) || m > (i64::MAX as i128) {
            Err(RangeError::Overflow)
        } else {
            Ok(Fixed { raw: m as i64 })
        }
    }


    /// Classifies the voxel at `position`, whose column has the noise sample
    /// `noise`: bedrock at and below `BEDROCK_Y`; under the surface stone,
    /// with a fill that falls from 255 to 0 over the last cell below it; air
    /// from the surface up.
    pub fn get_block_type(&self, position: Position, noise: Fixed) -> (r: VoxelType)
        ensures
            r == voxel_at(position.y as int, noise.raw as int),
    {
        if position.y <= BEDROCK_Y {
            return VoxelType::Stone(255);
        }
        let h = height_wide(noise);
        let y: i128 = position.y as i128;
        proof {
            assert(-0x8000_0000 * SCALE <= y * SCALE <= 0x7fff_ffff * SCALE) by (nonlinear_arith)
                requires -0x8000_0000 <= y <= 0x7fff_ffff;
        }
        let ry: i128 = y * (SCALE as i128);
        if h > ry {
            let diff: i128 = h - ry;
            if diff <= SCALE as i128 {
                proof { lemma_fill_map(diff as int); }
                let mapped = Self::map_range(
                    (Fixed { raw: 0 }, Fixed { raw: SCALE }),
                    (Fixed { raw: 0 }, Fixed { raw: 255 * SCALE }),
                    Fixed { raw: diff as i64 },
                );
                match mapped {
                    Ok(m) => VoxelType::Stone(m.to_u8()),
                    Err(_) => {
                        proof { assert(false); }
                        VoxelType::Stone(0)
                    },
                }
            } else {
                VoxelType::Stone(255)
            }
        } else {
            VoxelType::Air
        }
    }


    /// The noise sample points of a chunk's columns, for the chunk whose first
    /// cell is at `world_position`: the column `(x, z)` stands at
    /// `column_of(x, z)`.
    pub fn chunk_columns(world_position: Position) -> (r: Vec<(Fixed, Fixed)>)
        requires
            origin_fits(world_position),
        ensures
            r@.len() == CHUNK_COLUMNS,
            forall|x: int, z: int|
                0 <= x < CHUNK_XZ && 0 <= z < CHUNK_XZ ==> #[trigger] r@[column_of(x, z)] == sample_at(
                    world_position.x + x,
                    world_position.z + z,
                ),
    {
        let mut points: Vec<(Fixed, Fixed)> = Vec::new();
        let mut cx: usize = 0;
        while cx < CHUNK_XZ
            invariant
                origin_fits(world_position),
                cx <= CHUNK_XZ,
                points@.len() == cx * CHUNK_XZ,
                forall|x: int, z: int|
                    0 <= x < cx && 0 <= z < CHUNK_XZ ==> #[trigger] points@[column_of(x, z)] == sample_at(
                        world_position.x + x,
                        world_position.z + z,
                    ),
            decreases CHUNK_XZ - cx,
        {
            let mut cz: usize = 0;
            while cz < CHUNK_XZ
                invariant
                    origin_fits(world_position),
                    cx < CHUNK_XZ,
                    cz <= CHUNK_XZ,
                    points@.len() == cx * CHUNK_XZ + cz,
                    forall|x: int, z: int|
                        0 <= x < cx && 0 <= z < CHUNK_XZ ==> #[trigger] points@[column_of(x, z)] == sample_at(
                            world_position.x + x,
                            world_position.z + z,
                        ),
                    forall|z: int|
                        0 <= z < cz ==> #[trigger] points@[column_of(cx as int, z)] == sample_at(
                            world_position.x + cx,
                            world_position.z + z,
                        ),
                decreases CHUNK_XZ - cz,
            {
                let p = Self::sample_point(world_position.x + cx as i32, world_position.z + cz as i32);
                points.push(p);
                cz = cz + 1;
            }
            cx = cx + 1;
        }
        points
    }

    /// Fills every cell of `chunk` with the classification of its world
    /// position, `world_position` plus the cell's offset. `columns` holds the
    /// noise samples of the chunk's columns, in the order of `chunk_columns`.
    /// The chunk's earlier contents are not read.
    pub fn generate(&self, chunk: &mut Chunk, world_position: Position, columns: &Vec<Fixed>)
        requires
            old(chunk).wf(),
            columns@.len() == CHUNK_COLUMNS,
            origin_fits(world_position),
        ensures
            final(chunk).wf(),
            forall|x: int, y: int, z: int|
                in_chunk(x, y, z) ==> #[trigger] final(chunk).cell(x, y, z) == voxel_at(
                    world_position.y + y,
                    columns@[column_of(x, z)].raw as int,
                ),
    {
        let mut cx: usize = 0;
        while cx < CHUNK_XZ
            invariant
                chunk.wf(),
                columns@.len() == CHUNK_COLUMNS,
                origin_fits(world_position),
                cx <= CHUNK_XZ,
                forall|x: int, y: int, z: int|
                    in_chunk(x, y, z) && x < cx ==> #[trigger] chunk.cell(x, y, z) == voxel_at(
                        world_position.y + y,
                        columns@[column_of(x, z)].raw as int,
                    ),
            decreases CHUNK_XZ - cx,
        {
            let mut cy: usize = 0;
            while cy < CHUNK_Y
                invariant
                    chunk.wf(),
                    columns@.len() == CHUNK_COLUMNS,
                    origin_fits(world_position),
                    cx < CHUNK_XZ,
                    cy <= CHUNK_Y,
                    forall|x: int, y: int, z: int|
                        in_chunk(x, y, z) && (x < cx || (x == cx && y < cy)) ==> #[trigger] chunk.cell(x, y, z)
                            == voxel_at(world_position.y + y, columns@[column_of(x, z)].raw as int),
                decreases CHUNK_Y - cy,
            {
                let mut cz: usize = 0;
                while cz < CHUNK_XZ
                    invariant
                        chunk.wf(),
                        columns@.len() == CHUNK_COLUMNS,
                        origin_fits(world_position),
                        cx < CHUNK_XZ,
                        cy < CHUNK_Y,
                        cz <= CHUNK_XZ,
                        forall|x: int, y: int, z: int|
                            in_chunk(x, y, z) && (x < cx || (x == cx && y < cy) || (x == cx && y == cy && z < cz))
                                ==> #[trigger] chunk.cell(x, y, z) == voxel_at(
                                world_position.y + y,
                                columns@[column_of(x, z)].raw as int,
                            ),
                    decreases CHUNK_XZ - cz,
                {
                    let position = Position {
                        x: world_position.x + cx as i32,
                        y: world_position.y + cy as i32,
                        z: world_position.z + cz as i32,
                    };
                    let noise = columns[cx * CHUNK_XZ + cz];
                    let block = self.get_block_type(position, noise);
                    let ghost before = *chunk;
                    chunk.set_block(cx, cy, cz, block);
                    proof {
                        assert forall|x: int, y: int, z: int|
                            in_chunk(x, y, z) && !(x == cx && y == cy && z == cz) implies #[trigger] chunk.cell(x, y, z)
                                == before.cell(x, y, z) by {
                            if cell_index(x, y, z) == cell_index(cx as int, cy as int, cz as int) {
                                crate::chunk::lemma_cell_index_injective(x, y, z, cx as int, cy as int, cz as int);
                            }
                            lemma_cell_index_bounds(x, y, z);
                        }
                    }
                    cz = cz + 1;
                }
                cy = cy + 1;
            }
            cx = cx + 1;
        }
    }

    /// A new chunk filled as `generate` fills one.
    pub fn generate2(&self, world_position: Position, columns: &Vec<Fixed>) -> (r: Chunk)
        requires
            columns@.len() == CHUNK_COLUMNS,
            origin_fits(world_position),
        ensures
            r.wf(),
            forall|x: int, y: int, z: int|
                in_chunk(x, y, z) ==> #[trigger] r.cell(x, y, z) == voxel_at(
                    world_position.y + y,
                    columns@[column_of(x, z)].raw as int,
                ),
    {
        let mut chunk = Chunk::new();
        self.generate(&mut chunk, world_position, columns);
        chunk
    }


    /// The noise sample points of the preview's columns: the column at world
    /// `(x, z)`, for `x` and `z` in `[-64, 64)`, stands at
    /// `(x + 64) * PREVIEW_SIDE + (z + 64)`.
    pub fn preview_columns() -> (r: Vec<(Fixed, Fixed)>)
        ensures
            r@.len() == PREVIEW_COLUMNS,
            forall|i: int| 0 <= i < PREVIEW_COLUMNS ==> #[trigger] r@[i] == sample_at(preview_x(i), preview_z(i)),
    {
        let mut points: Vec<(Fixed, Fixed)> = Vec::new();
        let mut i: usize = 0;
        while i < PREVIEW_COLUMNS
            invariant
                i <= PREVIEW_COLUMNS,
                points@.len() == i,
                forall|k: int| 0 <= k < i ==> #[trigger] points@[k] == sample_at(preview_x(k), preview_z(k)),
            decreases PREVIEW_COLUMNS - i,
        {
            let x: i32 = (i / PREVIEW_SIDE) as i32 - 64;
            let z: i32 = (i % PREVIEW_SIDE) as i32 - 64;
            points.push(Self::sample_point(x, z));
            i = i + 1;
        }
        points
    }

    /// Scanning up from the bottom of the column at `(x, z)`, whose noise sample
    /// is `noise`, the first height whose surface value is not positive; 0
    /// where there is none.
    fn scan_column(&self, x: i32, z: i32, noise: Fixed) -> (h: usize)
        ensures
            h == scan_height(noise.raw as int, 0),
            h < CHUNK_Y,
    {
        let mut cy: usize = 0;
        let mut height: usize = 0;
        let mut done = false;
        while cy < CHUNK_Y
            invariant
                cy <= CHUNK_Y,
                height < CHUNK_Y,
                done ==> height == scan_height(noise.raw as int, 0) && cy == CHUNK_Y,
                !done ==> height == 0 && scan_height(noise.raw as int, 0) == scan_height(noise.raw as int, cy as int),
            decreases CHUNK_Y - cy,
        {
            let block = self.get_block_type(Position { x, y: cy as i32, z }, noise);
            let value: u8 = match block {
                VoxelType::Air => 0,
                VoxelType::Dirt(d) => d,
                VoxelType::Grass(d) => d,
                VoxelType::Stone(d) => d,
            };
            assert(surface_value(block) == value as int);
            if value == 0 {
                assert(scan_height(noise.raw as int, cy as int) == cy);
                height = cy;
                done = true;
                cy = CHUNK_Y;
            } else {
                cy = cy + 1;
            }
        }
        height
    }

    /// The heightmap preview: for each of the `PREVIEW_COLUMNS` columns, in the
    /// order of `preview_columns`, whose noise samples `columns` holds, one
    /// opaque grey RGBA pixel whose level is the column's scanned height mapped
    /// from `[0, CHUNK_Y]` onto `[0, 255]`.
    pub fn generate_image(&self, columns: &Vec<Fixed>) -> (r: Vec<u8>)
        requires
            columns@.len() == PREVIEW_COLUMNS,
        ensures
            r@ == heightmap(columns@),
    {
        let mut data: Vec<u8> = Vec::new();
        let mut i: usize = 0;
        while i < PREVIEW_COLUMNS
            invariant
                columns@.len() == PREVIEW_COLUMNS,
                i <= PREVIEW_COLUMNS,
                data@.len() == 4 * i,
                forall|k: int| 0 <= k < 4 * i ==> #[trigger] data@[k] == heightmap(columns@)[k],
            decreases PREVIEW_COLUMNS - i,
        {
            let x: i32 = (i / PREVIEW_SIDE) as i32 - 64;
            let z: i32 = (i % PREVIEW_SIDE) as i32 - 64;
            let noise = columns[i];
            let h = self.scan_column(x, z, noise);
            proof { lemma_shade_map(h as int); }
            let level = Self::map_range(
                (Fixed { raw: 0 }, Fixed::from_int(CHUNK_Y as i32)),
                (Fixed { raw: 0 }, Fixed::from_int(255)),
                Fixed::from_int(h as i32),
            );
            let grey: u8 = match level {
                Ok(m) => m.to_u8(),
                Err(_) => {
                    proof { assert(false); }
                    0
                },
            };
            assert(grey == column_shade(noise.raw as int));
            data.push(grey);
            data.push(grey);
            data.push(grey);
            data.push(255);
            proof {
                assert forall|k: int| 0 <= k < 4 * (i + 1) implies #[trigger] data@[k] == heightmap(columns@)[k] by {
                    if k >= 4 * i {
                        assert(k / 4 == i as int);
                    }
                }
            }
            i = i + 1;
        }
        assert(data@ =~= heightmap(columns@));
        data
    }

}

/// A classification depends on nothing but the height and the column's noise
/// sample: two queries with equal positions and equal samples agree, whichever
/// generator answers them.
pub proof fn lemma_classify_deterministic(t1: Terrain, t2: Terrain, p1: Position, p2: Position, n1: Fixed, n2: Fixed)
    requires
        t1.seed == t2.seed,
        p1 == p2,
        n1 == n2,
    ensures
        voxel_at(p1.y as int, n1.raw as int) == voxel_at(p2.y as int, n2.raw as int),
{
}

/// At and below `BEDROCK_Y` every voxel is full stone, whatever the column.
pub proof fn lemma_bedrock(y: int, noise: int)
    requires
        y <= BEDROCK_Y,
    ensures
        voxel_at(y, noise) == VoxelType::Stone(255),
{
}

/// Above bedrock a voxel is air exactly when it is at or above the column's
/// surface height.
pub proof fn lemma_air_above_surface(y: int, noise: int)
    requires
        y > BEDROCK_Y,
    ensures
        (voxel_at(y, noise) == VoxelType::Air) <==> y * SCALE >= height_raw(noise),
{
}

/// Up a column the classification turns from solid to air at most once: above
/// an air voxel there is only air.
pub proof fn lemma_air_stays_air(y1: int, y2: int, noise: int)
    requires
        y1 <= y2,
        voxel_at(y1, noise) == VoxelType::Air,
    ensures
        voxel_at(y2, noise) == VoxelType::Air,
{
    assert(y1 * SCALE <= y2 * SCALE) by (nonlinear_arith) requires y1 <= y2;
}

/// The preview holds four bytes for each of its columns, and every pixel is
/// opaque.
pub proof fn lemma_heightmap_format(cols: Seq<Fixed>)
    ensures
        heightmap(cols).len() == PREVIEW_COLUMNS * 4,
        forall|i: int| 0 <= i < PREVIEW_COLUMNS ==> #[trigger] heightmap(cols)[4 * i + 3] == 255,
{
    assert forall|i: int| 0 <= i < PREVIEW_COLUMNS implies #[trigger] heightmap(cols)[4 * i + 3] == 255 by {
        assert((4 * i + 3) % 4 == 3);
    }
}

/// Changing the sample of one column changes at most that column's pixel.
pub proof fn lemma_column_independence(c1: Seq<Fixed>, c2: Seq<Fixed>, k: int)
    requires
        c1.len() == PREVIEW_COLUMNS,
        c2.len() == PREVIEW_COLUMNS,
        0 <= k < PREVIEW_COLUMNS,
        forall|i: int| 0 <= i < PREVIEW_COLUMNS && i != k ==> c1[i] == c2[i],
    ensures
        forall|b: int| 0 <= b < PREVIEW_BYTES && b / 4 != k ==> #[trigger] heightmap(c1)[b] == heightmap(c2)[b],
{
    assert forall|b: int| 0 <= b < PREVIEW_BYTES && b / 4 != k implies #[trigger] heightmap(c1)[b] == heightmap(c2)[b] by {
        assert(0 <= b / 4 < PREVIEW_COLUMNS);
    }
}

} // verus!
