use bracket_noise::prelude::{FastNoise, FractalType, NoiseType};
use titan_terrain::chunk::{Chunk, VoxelType, CHUNK_XZ, CHUNK_Y};
use titan_terrain::fixed::{Fixed, RangeError, SCALE};
use titan_terrain::terrain::{Position, Terrain, PREVIEW_BYTES, PREVIEW_COLUMNS};

fn fx(v: f64) -> Fixed {
    Fixed::from_raw((v * SCALE as f64) as i64)
}

fn noise_source(seed: u64) -> FastNoise {
    let mut noise = FastNoise::seeded(seed);
    noise.set_noise_type(NoiseType::SimplexFractal);
    noise.set_fractal_type(FractalType::FBM);
    noise.set_fractal_octaves(5);
    noise.set_fractal_gain(0.5);
    noise.set_fractal_lacunarity(2.0);
    noise.set_frequency(0.2);
    noise
}

fn sample(noise: &FastNoise, point: (Fixed, Fixed)) -> Fixed {
    let x = point.0.raw as f64 / SCALE as f64;
    let z = point.1.raw as f64 / SCALE as f64;
    fx(noise.get_noise(x as f32, z as f32) as f64)
}

fn unit_to_byte(s: Fixed) -> Result<Fixed, RangeError> {
    Terrain::map_range((fx(0.0), fx(1.0)), (fx(0.0), fx(255.0)), s)
}

#[test]
fn map_range_unit_to_byte() {
    assert_eq!(unit_to_byte(fx(0.0)), Ok(fx(0.0)));
    assert_eq!(unit_to_byte(fx(1.0)), Ok(fx(255.0)));
    assert_eq!(unit_to_byte(fx(0.5)), Ok(fx(127.5)));
}

#[test]
fn map_range_extrapolates() {
    assert_eq!(unit_to_byte(fx(2.0)), Ok(fx(510.0)));
    assert_eq!(unit_to_byte(fx(-1.0)), Ok(fx(-255.0)));
    let down = Terrain::map_range((fx(10.0), fx(0.0)), (fx(0.0), fx(5.0)), fx(4.0));
    assert_eq!(down, Ok(fx(3.0)));
}

#[test]
fn map_range_rounds_toward_zero() {
    let third = Terrain::map_range((fx(0.0), fx(3.0)), (fx(0.0), fx(1.0)), Fixed::from_raw(1));
    assert_eq!(third, Ok(Fixed::from_raw(0)));
    let minus = Terrain::map_range((fx(0.0), fx(3.0)), (fx(0.0), fx(1.0)), Fixed::from_raw(-4));
    assert_eq!(minus, Ok(Fixed::from_raw(-1)));
}

#[test]
fn map_range_degenerate() {
    let r = Terrain::map_range((fx(5.0), fx(5.0)), (fx(0.0), fx(1.0)), fx(3.0));
    assert_eq!(r, Err(RangeError::DegenerateRange));
}

#[test]
fn map_range_overflow() {
    let r = Terrain::map_range(
        (Fixed::from_raw(0), Fixed::from_raw(1)),
        (Fixed::from_raw(0), Fixed::from_raw(i64::MAX)),
        Fixed::from_raw(2),
    );
    assert_eq!(r, Err(RangeError::Overflow));
}

#[test]
fn fixed_to_u8_truncates_and_saturates() {
    assert_eq!(fx(127.5).to_u8(), 127);
    assert_eq!(fx(-3.0).to_u8(), 0);
    assert_eq!(fx(300.0).to_u8(), 255);
    assert_eq!(Fixed::from_int(42).to_u8(), 42);
}

#[test]
fn sample_point_scales_and_offsets() {
    let (x, z) = Terrain::sample_point(64, -128);
    assert_eq!(x.raw, 98_304_000 + 65_536);
    assert_eq!(z.raw, -196_608_000 + 65_536);
    let (o, _) = Terrain::sample_point(0, 0);
    assert_eq!(o.raw, SCALE / 1000);
}

#[test]
fn height_follows_noise() {
    assert_eq!(Terrain::height_at(fx(0.0)), fx(16.0));
    assert_eq!(Terrain::height_at(fx(0.5)), fx(32.0));
    assert_eq!(Terrain::height_at(fx(-1.0)), fx(-16.0));
}

#[test]
fn bedrock_is_full_stone() {
    let t = Terrain::new(3);
    for y in [-100, 0, 5, 10] {
        for n in [-1.0, 0.0, 0.7, 1.0] {
            let p = Position { x: 17, y, z: -4 };
            assert_eq!(t.get_block_type(p, fx(n)), VoxelType::Stone(255));
        }
    }
}

#[test]
fn classify_around_surface() {
    let t = Terrain::new(0);
    // Height 31.5: a cell half a unit below the surface is half full.
    let n = fx(15.5 / 32.0);
    assert_eq!(t.get_block_type(Position { x: 0, y: 31, z: 0 }, n), VoxelType::Stone(127));
    assert_eq!(t.get_block_type(Position { x: 0, y: 20, z: 0 }, n), VoxelType::Stone(255));
    assert_eq!(t.get_block_type(Position { x: 0, y: 32, z: 0 }, n), VoxelType::Air);
    // Height exactly 32: the cell at 32 is air, the one at 31 is full.
    let m = fx(0.5);
    assert_eq!(t.get_block_type(Position { x: 0, y: 32, z: 0 }, m), VoxelType::Air);
    assert_eq!(t.get_block_type(Position { x: 0, y: 31, z: 0 }, m), VoxelType::Stone(255));
}

#[test]
fn column_turns_to_air_once() {
    let t = Terrain::new(9);
    for n in [-0.6, -0.1, 0.0, 0.33, 0.9] {
        let mut seen_air = false;
        let mut turns = 0;
        for y in 0..200 {
            let air = t.get_block_type(Position { x: 1, y, z: 2 }, fx(n)) == VoxelType::Air;
            if air != seen_air {
                turns += 1;
            }
            if seen_air {
                assert!(air);
            }
            seen_air = air;
        }
        assert_eq!(turns, 1);
    }
}

#[test]
fn classification_is_deterministic() {
    let a = Terrain::new(1234);
    let b = Terrain::new(1234);
    let na = noise_source(1234);
    let nb = noise_source(1234);
    for (x, y, z) in [(0, 12, 0), (5, 20, -7), (-30, 40, 64), (100, 15, 3)] {
        let p = Position { x, y, z };
        let sa = sample(&na, Terrain::sample_point(x, z));
        let sb = sample(&nb, Terrain::sample_point(x, z));
        assert_eq!(a.get_block_type(p, sa), b.get_block_type(p, sb));
    }
}

#[test]
fn fill_writes_every_cell() {
    let t = Terrain::new(77);
    let noise = noise_source(77);
    let origin = Position { x: -16, y: 0, z: 32 };
    let columns: Vec<Fixed> = Terrain::chunk_columns(origin).into_iter().map(|p| sample(&noise, p)).collect();
    let mut chunk = Chunk::new();
    t.generate(&mut chunk, origin, &columns);
    let fresh = t.generate2(origin, &columns);
    for x in 0..CHUNK_XZ {
        for y in 0..CHUNK_Y {
            for z in 0..CHUNK_XZ {
                let p = Position { x: origin.x + x as i32, y: origin.y + y as i32, z: origin.z + z as i32 };
                let expected = t.get_block_type(p, columns[x * CHUNK_XZ + z]);
                assert_eq!(chunk.get_block(x, y, z), expected);
                assert_eq!(fresh.get_block(x, y, z), expected);
            }
        }
    }
}

#[test]
fn chunk_columns_order() {
    let origin = Position { x: 3, y: 0, z: -5 };
    let points = Terrain::chunk_columns(origin);
    assert_eq!(points.len(), CHUNK_XZ * CHUNK_XZ);
    assert_eq!(points[0], Terrain::sample_point(3, -5));
    assert_eq!(points[CHUNK_XZ + 2], Terrain::sample_point(4, -3));
}

#[test]
fn preview_size_and_alpha() {
    let t = Terrain::new(5);
    let noise = noise_source(5);
    let points = Terrain::preview_columns();
    assert_eq!(points.len(), PREVIEW_COLUMNS);
    assert_eq!(points[0], Terrain::sample_point(-64, -64));
    assert_eq!(points[129], Terrain::sample_point(-63, -63));
    let columns: Vec<Fixed> = points.into_iter().map(|p| sample(&noise, p)).collect();
    let image = t.generate_image(&columns);
    assert_eq!(image.len(), 65536);
    assert_eq!(image.len(), PREVIEW_BYTES);
    for px in image.chunks(4) {
        assert_eq!(px[3], 255);
        assert_eq!(px[0], px[1]);
        assert_eq!(px[1], px[2]);
    }
}

#[test]
fn preview_shade_values() {
    let t = Terrain::new(0);
    // Height 16 + 32 * 0.5 = 32: the scan stops at the first air cell, 32.
    let image = t.generate_image(&vec![fx(0.5); PREVIEW_COLUMNS]);
    assert_eq!(&image[0..4], &[127, 127, 127, 255]);
    // Height below bedrock: the first air cell is 11.
    let low = t.generate_image(&vec![fx(-1.0); PREVIEW_COLUMNS]);
    assert_eq!(low[0], (11 * 255 / 64) as u8);
    // No air below the top of the range: the level stays 0.
    let high = t.generate_image(&vec![fx(3.0); PREVIEW_COLUMNS]);
    assert_eq!(&high[0..4], &[0, 0, 0, 255]);
}

#[test]
fn preview_column_independence() {
    let t = Terrain::new(0);
    let base = vec![fx(0.5); PREVIEW_COLUMNS];
    let mut changed = base.clone();
    changed[300] = fx(0.0);
    let a = t.generate_image(&base);
    let b = t.generate_image(&changed);
    for i in 0..PREVIEW_BYTES {
        if i / 4 != 300 {
            assert_eq!(a[i], b[i]);
        }
    }
    assert_ne!(a[1200], b[1200]);
}
