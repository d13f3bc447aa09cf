use noise::{NoiseFn, Perlin};
use rand::rngs::StdRng;
use rand::{RngCore, SeedableRng};
use space_drive_game::map::{fresh_seed, GameMap};

const WIDTH: i64 = 10_000_000;
const HEIGHT: i64 = 15_000_000;
const BARRIERS_AMOUNT: u8 = 5;
const MAX_BARRIER_RADIUS: i64 = 1_000_000;
const SEED: u64 = 12345; // Fixed seed for reproducibility

/// One fixed-point noise-field sample per barrier, taken at the position
/// the seed will produce for it: the generator draws two values per
/// barrier, and the noise field is sampled at a tenth of the position.
fn noise_samples(seed: u64, width: i64, height: i64, count: u8) -> Vec<i64> {
    let mut rng = StdRng::seed_from_u64(seed);
    let perlin = Perlin::new(seed as u32);
    let mut out = Vec::new();
    for _ in 0..count {
        let ux = rng.next_u64();
        let uy = rng.next_u64();
        let x = (ux % (width as u64)) as i64;
        let y = (uy % (height as u64)) as i64;
        let n = perlin.get([(x as f64 / 10_000.0) * 0.1, (y as f64 / 10_000.0) * 0.1]);
        out.push((n * 10_000.0) as i64);
    }
    out
}

fn make_map() -> GameMap {
    let noise = noise_samples(SEED, WIDTH, HEIGHT, BARRIERS_AMOUNT);
    GameMap::new(WIDTH, HEIGHT, BARRIERS_AMOUNT, MAX_BARRIER_RADIUS, SEED, noise)
}

#[test]
fn map_test_attrs() {
    let m = make_map();
    assert_eq!(m.width, WIDTH);
    assert_eq!(m.height, HEIGHT);
}

#[test]
fn test_barriers() {
    let m = make_map();
    assert!(m.barriers.len() as u8 >= BARRIERS_AMOUNT);
    for b in m.barriers {
        assert!(b.x <= WIDTH);
        assert!(b.y <= HEIGHT);
        assert!(b.r <= MAX_BARRIER_RADIUS);
    }
}

#[test]
fn test_generation_with_seed() {
    // Create two maps from the same freshly drawn seed.
    let seed = fresh_seed();
    let noise1 = noise_samples(seed, WIDTH, HEIGHT, BARRIERS_AMOUNT);
    let map1 = GameMap::new(WIDTH, HEIGHT, BARRIERS_AMOUNT, MAX_BARRIER_RADIUS, seed, noise1);
    let noise2 = noise_samples(map1.seed, WIDTH, HEIGHT, BARRIERS_AMOUNT);
    let map2 = GameMap::new(WIDTH, HEIGHT, BARRIERS_AMOUNT, MAX_BARRIER_RADIUS, map1.seed, noise2);

    // The same number of obstacles.
    assert_eq!(map1.barriers.len(), map2.barriers.len());

    // And each obstacle identical in position and size.
    for (barrier1, barrier2) in map1.barriers.iter().zip(map2.barriers.iter()) {
        assert_eq!(barrier1.x, barrier2.x);
        assert_eq!(barrier1.y, barrier2.y);
        assert_eq!(barrier1.r, barrier2.r);
    }
}

#[test]
fn different_seeds_give_different_maps() {
    let noise1 = noise_samples(1, WIDTH, HEIGHT, BARRIERS_AMOUNT);
    let map1 = GameMap::new(WIDTH, HEIGHT, BARRIERS_AMOUNT, MAX_BARRIER_RADIUS, 1, noise1);
    let noise2 = noise_samples(2, WIDTH, HEIGHT, BARRIERS_AMOUNT);
    let map2 = GameMap::new(WIDTH, HEIGHT, BARRIERS_AMOUNT, MAX_BARRIER_RADIUS, 2, noise2);
    let same = map1
        .barriers
        .iter()
        .zip(map2.barriers.iter())
        .all(|(a, b)| a.x == b.x && a.y == b.y);
    assert!(!same);
}

#[test]
fn free_point_clears_all_barriers() {
    let mut m = GameMap::new(1_000_000, 1_000_000, 0, 0, SEED, Vec::new());
    m.barriers.push(space_drive_game::map::Barrier { x: 500_000, y: 500_000, r: 200_000 });
    let r = 10_000;
    let (x, y) = m.get_free_point(r).expect("the map has free room");
    assert!(r <= x && x < m.width - r);
    assert!(r <= y && y < m.height - r);
    let dx = (x - 500_000) as f64;
    let dy = (y - 500_000) as f64;
    assert!((dx * dx + dy * dy).sqrt() >= (r + 200_000) as f64);
}

#[test]
fn free_point_without_barriers_takes_first_draw() {
    let m = GameMap::new(1_000_000, 1_000_000, 0, 0, SEED, Vec::new());
    assert!(m.get_free_point(10_000).is_some());
}

#[test]
fn free_point_gives_up_on_a_covered_map() {
    let mut m = GameMap::new(1_000_000, 1_000_000, 0, 0, SEED, Vec::new());
    m.barriers.push(space_drive_game::map::Barrier {
        x: 500_000,
        y: 500_000,
        r: 2_000_000,
    });
    assert!(m.get_free_point(10_000).is_none());
}
