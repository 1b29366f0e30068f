use std::cell::Cell;
use rogue_core::fight::Generator;
use rogue_core::level::{Level, Tile};
use rogue_core::level_gen::{Room, LevelGenerator};

#[test]
fn level_test_intersect() {
    let a = Room { row: 20, col: 10, height: 5, width: 10 };
    let b = Room { row: 20, col: 10, height: 5, width: 10 };

    assert!(a.intersect(&b));
}

#[test]
fn level_test_not_intersect() {
    let a = Room { row: 20, col: 10, height: 5, width: 10 };
    let b = Room { row: 31, col: 10, height: 5, width: 10 };

    assert!(!a.intersect(&b));
}

#[test]
fn map_gen_test_intersect() {
    let a = Room { row: 20, col: 10, height: 5, width: 10 };
    let b = Room { row: 20, col: 10, height: 5, width: 10 };

    assert!(a.intersect(&b));
}

#[test]
fn map_gen_test_not_intersect() {
    let a = Room { row: 20, col: 10, height: 5, width: 10 };
    let b = Room { row: 31, col: 10, height: 5, width: 10 };

    assert!(!a.intersect(&b));
}

#[test]
fn room_distance_is_rounded_euclid() {
    let a = Room { row: 10, col: 10, height: 2, width: 2 };
    let b = Room { row: 13, col: 14, height: 2, width: 2 };
    // 3-4-5 triangle.
    assert_eq!(5, a.room_distance(&b));
    // Just off a whole number rounds down.
    let c = Room { row: 10, col: 13, height: 2, width: 2 };
    let d = Room { row: 11, col: 10, height: 2, width: 2 };
    assert_eq!(3, a.distance(c.row, c.col));
    assert_eq!(1, a.distance(d.row, d.col));
    assert_eq!(0, a.distance(10, 10));
}

/// A tiny deterministic linear congruential generator for seeded tests.
struct Lcg {
    state: Cell<u64>,
}

impl Lcg {
    fn new(seed: u64) -> Lcg {
        Lcg { state: Cell::new(seed.wrapping_mul(2862933555777941757).wrapping_add(3037000493)) }
    }
}

impl Generator for Lcg {
    fn generate(&self, min_inclusive: i32, max_inclusive: i32) -> i32 {
        let next = self.state.get().wrapping_mul(6364136223846793005).wrapping_add(1442695040888963407);
        self.state.set(next);
        let span = (max_inclusive - min_inclusive + 1) as u64;
        min_inclusive + ((next >> 16) % span) as i32
    }
}

fn floor_cells(level: &Level) -> usize {
    let mut count = 0;
    for row in &level.map {
        for tile in row {
            if *tile == Tile::Floor {
                count += 1;
            }
        }
    }
    count
}

fn reachable_floor_from_spawn(level: &Level) -> usize {
    let rows = level.map.len();
    let cols = level.map[0].len();

    let mut spawn = None;
    for r in 0..rows {
        for c in 0..cols {
            if level.meta[r][c] == Tile::PlSpawn {
                spawn = Some((r, c));
            }
        }
    }
    let (sr, sc) = spawn.expect("generated level must have a player spawn");
    assert_eq!(Tile::Floor, level.map[sr][sc]);

    let mut seen = vec![vec![false; cols]; rows];
    let mut stack = vec![(sr, sc)];
    seen[sr][sc] = true;
    let mut count = 0;
    while let Some((r, c)) = stack.pop() {
        count += 1;
        let neighbours = [(r.wrapping_sub(1), c), (r + 1, c), (r, c.wrapping_sub(1)), (r, c + 1)];
        for (nr, nc) in neighbours {
            if nr < rows && nc < cols && !seen[nr][nc] && level.map[nr][nc] == Tile::Floor {
                seen[nr][nc] = true;
                stack.push((nr, nc));
            }
        }
    }
    count
}

#[test]
fn scenario_generator_connectivity() {
    // Over a sample of seeded levels, every floor tile is reachable from
    // the player spawn by walking floor tiles: the connection pass leaves
    // no isolated room.
    for seed in 0..30u64 {
        let generator = LevelGenerator::new(Lcg::new(seed));
        let level = generator.generate_level(1);

        let total = floor_cells(&level);
        let reached = reachable_floor_from_spawn(&level);
        assert_eq!(total, reached, "seed {} left unreachable floor", seed);
    }
}

#[test]
fn generated_levels_have_markers_on_floor() {
    for seed in 0..10u64 {
        let generator = LevelGenerator::new(Lcg::new(seed));
        let level = generator.generate_level(3);
        assert_eq!(3, level.level);

        for r in 0..level.map.len() {
            for c in 0..level.map[0].len() {
                match level.meta[r][c] {
                    Tile::PlSpawn | Tile::Next => {
                        assert_eq!(Tile::Floor, level.map[r][c]);
                    },
                    Tile::MnSpawn { mn_type, difficulty } => {
                        assert_eq!(Tile::Floor, level.map[r][c]);
                        assert!((1..=4).contains(&mn_type));
                        assert!((1..=4).contains(&difficulty));
                    },
                    _ => {},
                }
            }
        }
    }
}

#[test]
fn boss_level_every_tenth_depth() {
    let generator = LevelGenerator::new(Lcg::new(5));
    let boss = generator.generate_level(10);

    // The fixed set piece: one spawn, one boss marker, one way down.
    let mut spawns = 0;
    let mut bosses = 0;
    let mut exits = 0;
    for row in &boss.meta {
        for tile in row {
            match *tile {
                Tile::PlSpawn => spawns += 1,
                Tile::MnSpawn { mn_type, difficulty } => {
                    assert_eq!(4, mn_type);
                    assert_eq!(4, difficulty);
                    bosses += 1;
                },
                Tile::Next => exits += 1,
                _ => {},
            }
        }
    }
    assert_eq!(1, spawns);
    assert_eq!(1, bosses);
    assert_eq!(1, exits);

    let total = floor_cells(&boss);
    let reached = reachable_floor_from_spawn(&boss);
    assert_eq!(total, reached);
}

#[test]
fn starter_level_layout() {
    let level = Level::new();
    assert_eq!(9, level.map.len());
    assert_eq!(9, level.map[0].len());
    assert_eq!(Tile::PlSpawn, level.meta[2][2]);
    assert_eq!(Tile::MnSpawn { mn_type: 1, difficulty: 1 }, level.meta[6][6]);
    assert_eq!(Tile::Floor, level.map[2][2]);
    assert_eq!(Tile::Wall, level.map[1][1]);
    assert_eq!(Tile::Nothing, level.map[0][0]);
}
