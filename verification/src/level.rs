use vstd::prelude::*;

verus! {

/// One grid cell. Terrain grids use `Nothing` (unreachable void), `Floor`
/// and `Wall`; the parallel meta grid uses `Nothing`, the spawn markers and
/// `Next` (the way down to the next level).
#[derive(Debug, Copy, Clone, PartialEq, Eq, Structural)]
pub enum Tile {
    Nothing,
    Floor,
    Wall,
    PlSpawn,
    MnSpawn { mn_type: u32, difficulty: u32 },
    Next,
}

/// A dungeon level: the terrain grid, the parallel spawn-marker grid, and
/// the depth counter.
pub struct Level {
    pub map: Vec<Vec<Tile>>,
    pub meta: Vec<Vec<Tile>>,
    pub level: i32,
}

/// Number of grid rows.
pub open spec fn rows(l: Level) -> int {
    l.map@.len() as int
}

/// Number of grid columns.
pub open spec fn cols(l: Level) -> int {
    l.map@[0]@.len() as int
}

/// The grid is a rectangle of the given dimensions.
pub open spec fn grid_rect(g: Seq<Vec<Tile>>, r: int, c: int) -> bool {
    g.len() == r && forall|i: int| 0 <= i < r ==> (#[trigger] g[i])@.len() == c
}

/// Terrain tile at a cell.
pub open spec fn tile_at(l: Level, r: int, c: int) -> Tile {
    l.map@[r]@[c]
}

/// Meta tile at a cell.
pub open spec fn meta_at(l: Level, r: int, c: int) -> Tile {
    l.meta@[r]@[c]
}

/// Strictly inside the border ring.
pub open spec fn interior(l: Level, r: int, c: int) -> bool {
    1 <= r < rows(l) - 1 && 1 <= c < cols(l) - 1
}

/// A spawn or next-level marker.
pub open spec fn is_marker(t: Tile) -> bool {
    t == Tile::PlSpawn || (t matches Tile::MnSpawn { .. }) || t == Tile::Next
}

/// The three values a terrain cell can hold.
pub open spec fn is_terrain(t: Tile) -> bool {
    t == Tile::Nothing || t == Tile::Floor || t == Tile::Wall
}

/// A floor cell never touches the void: all eight neighbours are floor or
/// wall.
pub open spec fn floor_closed_at(l: Level, r: int, c: int) -> bool {
    tile_at(l, r, c) == Tile::Floor ==> {
        &&& tile_at(l, r - 1, c - 1) != Tile::Nothing
        &&& tile_at(l, r - 1, c) != Tile::Nothing
        &&& tile_at(l, r - 1, c + 1) != Tile::Nothing
        &&& tile_at(l, r, c - 1) != Tile::Nothing
        &&& tile_at(l, r, c + 1) != Tile::Nothing
        &&& tile_at(l, r + 1, c - 1) != Tile::Nothing
        &&& tile_at(l, r + 1, c) != Tile::Nothing
        &&& tile_at(l, r + 1, c + 1) != Tile::Nothing
    }
}

/// A marker sits on an interior floor cell; monster markers carry a type
/// and difficulty the monster factory understands.
pub open spec fn marker_ok(l: Level, r: int, c: int) -> bool {
    is_marker(meta_at(l, r, c)) ==> {
        &&& interior(l, r, c)
        &&& tile_at(l, r, c) == Tile::Floor
        &&& (meta_at(l, r, c) matches Tile::MnSpawn { mn_type, difficulty } ==> 1 <= mn_type <= 4
            && 1 <= difficulty <= 4)
    }
}

/// Well-formed level: both grids are one rectangle of modest size, floor
/// never sits on the border ring or touches the void, and every marker sits
/// on interior floor. This is what makes every step of movement, combat
/// and effect resolution stay inside the grids.
pub open spec fn level_wf(l: Level) -> bool {
    &&& 3 <= rows(l) <= 1000
    &&& 3 <= cols(l) <= 1000
    &&& grid_rect(l.map@, rows(l), cols(l))
    &&& grid_rect(l.meta@, rows(l), cols(l))
    &&& forall|r: int, c: int|
        0 <= r < rows(l) && 0 <= c < cols(l) ==> is_terrain(#[trigger] tile_at(l, r, c))
    &&& forall|r: int, c: int|
        0 <= r < rows(l) && 0 <= c < cols(l) && tile_at(l, r, c) == Tile::Floor
            ==> #[trigger] interior(l, r, c)
    &&& forall|r: int, c: int|
        0 <= r < rows(l) && 0 <= c < cols(l) ==> #[trigger] floor_closed_at(l, r, c)
    &&& forall|r: int, c: int|
        0 <= r < rows(l) && 0 <= c < cols(l) ==> #[trigger] marker_ok(l, r, c)
}

/// Somewhere on the level the player can spawn.
pub open spec fn has_player_spawn(l: Level) -> bool {
    exists|r: int, c: int|
        0 <= r < rows(l) && 0 <= c < cols(l) && meta_at(l, r, c) == Tile::PlSpawn
}

impl Level {
    /// The fixed starter level: a nine-by-nine walled room with the player
    /// spawn in its upper-left part and one easy monster in the lower-right.
    pub fn new() -> (l: Level)
        ensures
            level_wf(l),
            has_player_spawn(l),
            rows(l) == 9,
            cols(l) == 9,
            l.level == 0,
            meta_at(l, 2, 2) == Tile::PlSpawn,
            meta_at(l, 6, 6) == (Tile::MnSpawn { mn_type: 1, difficulty: 1 }),
    {
        let mut map: Vec<Vec<Tile>> = Vec::new();
        let mut meta: Vec<Vec<Tile>> = Vec::new();

        let mut r: usize = 0;
        while r < 9
            invariant
                0 <= r <= 9,
                map@.len() == r,
                meta@.len() == r,
                forall|i: int| 0 <= i < r ==> (#[trigger] map@[i])@.len() == 9,
                forall|i: int| 0 <= i < r ==> (#[trigger] meta@[i])@.len() == 9,
                forall|i: int, j: int|
                    0 <= i < r && 0 <= j < 9 ==> (#[trigger] map@[i]@[j]) == spec_start_tile(i, j),
                forall|i: int, j: int|
                    0 <= i < r && 0 <= j < 9 ==> (#[trigger] meta@[i]@[j]) == spec_start_meta(i, j),
            decreases 9 - r,
        {
            let mut map_row: Vec<Tile> = Vec::new();
            let mut meta_row: Vec<Tile> = Vec::new();
            let mut c: usize = 0;
            while c < 9
                invariant
                    0 <= c <= 9,
                    0 <= r < 9,
                    map_row@.len() == c,
                    meta_row@.len() == c,
                    forall|j: int| 0 <= j < c ==> (#[trigger] map_row@[j]) == spec_start_tile(r as int, j),
                    forall|j: int| 0 <= j < c ==> (#[trigger] meta_row@[j]) == spec_start_meta(r as int, j),
                decreases 9 - c,
            {
                let tile = if r == 0 || r == 8 || c == 0 || c == 8 {
                    Tile::Nothing
                } else if r == 1 || r == 7 || c == 1 || c == 7 {
                    Tile::Wall
                } else {
                    Tile::Floor
                };
                map_row.push(tile);
                let marker = if r == 2 && c == 2 {
                    Tile::PlSpawn
                } else if r == 6 && c == 6 {
                    Tile::MnSpawn { mn_type: 1, difficulty: 1 }
                } else {
                    Tile::Nothing
                };
                meta_row.push(marker);
                c += 1;
            }
            map.push(map_row);
            meta.push(meta_row);
            r += 1;
        }

        let l = Level { map, meta, level: 0 };

        proof {
            assert forall|rr: int, cc: int|
                0 <= rr < rows(l) && 0 <= cc < cols(l) implies #[trigger] floor_closed_at(l, rr, cc) by {
                if tile_at(l, rr, cc) == Tile::Floor {
                    assert(spec_start_tile(rr, cc) == Tile::Floor);
                }
            }
            assert(meta_at(l, 2, 2) == Tile::PlSpawn);
        }

        l
    }
}

/// Markers of the starter level as a formula: the player spawn and one easy
/// monster.
pub open spec fn spec_start_meta(r: int, c: int) -> Tile {
    if r == 2 && c == 2 {
        Tile::PlSpawn
    } else if r == 6 && c == 6 {
        Tile::MnSpawn { mn_type: 1, difficulty: 1 }
    } else {
        Tile::Nothing
    }
}

/// Terrain of the starter level as a formula: void ring, wall ring, floor
/// inside.
pub open spec fn spec_start_tile(r: int, c: int) -> Tile {
    if r == 0 || r == 8 || c == 0 || c == 8 {
        Tile::Nothing
    } else if r == 1 || r == 7 || c == 1 || c == 7 {
        Tile::Wall
    } else {
        Tile::Floor
    }
}

/// Two cells share an edge.
pub open spec fn adjacent4(a: (int, int), b: (int, int)) -> bool {
    ||| (a.0 == b.0 && (a.1 == b.1 + 1 || a.1 + 1 == b.1))
    ||| (a.1 == b.1 && (a.0 == b.0 + 1 || a.0 + 1 == b.0))
}

/// A walk over floor: every cell is floor inside the grid, consecutive
/// cells share an edge.
pub open spec fn is_floor_path(l: Level, p: Seq<(int, int)>) -> bool {
    &&& p.len() >= 1
    &&& (forall|i: int|
        0 <= i < p.len() ==> 0 <= (#[trigger] p[i]).0 < rows(l) && 0 <= p[i].1 < cols(l)
            && tile_at(l, p[i].0, p[i].1) == Tile::Floor)
    &&& (forall|i: int| 0 <= i < p.len() - 1 ==> adjacent4(#[trigger] p[i], p[i + 1]))
}

/// The two cells are joined by a walk over floor.
pub open spec fn reachable(l: Level, a: (int, int), b: (int, int)) -> bool {
    exists|p: Seq<(int, int)>| #[trigger] is_floor_path(l, p) && p.first() == a && p.last() == b
}

/// A floor cell reaches itself.
pub proof fn lemma_reach_refl(l: Level, a: (int, int))
    requires
        0 <= a.0 < rows(l),
        0 <= a.1 < cols(l),
        tile_at(l, a.0, a.1) == Tile::Floor,
    ensures
        reachable(l, a, a),
{
    let p = seq![a];
    assert(is_floor_path(l, p));
    assert(p.first() == a && p.last() == a);
}

/// A reachable cell's floor neighbour is reachable too.
pub proof fn lemma_reach_step(l: Level, a: (int, int), b: (int, int), c: (int, int))
    requires
        reachable(l, a, b),
        adjacent4(b, c),
        0 <= c.0 < rows(l),
        0 <= c.1 < cols(l),
        tile_at(l, c.0, c.1) == Tile::Floor,
    ensures
        reachable(l, a, c),
{
    let p = choose|p: Seq<(int, int)>| #[trigger] is_floor_path(l, p) && p.first() == a && p.last() == b;
    let q = p.push(c);
    assert forall|i: int| 0 <= i < q.len() - 1 implies adjacent4(#[trigger] q[i], q[i + 1]) by {
        if i < p.len() - 1 {
            assert(q[i] == p[i] && q[i + 1] == p[i + 1]);
        } else {
            assert(q[i] == p.last() && q[i + 1] == c);
        }
    }
    assert(is_floor_path(l, q));
    assert(q.first() == a && q.last() == c);
}

/// Walks concatenate: a cell reachable from a reachable cell is reachable.
pub proof fn lemma_reach_trans(l: Level, a: (int, int), b: (int, int), c: (int, int))
    requires
        reachable(l, a, b),
        reachable(l, b, c),
    ensures
        reachable(l, a, c),
{
    let p = choose|p: Seq<(int, int)>| #[trigger] is_floor_path(l, p) && p.first() == a && p.last() == b;
    let q = choose|q: Seq<(int, int)>| #[trigger] is_floor_path(l, q) && q.first() == b && q.last() == c;
    if q.len() == 1 {
        assert(b == c);
        assert(is_floor_path(l, p) && p.first() == a && p.last() == c);
    } else {
        let r = p + q.drop_first();
        assert(r.len() == p.len() + q.len() - 1);
        assert forall|i: int|
            0 <= i < r.len() implies 0 <= (#[trigger] r[i]).0 < rows(l) && 0 <= r[i].1 < cols(l)
            && tile_at(l, r[i].0, r[i].1) == Tile::Floor by {
            if i < p.len() {
                assert(r[i] == p[i]);
            } else {
                assert(r[i] == q[i - p.len() + 1]);
            }
        }
        assert forall|i: int| 0 <= i < r.len() - 1 implies adjacent4(#[trigger] r[i], r[i + 1]) by {
            if i < p.len() - 1 {
                assert(r[i] == p[i] && r[i + 1] == p[i + 1]);
            } else if i == p.len() - 1 {
                assert(r[i] == p.last() && r[i + 1] == q[1]);
                assert(p.last() == q[0]);
                assert(adjacent4(q[0], q[1]));
            } else {
                assert(r[i] == q[i - p.len() + 1] && r[i + 1] == q[i - p.len() + 2]);
            }
        }
        assert(is_floor_path(l, r));
        assert(r.first() == a && r.last() == c);
    }
}

/// A walk read backwards is a walk: reachability is symmetric.
pub proof fn lemma_reach_symm(l: Level, a: (int, int), b: (int, int))
    requires
        reachable(l, a, b),
    ensures
        reachable(l, b, a),
{
    let p = choose|p: Seq<(int, int)>| #[trigger] is_floor_path(l, p) && p.first() == a && p.last() == b;
    let n = p.len() as int;
    let q = Seq::new(p.len(), |i: int| p[n - 1 - i]);
    assert forall|i: int| 0 <= i < q.len() - 1 implies adjacent4(#[trigger] q[i], q[i + 1]) by {
        assert(q[i] == p[n - 1 - i] && q[i + 1] == p[n - 2 - i]);
        assert(adjacent4(p[n - 2 - i], p[n - 1 - i]));
    }
    assert(is_floor_path(l, q));
    assert(q.first() == b && q.last() == a);
}

/// A walk stays valid on any level with the same grids' floor in place.
pub proof fn lemma_reach_monotone(l1: Level, l2: Level, a: (int, int), b: (int, int))
    requires
        reachable(l1, a, b),
        rows(l2) == rows(l1),
        cols(l2) == cols(l1),
        forall|r: int, c: int|
            0 <= r < rows(l1) && 0 <= c < cols(l1) && tile_at(l1, r, c) == Tile::Floor
                ==> #[trigger] tile_at(l2, r, c) == Tile::Floor,
    ensures
        reachable(l2, a, b),
{
    let p = choose|p: Seq<(int, int)>| #[trigger] is_floor_path(l1, p) && p.first() == a && p.last() == b;
    assert forall|i: int|
        0 <= i < p.len() implies 0 <= (#[trigger] p[i]).0 < rows(l2) && 0 <= p[i].1 < cols(l2)
        && tile_at(l2, p[i].0, p[i].1) == Tile::Floor by {
        assert(tile_at(l1, p[i].0, p[i].1) == Tile::Floor);
    }
    assert(is_floor_path(l2, p));
}

} // verus!
