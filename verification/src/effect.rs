use vstd::prelude::*;
use crate::entity::{Entity, entity_wf};
use crate::fight::{Fight, Generator};
use crate::level::{Level, Tile, level_wf, tile_at, rows, cols, interior};
use crate::log::Log;

verus! {

/// The facing of an attack: eight compass directions plus the directionless
/// full-circle kick.
#[derive(Debug, Copy, Clone, PartialEq, Eq, Structural)]
pub enum AttackDirection {
    North,
    NorthEast,
    East,
    SouthEast,
    South,
    SouthWest,
    West,
    NorthWest,
    RoundHouseKick,
}

/// Only the four cardinal directions translate into a movement step.
pub open spec fn is_cardinal(d: AttackDirection) -> bool {
    d == AttackDirection::North || d == AttackDirection::South || d == AttackDirection::East
        || d == AttackDirection::West
}

/// The unit step of a cardinal direction, as (row, col).
pub open spec fn spec_direction_delta(d: AttackDirection) -> (int, int) {
    match d {
        AttackDirection::North => (-1int, 0int),
        AttackDirection::South => (1int, 0int),
        AttackDirection::East => (0int, 1int),
        AttackDirection::West => (0int, -1int),
        _ => (0int, 0int),
    }
}

/// The fixed tile pattern each facing attacks, relative to the origin.
/// Each compass direction covers the three tiles ahead; the kick covers the
/// full eight-neighbourhood.
pub open spec fn spec_attack_area(dir: AttackDirection, row: i32, col: i32) -> Seq<(i32, i32)> {
    match dir {
        AttackDirection::North => seq![
            (((row - 1) as i32), ((col - 1) as i32)),
            (((row - 1) as i32), col),
            (((row - 1) as i32), ((col + 1) as i32)),
        ],
        AttackDirection::NorthEast => seq![
            (((row - 1) as i32), col),
            (((row - 1) as i32), ((col + 1) as i32)),
            (row, ((col + 1) as i32)),
        ],
        AttackDirection::East => seq![
            (((row - 1) as i32), ((col + 1) as i32)),
            (row, ((col + 1) as i32)),
            (((row + 1) as i32), ((col + 1) as i32)),
        ],
        AttackDirection::SouthEast => seq![
            (row, ((col + 1) as i32)),
            (((row + 1) as i32), ((col + 1) as i32)),
            (((row + 1) as i32), col),
        ],
        AttackDirection::South => seq![
            (((row + 1) as i32), ((col + 1) as i32)),
            (((row + 1) as i32), col),
            (((row + 1) as i32), ((col - 1) as i32)),
        ],
        AttackDirection::SouthWest => seq![
            (((row + 1) as i32), col),
            (((row + 1) as i32), ((col - 1) as i32)),
            (row, ((col - 1) as i32)),
        ],
        AttackDirection::West => seq![
            (((row + 1) as i32), ((col - 1) as i32)),
            (row, ((col - 1) as i32)),
            (((row - 1) as i32), ((col - 1) as i32)),
        ],
        AttackDirection::NorthWest => seq![
            (row, ((col - 1) as i32)),
            (((row - 1) as i32), ((col - 1) as i32)),
            (((row - 1) as i32), col),
        ],
        AttackDirection::RoundHouseKick => seq![
            (row, ((col - 1) as i32)),
            (((row - 1) as i32), ((col - 1) as i32)),
            (((row - 1) as i32), col),
            (((row - 1) as i32), ((col + 1) as i32)),
            (row, ((col + 1) as i32)),
            (((row + 1) as i32), ((col + 1) as i32)),
            (((row + 1) as i32), col),
            (((row + 1) as i32), ((col - 1) as i32)),
        ],
    }
}

/// The tiles a hit from the given origin in the given facing covers,
/// enumerated as literal per-direction offsets.
pub fn resolve_attack_area(dir: &AttackDirection, pos_row: i32, pos_col: i32) -> (r: Vec<(i32, i32)>)
    requires
        -1_000_000 <= pos_row <= 1_000_000,
        -1_000_000 <= pos_col <= 1_000_000,
    ensures
        r@ =~= spec_attack_area(*dir, pos_row, pos_col),
{
    let mut attack_area: Vec<(i32, i32)> = Vec::new();

    match dir {
        AttackDirection::North => {
            attack_area.push((pos_row - 1, pos_col - 1));
            attack_area.push((pos_row - 1, pos_col));
            attack_area.push((pos_row - 1, pos_col + 1));
        },
        AttackDirection::NorthEast => {
            attack_area.push((pos_row - 1, pos_col));
            attack_area.push((pos_row - 1, pos_col + 1));
            attack_area.push((pos_row, pos_col + 1));
        },
        AttackDirection::East => {
            attack_area.push((pos_row - 1, pos_col + 1));
            attack_area.push((pos_row, pos_col + 1));
            attack_area.push((pos_row + 1, pos_col + 1));
        },
        AttackDirection::SouthEast => {
            attack_area.push((pos_row, pos_col + 1));
            attack_area.push((pos_row + 1, pos_col + 1));
            attack_area.push((pos_row + 1, pos_col));
        },
        AttackDirection::South => {
            attack_area.push((pos_row + 1, pos_col + 1));
            attack_area.push((pos_row + 1, pos_col));
            attack_area.push((pos_row + 1, pos_col - 1));
        },
        AttackDirection::SouthWest => {
            attack_area.push((pos_row + 1, pos_col));
            attack_area.push((pos_row + 1, pos_col - 1));
            attack_area.push((pos_row, pos_col - 1));
        },
        AttackDirection::West => {
            attack_area.push((pos_row + 1, pos_col - 1));
            attack_area.push((pos_row, pos_col - 1));
            attack_area.push((pos_row - 1, pos_col - 1));
        },
        AttackDirection::NorthWest => {
            attack_area.push((pos_row, pos_col - 1));
            attack_area.push((pos_row - 1, pos_col - 1));
            attack_area.push((pos_row - 1, pos_col));
        },
        AttackDirection::RoundHouseKick => {
            attack_area.push((pos_row, pos_col - 1));
            attack_area.push((pos_row - 1, pos_col - 1));
            attack_area.push((pos_row - 1, pos_col));
            attack_area.push((pos_row - 1, pos_col + 1));
            attack_area.push((pos_row, pos_col + 1));
            attack_area.push((pos_row + 1, pos_col + 1));
            attack_area.push((pos_row + 1, pos_col));
            attack_area.push((pos_row + 1, pos_col - 1));
        },
    }

    attack_area
}

/// The unit step of a cardinal facing. Other facings never reach this; a
/// request for one would be a logic error upstream.
pub fn resolve_direction(direction: &AttackDirection) -> (r: (i32, i32))
    requires
        is_cardinal(*direction),
    ensures
        r.0 as int == spec_direction_delta(*direction).0,
        r.1 as int == spec_direction_delta(*direction).1,
{
    match direction {
        AttackDirection::North => (-1, 0),
        AttackDirection::South => (1, 0),
        AttackDirection::East => (0, 1),
        AttackDirection::West => (0, -1),
        _ => (0, 0),
    }
}

/// No two cells of an attack pattern coincide, so a defender inside the
/// pattern suffers exactly one resolution.
proof fn lemma_attack_area_distinct(dir: AttackDirection, row: i32, col: i32)
    requires
        -1_000_000 <= row <= 1_000_000,
        -1_000_000 <= col <= 1_000_000,
    ensures
        forall|i: int, j: int|
            0 <= i < j < spec_attack_area(dir, row, col).len() ==> #[trigger] spec_attack_area(
                dir,
                row,
                col,
            )[i] != #[trigger] spec_attack_area(dir, row, col)[j],
{
}

/// Resolves one combat hit against the defender if it stands in the attack
/// pattern cast from the given origin: exactly one resolution when it does,
/// no change at all when it does not. Never heals, never touches anything
/// but the defender's life, and leaves a dead defender alone.
pub fn simple_attack<T: Generator>(
    gen: &T,
    direction: &AttackDirection,
    log: &mut Log,
    pos_row: i32,
    pos_col: i32,
    me: &Entity,
    other: &mut Entity,
    crit_chance: i32,
)
    requires
        entity_wf(*me),
        entity_wf(*old(other)),
        -1_000_000 <= pos_row <= 1_000_000,
        -1_000_000 <= pos_col <= 1_000_000,
    ensures
        entity_wf(*final(other)),
        final(other).current_life <= old(other).current_life,
        *final(other) == (Entity { current_life: final(other).current_life, ..*old(other) }),
        old(other).current_life <= 0 ==> {
            &&& *final(other) == *old(other)
            &&& *final(log) == *old(log)
        },
        old(other).current_life > 0 && !spec_attack_area(*direction, pos_row, pos_col).contains(
            (old(other).pos_row, old(other).pos_col),
        ) ==> {
            &&& *final(other) == *old(other)
            &&& *final(log) == *old(log)
        },
        old(other).current_life > 0 && spec_attack_area(*direction, pos_row, pos_col).contains(
            (old(other).pos_row, old(other).pos_col),
        ) ==> crate::fight::spec_hit_outcome(
            *me,
            *old(other),
            *final(other),
            *old(log),
            *final(log),
            crit_chance as int,
        ),
{
    let attack_area = resolve_attack_area(direction, pos_row, pos_col);

    proof {
        lemma_attack_area_distinct(*direction, pos_row, pos_col);
    }

    let ghost target = (old(other).pos_row, old(other).pos_col);
    let n = attack_area.len();
    let mut index: usize = 0;
    while index < n
        invariant
            n == attack_area@.len(),
            attack_area@ =~= spec_attack_area(*direction, pos_row, pos_col),
            forall|i: int, j: int|
                0 <= i < j < attack_area@.len() ==> attack_area@[i] != attack_area@[j],
            0 <= index <= n,
            entity_wf(*me),
            entity_wf(*other),
            target == (old(other).pos_row, old(other).pos_col),
            other.current_life <= old(other).current_life,
            *other == (Entity { current_life: other.current_life, ..*old(other) }),
            old(other).current_life <= 0 ==> {
                &&& *other == *old(other)
                &&& *log == *old(log)
            },
            old(other).current_life > 0 && !attack_area@.take(index as int).contains(target) ==> {
                &&& *other == *old(other)
                &&& *log == *old(log)
            },
            old(other).current_life > 0 && attack_area@.take(index as int).contains(target)
                ==> crate::fight::spec_hit_outcome(
                *me,
                *old(other),
                *other,
                *old(log),
                *log,
                crit_chance as int,
            ),
        decreases n - index,
    {
        proof {
            assert(attack_area@.take(index as int + 1).drop_last() =~= attack_area@.take(
                index as int,
            ));
            assert(attack_area@.take(index as int + 1).last() == attack_area@[index as int]);
            if attack_area@.take(index as int + 1).contains(target) && !attack_area@.take(
                index as int,
            ).contains(target) {
                assert(attack_area@[index as int] == target);
            }
            if attack_area@.take(index as int).contains(target) {
                let w = choose|w: int|
                    0 <= w < index && #[trigger] attack_area@.take(index as int)[w] == target;
                assert(attack_area@[w] == target);
                assert(attack_area@.take(index as int + 1)[w] == target);
            }
        }
        let (row, col) = attack_area[index];
        if other.pos_row == row && other.pos_col == col {
            proof {
                // The defender's position never changes, so a second match
                // would be a duplicate pattern cell.
                if old(other).current_life > 0 && attack_area@.take(index as int).contains(
                    target,
                ) {
                    let w = choose|w: int|
                        0 <= w < index && #[trigger] attack_area@.take(index as int)[w]
                            == target;
                    assert(attack_area@[w] == target);
                    assert(attack_area@[index as int] == target);
                }
            }
            Fight::weapon_hit(log, gen, me, other, crit_chance);
        }
        index += 1;
    }
    proof {
        assert(attack_area@.take(n as int) =~= attack_area@);
    }
}

/// An instant directional weapon strike: one tick, then gone.
pub struct WeaponHit {
    pub direction: AttackDirection,
    pub id: u32,
}

impl WeaponHit {
    pub fn new(id: u32, direction: AttackDirection) -> (r: WeaponHit)
        ensures
            r.id == id,
            r.direction == direction,
    {
        WeaponHit { id, direction }
    }
}

/// A two-phase charge: on activation the actor is flung up to five tiles in
/// its direction, striking along the path; afterwards the effect lingers as
/// a pure cooldown that blocks re-triggering.
pub struct Storm {
    pub direction: AttackDirection,
    pub id: u32,

    pub activated: bool,
    pub cool_down: u32,
}

impl Storm {
    pub fn new(id: u32, direction: AttackDirection) -> (r: Storm)
        ensures
            r.id == id,
            r.direction == direction,
            r.activated == false,
            r.cool_down == 10,
    {
        Storm { id, direction, activated: false, cool_down: 10 }
    }
}

/// An instant strike at the full eight-neighbourhood, then a short cooldown
/// that blocks re-triggering.
pub struct RoundHouse {
    pub id: u32,

    pub activated: bool,
    pub cool_down: u32,
}

impl RoundHouse {
    pub fn new(id: u32) -> (r: RoundHouse)
        ensures
            r.id == id,
            r.activated == false,
            r.cool_down == 4,
    {
        RoundHouse { id, activated: false, cool_down: 4 }
    }
}

/// The actor stands inside the grid on a floor tile.
pub open spec fn on_floor(l: Level, e: Entity) -> bool {
    &&& 0 <= e.pos_row < rows(l)
    &&& 0 <= e.pos_col < cols(l)
    &&& tile_at(l, e.pos_row as int, e.pos_col as int) == Tile::Floor
}

/// Whether the storm charge, striking from each position of its walk and
/// once more from where it ends, casts an attack pattern over the target
/// cell.
pub open spec fn spec_storm_covers(
    map: Level,
    dir: AttackDirection,
    row: i32,
    col: i32,
    steps: nat,
    target: (i32, i32),
) -> bool
    decreases steps,
{
    if spec_attack_area(dir, row, col).contains(target) {
        true
    } else if steps == 0 {
        false
    } else {
        let d = spec_direction_delta(dir);
        let nr = (row + d.0) as i32;
        let nc = (col + d.1) as i32;
        if tile_at(map, nr as int, nc as int) == Tile::Floor {
            spec_storm_covers(map, dir, nr, nc, (steps - 1) as nat, target)
        } else {
            spec_storm_covers(map, dir, row, col, (steps - 1) as nat, target)
        }
    }
}

/// Where the storm charge ends: up to `steps` unit moves, each taken only
/// onto floor; a blocked step stands still but the charge keeps trying.
pub open spec fn storm_walk(l: Level, row: int, col: int, drow: int, dcol: int, steps: nat) -> (
    int,
    int,
)
    decreases steps,
{
    if steps == 0 {
        (row, col)
    } else if tile_at(l, row + drow, col + dcol) == Tile::Floor {
        storm_walk(l, row + drow, col + dcol, drow, dcol, (steps - 1) as nat)
    } else {
        storm_walk(l, row, col, drow, dcol, (steps - 1) as nat)
    }
}

/// One strike of a multi-strike effect as the defender sees it: a dead
/// defender is left alone, a living one suffers exactly one combat
/// resolution at the given crit chance.
pub open spec fn spec_strike_step(
    me: Entity,
    pre: Entity,
    post: Entity,
    log_pre: Log,
    log_post: Log,
    crit: int,
) -> bool {
    if pre.current_life <= 0 {
        post == pre && log_post == log_pre
    } else {
        crate::fight::spec_hit_outcome(me, pre, post, log_pre, log_post, crit)
    }
}

/// The defender's state after exactly `n` strikes in sequence.
pub open spec fn spec_strike_chain(
    me: Entity,
    pre: Entity,
    post: Entity,
    log_pre: Log,
    log_post: Log,
    crit: int,
    n: nat,
) -> bool
    decreases n,
{
    if n == 0 {
        post == pre && log_post == log_pre
    } else {
        exists|mid: Entity, log_mid: Log|
            #[trigger] spec_strike_step(me, pre, mid, log_pre, log_mid, crit)
                && spec_strike_chain(me, mid, post, log_mid, log_post, crit, (n - 1) as nat)
    }
}

/// One more strike behind a chain of `n` strikes is a chain of `n + 1`.
proof fn lemma_strike_chain_snoc(
    me: Entity,
    a: Entity,
    b: Entity,
    c: Entity,
    la: Log,
    lb: Log,
    lc: Log,
    crit: int,
    n: nat,
)
    requires
        spec_strike_chain(me, a, b, la, lb, crit, n),
        spec_strike_step(me, b, c, lb, lc, crit),
    ensures
        spec_strike_chain(me, a, c, la, lc, crit, n + 1),
    decreases n,
{
    if n == 0 {
        assert(spec_strike_step(me, a, c, la, lc, crit));
        assert(spec_strike_chain(me, c, c, lc, lc, crit, 0));
    } else {
        let (mid, log_mid): (Entity, Log) = choose|mid: Entity, log_mid: Log|
            #[trigger] spec_strike_step(me, a, mid, la, log_mid, crit) && spec_strike_chain(
                me,
                mid,
                b,
                log_mid,
                lb,
                crit,
                (n - 1) as nat,
            );
        lemma_strike_chain_snoc(me, mid, b, c, log_mid, lb, lc, crit, (n - 1) as nat);
        assert(spec_strike_step(me, a, mid, la, log_mid, crit) && spec_strike_chain(
            me,
            mid,
            c,
            log_mid,
            lc,
            crit,
            n as nat,
        ));
    }
}

/// How many of the storm charge's strikes cast their pattern over the
/// target cell: one strike from each position of the floor-gated walk —
/// a blocked step strikes the same position again — and one more from
/// where the walk ends.
pub open spec fn storm_cover_count(
    map: Level,
    dir: AttackDirection,
    row: i32,
    col: i32,
    steps: nat,
    target: (i32, i32),
) -> nat
    decreases steps,
{
    let here: nat = if spec_attack_area(dir, row, col).contains(target) {
        1nat
    } else {
        0nat
    };
    if steps == 0 {
        here
    } else {
        let d = spec_direction_delta(dir);
        let nr = (row + d.0) as i32;
        let nc = (col + d.1) as i32;
        if tile_at(map, nr as int, nc as int) == Tile::Floor {
            (here + storm_cover_count(map, dir, nr, nc, (steps - 1) as nat, target)) as nat
        } else {
            (here + storm_cover_count(map, dir, row, col, (steps - 1) as nat, target)) as nat
        }
    }
}

/// One pending special attack. A closed set of variants dispatched by
/// match, all honouring the shared `valid` / `execute` / `done` protocol.
pub enum Effect {
    WeaponHit(WeaponHit),
    Storm(Storm),
    RoundHouse(RoundHouse),
}

impl Effect {
    /// The id of the entity that owns this effect.
    pub open spec fn spec_actor_id(&self) -> u32 {
        match self {
            Effect::WeaponHit(e) => e.id,
            Effect::Storm(e) => e.id,
            Effect::RoundHouse(e) => e.id,
        }
    }

    /// The discriminant used for de-duplication: at most one pending effect
    /// per (actor, kind).
    pub open spec fn spec_effect_id(&self) -> u32 {
        match self {
            Effect::WeaponHit(_) => 1,
            Effect::Storm(_) => 2,
            Effect::RoundHouse(_) => 3,
        }
    }

    /// Internal consistency of a pending effect: a storm flies in a
    /// cardinal direction, and an effect still pending after activation has
    /// cooldown left.
    pub open spec fn wf(&self) -> bool {
        match self {
            Effect::WeaponHit(_) => true,
            Effect::Storm(e) => is_cardinal(e.direction),
            Effect::RoundHouse(_) => true,
        }
    }

    pub fn actor_id(&self) -> (r: u32)
        ensures
            r == self.spec_actor_id(),
    {
        match self {
            Effect::WeaponHit(e) => e.id,
            Effect::Storm(e) => e.id,
            Effect::RoundHouse(e) => e.id,
        }
    }

    pub fn effect_id(&self) -> (r: u32)
        ensures
            r == self.spec_effect_id(),
    {
        match self {
            Effect::WeaponHit(_) => 1,
            Effect::Storm(_) => 2,
            Effect::RoundHouse(_) => 3,
        }
    }

    /// Whether the effect still waits for a follow-up direction command
    /// before it can be queued.
    pub fn needs_direction(&self) -> (r: bool)
        ensures
            r == (self.spec_effect_id() != 3),
    {
        match self {
            Effect::WeaponHit(_) => true,
            Effect::Storm(_) => true,
            Effect::RoundHouse(_) => false,
        }
    }

    /// An effect may be queued only if no effect with the same actor and
    /// kind is already pending: at most one concurrent effect per kind per
    /// actor.
    pub fn valid(&self, effects: &Vec<Effect>) -> (r: bool)
        ensures
            r == !(exists|i: int|
                0 <= i < effects@.len() && (#[trigger] effects@[i]).spec_actor_id()
                    == self.spec_actor_id() && effects@[i].spec_effect_id()
                    == self.spec_effect_id()),
    {
        let n = effects.len();
        let mut index: usize = 0;
        while index < n
            invariant
                n == effects@.len(),
                0 <= index <= n,
                forall|i: int|
                    0 <= i < index ==> !((#[trigger] effects@[i]).spec_actor_id()
                        == self.spec_actor_id() && effects@[i].spec_effect_id()
                        == self.spec_effect_id()),
            decreases n - index,
        {
            if effects[index].actor_id() == self.actor_id() && effects[index].effect_id()
                == self.effect_id() {
                return false;
            }
            index += 1;
        }
        true
    }

    /// Applies this tick's damage of the effect, cast by `me` against
    /// `other`. Damage only: the defender loses life exactly where the
    /// effect's pattern covers its tile, and is left alone everywhere else;
    /// an already activated effect and a dead defender are never touched.
    pub fn execute<T: Generator>(
        &self,
        gen: &T,
        log: &mut Log,
        map: &Level,
        me: &Entity,
        other: &mut Entity,
    )
        requires
            self.wf(),
            entity_wf(*me),
            entity_wf(*old(other)),
            level_wf(*map),
            on_floor(*map, *me),
        ensures
            entity_wf(*final(other)),
            final(other).current_life <= old(other).current_life,
            *final(other) == (Entity { current_life: final(other).current_life, ..*old(other) }),
            old(other).current_life <= 0 ==> {
                &&& *final(other) == *old(other)
                &&& *final(log) == *old(log)
            },
            old(other).current_life > 0 ==> ({
                let target = (old(other).pos_row, old(other).pos_col);
                let unchanged = *final(other) == *old(other) && *final(log) == *old(log);
                match *self {
                    Effect::WeaponHit(hit) => {
                        &&& (!spec_attack_area(hit.direction, me.pos_row, me.pos_col).contains(
                            target,
                        ) ==> unchanged)
                        &&& (spec_attack_area(hit.direction, me.pos_row, me.pos_col).contains(
                            target,
                        ) ==> crate::fight::spec_hit_outcome(
                            *me,
                            *old(other),
                            *final(other),
                            *old(log),
                            *final(log),
                            10,
                        ))
                    },
                    Effect::Storm(storm) => {
                        &&& (storm.activated ==> unchanged)
                        &&& (!storm.activated && !spec_storm_covers(
                            *map,
                            storm.direction,
                            me.pos_row,
                            me.pos_col,
                            5,
                            target,
                        ) ==> unchanged)
                        &&& (!storm.activated && spec_storm_covers(
                            *map,
                            storm.direction,
                            me.pos_row,
                            me.pos_col,
                            5,
                            target,
                        ) && crate::fight::spec_weapon_range(*me).0
                            + crate::fight::spec_attack_bonus(*me, *old(other)) > 0 ==> final(other).current_life < old(other).current_life)
                        &&& (!storm.activated ==> spec_strike_chain(
                            *me,
                            *old(other),
                            *final(other),
                            *old(log),
                            *final(log),
                            100,
                            storm_cover_count(
                                *map,
                                storm.direction,
                                me.pos_row,
                                me.pos_col,
                                5,
                                target,
                            ),
                        ))
                    },
                    Effect::RoundHouse(kick) => {
                        &&& (kick.activated ==> unchanged)
                        &&& (!kick.activated && !spec_attack_area(
                            AttackDirection::RoundHouseKick,
                            me.pos_row,
                            me.pos_col,
                        ).contains(target) ==> unchanged)
                        &&& (!kick.activated && spec_attack_area(
                            AttackDirection::RoundHouseKick,
                            me.pos_row,
                            me.pos_col,
                        ).contains(target) ==> crate::fight::spec_hit_outcome(
                            *me,
                            *old(other),
                            *final(other),
                            *old(log),
                            *final(log),
                            100,
                        ))
                    },
                }
            }),
    {
        match self {
            Effect::WeaponHit(hit) => {
                simple_attack(gen, &hit.direction, log, me.pos_row, me.pos_col, me, other, 10);
            },
            Effect::Storm(storm) => {
                if !storm.activated {
                    let (row, col) = resolve_direction(&storm.direction);
                    let mut steps: u32 = 5;

                    let mut pos_row = me.pos_row;
                    let mut pos_col = me.pos_col;

                    let ghost target = (old(other).pos_row, old(other).pos_col);
                    let ghost covers_full = spec_storm_covers(
                        *map,
                        storm.direction,
                        me.pos_row,
                        me.pos_col,
                        5,
                        target,
                    );
                    let ghost lo = crate::fight::spec_weapon_range(*me).0
                        + crate::fight::spec_attack_bonus(*me, *old(other));
                    let ghost full_cnt = storm_cover_count(
                        *map,
                        storm.direction,
                        me.pos_row,
                        me.pos_col,
                        5,
                        target,
                    );
                    let ghost mut done: nat = 0;

                    while steps > 0
                        invariant
                            entity_wf(*me),
                            entity_wf(*other),
                            level_wf(*map),
                            steps <= 5,
                            0 <= pos_row < rows(*map),
                            0 <= pos_col < cols(*map),
                            tile_at(*map, pos_row as int, pos_col as int) == Tile::Floor,
                            row as int == spec_direction_delta(storm.direction).0,
                            col as int == spec_direction_delta(storm.direction).1,
                            is_cardinal(storm.direction),
                            target == (old(other).pos_row, old(other).pos_col),
                            covers_full == spec_storm_covers(
                                *map,
                                storm.direction,
                                me.pos_row,
                                me.pos_col,
                                5,
                                target,
                            ),
                            lo == crate::fight::spec_weapon_range(*me).0
                                + crate::fight::spec_attack_bonus(*me, *old(other)),
                            other.current_life <= old(other).current_life,
                            *other == (Entity {
                                current_life: other.current_life,
                                ..*old(other)
                            }),
                            old(other).current_life <= 0 ==> {
                                &&& *other == *old(other)
                                &&& *log == *old(log)
                            },
                            old(other).current_life > 0 && !covers_full ==> {
                                &&& *other == *old(other)
                                &&& *log == *old(log)
                                &&& !spec_storm_covers(
                                    *map,
                                    storm.direction,
                                    pos_row,
                                    pos_col,
                                    steps as nat,
                                    target,
                                )
                            },
                            old(other).current_life > 0 && covers_full && lo > 0 ==> (
                            other.current_life < old(other).current_life || spec_storm_covers(
                                *map,
                                storm.direction,
                                pos_row,
                                pos_col,
                                steps as nat,
                                target,
                            )),
                            full_cnt == done + storm_cover_count(
                                *map,
                                storm.direction,
                                pos_row,
                                pos_col,
                                steps as nat,
                                target,
                            ),
                            spec_strike_chain(
                                *me,
                                *old(other),
                                *other,
                                *old(log),
                                *log,
                                100,
                                done,
                            ),
                        decreases steps,
                    {
                        steps -= 1;

                        let ghost pre = *other;
                        let ghost pre_log = *log;
                        simple_attack(gen, &storm.direction, log, pos_row, pos_col, me, other, 100);

                        proof {
                            assert(interior(*map, pos_row as int, pos_col as int));
                            if old(other).current_life > 0 && covers_full && lo > 0
                                && pre.current_life == old(other).current_life {
                                assert(pre == *old(other));
                                assert(crate::fight::spec_attack_bonus(*me, pre)
                                    == crate::fight::spec_attack_bonus(*me, *old(other)));
                            }
                            if spec_attack_area(storm.direction, pos_row, pos_col).contains(
                                target,
                            ) {
                                assert(spec_strike_step(*me, pre, *other, pre_log, *log, 100));
                                lemma_strike_chain_snoc(
                                    *me,
                                    *old(other),
                                    pre,
                                    *other,
                                    *old(log),
                                    pre_log,
                                    *log,
                                    100,
                                    done,
                                );
                                done = done + 1;
                            } else {
                                assert(*other == pre && *log == pre_log);
                            }
                        }
                        if map.map[(pos_row + row) as usize][(pos_col + col) as usize]
                            == Tile::Floor {
                            pos_row += row;
                            pos_col += col;
                        }
                    }

                    let ghost pre = *other;
                    let ghost pre_log = *log;
                    simple_attack(gen, &storm.direction, log, pos_row, pos_col, me, other, 100);
                    proof {
                        if old(other).current_life > 0 && covers_full && lo > 0
                            && pre.current_life == old(other).current_life {
                            assert(pre == *old(other));
                        }
                        if spec_attack_area(storm.direction, pos_row, pos_col).contains(target) {
                            assert(spec_strike_step(*me, pre, *other, pre_log, *log, 100));
                            lemma_strike_chain_snoc(
                                *me,
                                *old(other),
                                pre,
                                *other,
                                *old(log),
                                pre_log,
                                *log,
                                100,
                                done,
                            );
                            done = done + 1;
                        } else {
                            assert(*other == pre && *log == pre_log);
                        }
                        assert(done == full_cnt);
                    }
                }
            },
            Effect::RoundHouse(kick) => {
                if !kick.activated {
                    simple_attack(
                        gen,
                        &AttackDirection::RoundHouseKick,
                        log,
                        me.pos_row,
                        me.pos_col,
                        me,
                        other,
                        100,
                    );
                }
            },
        }
    }

    /// Advances the effect's internal state for this tick and says whether
    /// it is finished and should leave the pending list. The first call on
    /// a storm relocates its actor along the charge path and starts the
    /// cooldown phase; further calls just count the cooldown off.
    pub fn done(&mut self, me: &mut Entity, map: &Level) -> (r: bool)
        requires
            old(self).wf(),
            level_wf(*map),
            on_floor(*map, *old(me)),
        ensures
            on_floor(*map, *final(me)),
            (match *old(self) {
                Effect::WeaponHit(_) => {
                    &&& r == true
                    &&& *final(me) == *old(me)
                    &&& *final(self) == *old(self)
                },
                Effect::Storm(storm) => {
                    &&& (!storm.activated ==> {
                        &&& r == false
                        &&& *final(self) == Effect::Storm(Storm { activated: true, ..storm })
                        &&& ({
                            let d = spec_direction_delta(storm.direction);
                            let p = storm_walk(
                                *map,
                                old(me).pos_row as int,
                                old(me).pos_col as int,
                                d.0,
                                d.1,
                                5,
                            );
                            &&& final(me).pos_row == p.0
                            &&& final(me).pos_col == p.1
                        })
                        &&& *final(me) == (Entity {
                            pos_row: final(me).pos_row,
                            pos_col: final(me).pos_col,
                            ..*old(me)
                        })
                    })
                    &&& (storm.activated ==> {
                        &&& r == (storm.cool_down == 0)
                        &&& *final(self) == Effect::Storm(
                            Storm {
                                cool_down: (if storm.cool_down > 0 {
                                    storm.cool_down - 1
                                } else {
                                    0
                                }) as u32,
                                ..storm
                            },
                        )
                        &&& *final(me) == *old(me)
                    })
                },
                Effect::RoundHouse(kick) => {
                    &&& (!kick.activated ==> {
                        &&& r == false
                        &&& *final(self) == Effect::RoundHouse(RoundHouse { activated: true, ..kick })
                        &&& *final(me) == *old(me)
                    })
                    &&& (kick.activated ==> {
                        &&& r == (kick.cool_down == 0)
                        &&& *final(self) == Effect::RoundHouse(
                            RoundHouse {
                                cool_down: (if kick.cool_down > 0 {
                                    kick.cool_down - 1
                                } else {
                                    0
                                }) as u32,
                                ..kick
                            },
                        )
                        &&& *final(me) == *old(me)
                    })
                },
            }),
            r == false ==> final(self).wf(),
            final(self).spec_actor_id() == old(self).spec_actor_id(),
            final(self).spec_effect_id() == old(self).spec_effect_id(),
    {
        match self {
            Effect::WeaponHit(_) => true,
            Effect::Storm(storm) => {
                if storm.activated {
                    if storm.cool_down == 0 {
                        true
                    } else {
                        storm.cool_down -= 1;
                        false
                    }
                } else {
                    let (row, col) = resolve_direction(&storm.direction);
                    let mut steps: u32 = 5;

                    let ghost walk_target = storm_walk(
                        *map,
                        old(me).pos_row as int,
                        old(me).pos_col as int,
                        spec_direction_delta(storm.direction).0,
                        spec_direction_delta(storm.direction).1,
                        5,
                    );

                    while steps > 0
                        invariant
                            level_wf(*map),
                            0 <= me.pos_row < rows(*map),
                            0 <= me.pos_col < cols(*map),
                            tile_at(*map, me.pos_row as int, me.pos_col as int) == Tile::Floor,
                            row as int == spec_direction_delta(storm.direction).0,
                            col as int == spec_direction_delta(storm.direction).1,
                            is_cardinal(storm.direction),
                            walk_target == storm_walk(
                                *map,
                                me.pos_row as int,
                                me.pos_col as int,
                                row as int,
                                col as int,
                                steps as nat,
                            ),
                            *me == (Entity {
                                pos_row: me.pos_row,
                                pos_col: me.pos_col,
                                ..*old(me)
                            }),
                        decreases steps,
                    {
                        steps -= 1;

                        proof {
                            assert(interior(*map, me.pos_row as int, me.pos_col as int));
                        }
                        if map.map[(me.pos_row + row) as usize][(me.pos_col + col) as usize]
                            == Tile::Floor {
                            me.pos_row += row;
                            me.pos_col += col;
                        }
                    }

                    storm.activated = true;
                    false
                }
            },
            Effect::RoundHouse(kick) => {
                if kick.activated {
                    if kick.cool_down == 0 {
                        true
                    } else {
                        kick.cool_down -= 1;
                        false
                    }
                } else {
                    kick.activated = true;
                    false
                }
            },
        }
    }
}

} // verus!
