use vstd::prelude::*;
use crate::entity::{is_enemy, Entity, Kind, Sprite, Transform};
use crate::world::{EnemyDirection, EnemyDirectionChanged, Timer, World, WorldView};

verus! {

pub const ARENA_WIDTH: i32 = 224;
pub const ARENA_HEIGHT: i32 = 256;
/// Nominal size of an enemy, used for the boundary test and for aiming shots.
pub const ENEMY_WIDTH: i32 = 16;
pub const ENEMY_HEIGHT: i32 = 16;
/// Room kept between the formation and the side walls.
pub const ENEMY_WALL_GAP: i32 = 10;
/// Lateral step of the formation each time the move timer fires.
pub const MOVE_X: i32 = 4;
/// Descent of the formation each time it turns round.
pub const MOVE_Y: i32 = 8;
/// Move cadence with the whole formation alive, in milliseconds.
pub const INITIAL_MOVE_DELAY_MS: u64 = 600;
/// Move cadence with a single enemy left, in the limit, in milliseconds.
pub const FINAL_MOVE_DELAY_MS: u64 = 100;

/// `v` clamped to the range of `i32`.
pub open spec fn sat_i32(v: int) -> i32 {
    if v > i32::MAX {
        i32::MAX
    } else if v < i32::MIN {
        i32::MIN
    } else {
        v as i32
    }
}

/// `p + d`, clamped to the range of `i32`.
pub fn offset(p: i32, d: i32) -> (r: i32)
    ensures
        r == sat_i32(p + d),
{
    let v = p as i64 + d as i64;
    if v > i32::MAX as i64 {
        i32::MAX
    } else if v < i32::MIN as i64 {
        i32::MIN
    } else {
        v as i32
    }
}

/// Move cadence for `live` survivors out of `total`: it shrinks linearly from
/// the initial to the final delay as the formation is thinned out.
pub open spec fn move_cadence(live: int, total: int) -> int {
    if live >= total {
        INITIAL_MOVE_DELAY_MS as int
    } else {
        FINAL_MOVE_DELAY_MS + (INITIAL_MOVE_DELAY_MS - FINAL_MOVE_DELAY_MS) * live / total
    }
}

proof fn lemma_cadence_bounds(live: int, total: int)
    requires
        0 <= live,
    ensures
        FINAL_MOVE_DELAY_MS <= move_cadence(live, total) <= INITIAL_MOVE_DELAY_MS,
{
    if live < total {
        let x = 500 * live;
        let q = x / total;
        assert(0 <= q < 500) by (nonlinear_arith)
            requires
                x == 500 * live,
                q == x / total,
                0 <= live < total,
        {
            vstd::arithmetic::div_mod::lemma_fundamental_div_mod(x, total);
            vstd::arithmetic::div_mod::lemma_div_pos_is_pos(x, total);
        }
    }
}

/// As survivors fall from the whole formation towards none, the move cadence
/// never grows.
pub proof fn lemma_cadence_monotone(fewer: int, more: int, total: int)
    requires
        0 <= fewer <= more,
    ensures
        move_cadence(fewer, total) <= move_cadence(more, total),
{
    lemma_cadence_bounds(fewer, total);
    if more < total {
        vstd::arithmetic::mul::lemma_mul_inequality(fewer, more, 500);
        vstd::arithmetic::div_mod::lemma_div_is_ordered(500 * fewer, 500 * more, total);
    }
}

/// The move cadence, in milliseconds, for `live` survivors out of `total`.
pub fn move_delay(live: usize, total: usize) -> (r: u64)
    ensures
        r == move_cadence(live as int, total as int),
{
    proof {
        lemma_cadence_bounds(live as int, total as int);
    }
    if live >= total {
        INITIAL_MOVE_DELAY_MS
    } else {
        let span = (INITIAL_MOVE_DELAY_MS - FINAL_MOVE_DELAY_MS) as u128;
        let q = span * (live as u128) / (total as u128);
        FINAL_MOVE_DELAY_MS + q as u64
    }
}

impl Timer {
    /// Runs the timer for `delta_ms` against a period of `duration_ms`. It
    /// fires when the time run reaches the period, and then starts again from
    /// zero.
    pub fn tick(&mut self, duration_ms: u64, delta_ms: u64) -> (fired: bool)
        ensures
            fired == (old(self).elapsed_ms + delta_ms >= duration_ms),
            final(self).elapsed_ms == if fired { 0 } else { old(self).elapsed_ms + delta_ms },
    {
        if self.elapsed_ms >= duration_ms || delta_ms >= duration_ms - self.elapsed_ms {
            self.elapsed_ms = 0;
            true
        } else {
            self.elapsed_ms = self.elapsed_ms + delta_ms;
            false
        }
    }
}

pub open spec fn opposite(d: EnemyDirection) -> EnemyDirection {
    match d {
        EnemyDirection::Right => EnemyDirection::Left,
        EnemyDirection::Left => EnemyDirection::Right,
    }
}

pub open spec fn sign(d: EnemyDirection) -> int {
    match d {
        EnemyDirection::Right => 1,
        EnemyDirection::Left => -1,
    }
}

impl EnemyDirection {
    pub fn reverse(&mut self)
        ensures
            *final(self) == opposite(*old(self)),
    {
        if *self == EnemyDirection::Right {
            *self = EnemyDirection::Left;
        } else {
            *self = EnemyDirection::Right;
        }
    }

    /// The sign of the horizontal motion: 1 to the right, -1 to the left.
    pub fn as_i32(&self) -> (r: i32)
        ensures
            r == sign(*self),
    {
        match self {
            EnemyDirection::Right => 1,
            EnemyDirection::Left => -1,
        }
    }
}

/// The other of the two animation frames of an enemy.
pub open spec fn toggled(s: Option<Sprite>) -> Option<Sprite> {
    match s {
        Some(sp) => Some(Sprite { frame: if sp.frame == 0 { 1 } else { 0 }, ..sp }),
        None => None,
    }
}

/// An enemy after one lateral step of `dx`; other entities stay.
pub open spec fn stepped(e: Entity, dx: int) -> Entity {
    if is_enemy(e) {
        Entity {
            transform: Transform { x: sat_i32(e.transform.x + dx), ..e.transform },
            sprite: toggled(e.sprite),
            ..e
        }
    } else {
        e
    }
}

/// An enemy after one descent step; other entities stay.
pub open spec fn lowered(e: Entity) -> Entity {
    if is_enemy(e) {
        Entity { transform: Transform { y: sat_i32(e.transform.y - MOVE_Y), ..e.transform }, ..e }
    } else {
        e
    }
}

/// Enemy `e` has reached the side of the arena it is heading for.
pub open spec fn at_boundary(e: Entity, d: EnemyDirection) -> bool {
    is_enemy(e) && match d {
        EnemyDirection::Right => e.transform.x + ENEMY_WIDTH / 2 + ENEMY_WALL_GAP >= ARENA_WIDTH,
        EnemyDirection::Left => e.transform.x - ENEMY_WIDTH / 2 - ENEMY_WALL_GAP <= 0,
    }
}

pub open spec fn needs_reverse(ents: Seq<Entity>, d: EnemyDirection) -> bool {
    exists|i: int| 0 <= i < ents.len() && #[trigger] at_boundary(ents[i], d)
}

/// The number of enemies in the store.
pub open spec fn enemy_count(ents: Seq<Entity>) -> nat
    decreases ents.len(),
{
    if ents.len() == 0 {
        0
    } else {
        enemy_count(ents.drop_last()) + if is_enemy(ents.last()) { 1nat } else { 0nat }
    }
}

/// The state after one lateral step of the formation.
pub open spec fn move_outcome(v: WorldView) -> WorldView {
    WorldView {
        entities: v.entities.map_values(|e: Entity| stepped(e, MOVE_X * sign(v.direction))),
        ..v
    }
}

/// The move timer reaches the cadence for the current survivors within `delta_ms`.
pub open spec fn formation_fires(v: WorldView, delta_ms: u64) -> bool {
    v.move_elapsed + delta_ms >= move_cadence(enemy_count(v.entities) as int, v.total_enemies as int)
}

/// The state after one frame of the formation: the move timer runs, and the
/// formation steps when it fires.
pub open spec fn advance_outcome(v: WorldView, delta_ms: u64) -> WorldView {
    if formation_fires(v, delta_ms) {
        move_outcome(WorldView { move_elapsed: 0, ..v })
    } else {
        WorldView { move_elapsed: (v.move_elapsed + delta_ms) as u64, ..v }
    }
}

/// The state after the boundary check: where an enemy has reached the side
/// it heads for, the direction flips and every enemy descends.
pub open spec fn boundary_outcome(v: WorldView) -> WorldView {
    if needs_reverse(v.entities, v.direction) {
        WorldView {
            entities: v.entities.map_values(|e: Entity| lowered(e)),
            direction: opposite(v.direction),
            ..v
        }
    } else {
        v
    }
}

/// A formation heading right whose edge stands within one lateral step of the
/// right boundary (less the wall gap) turns round on the tick of that step:
/// after the step and the boundary check the direction is left and every
/// enemy stands one descent step lower, all else in place.
pub proof fn lemma_reversal_on_boundary(v: WorldView, i: int, eps: int)
    requires
        v.direction == EnemyDirection::Right,
        0 <= i < v.entities.len(),
        is_enemy(v.entities[i]),
        v.entities[i].transform.x + ENEMY_WIDTH / 2 == ARENA_WIDTH - ENEMY_WALL_GAP - eps,
        0 < eps <= MOVE_X,
        forall|j: int|
            0 <= j < v.entities.len() && #[trigger] is_enemy(v.entities[j])
                ==> v.entities[j].transform.y >= i32::MIN + MOVE_Y,
    ensures
        boundary_outcome(move_outcome(v)).direction == EnemyDirection::Left,
        boundary_outcome(move_outcome(v)).entities.len() == v.entities.len(),
        forall|j: int|
            0 <= j < v.entities.len() ==> (#[trigger] boundary_outcome(move_outcome(v)).entities[j]).transform.y
                == if is_enemy(v.entities[j]) {
                v.entities[j].transform.y - MOVE_Y
            } else {
                v.entities[j].transform.y as int
            },
{
    let m = move_outcome(v);
    assert(m.entities[i] == stepped(v.entities[i], MOVE_X * sign(v.direction)));
    assert(at_boundary(m.entities[i], EnemyDirection::Right));
    assert(needs_reverse(m.entities, m.direction));
    let after = boundary_outcome(m);
    assert forall|j: int| 0 <= j < v.entities.len() implies (#[trigger] after.entities[j]).transform.y
        == if is_enemy(v.entities[j]) {
        v.entities[j].transform.y - MOVE_Y
    } else {
        v.entities[j].transform.y as int
    } by {
        assert(m.entities[j] == stepped(v.entities[j], MOVE_X * sign(v.direction)));
        assert(after.entities[j] == lowered(m.entities[j]));
    }
}

fn step_entity(e: Entity, dx: i32) -> (r: Entity)
    ensures
        r == stepped(e, dx as int),
{
    match e.kind {
        Kind::Enemy { .. } => {
            let sprite = match e.sprite {
                Some(sp) => Some(Sprite { frame: if sp.frame == 0 { 1 } else { 0 }, ..sp }),
                None => None,
            };
            Entity {
                transform: Transform { x: offset(e.transform.x, dx), ..e.transform },
                sprite,
                ..e
            }
        },
        _ => e,
    }
}

fn lower_entity(e: Entity) -> (r: Entity)
    ensures
        r == lowered(e),
{
    match e.kind {
        Kind::Enemy { .. } => Entity {
            transform: Transform { y: offset(e.transform.y, -MOVE_Y), ..e.transform },
            ..e
        },
        _ => e,
    }
}

fn reaches_boundary(e: &Entity, d: EnemyDirection) -> (r: bool)
    ensures
        r == at_boundary(*e, d),
{
    match e.kind {
        Kind::Enemy { .. } => {
            let x = e.transform.x as i64;
            match d {
                EnemyDirection::Right => x + (ENEMY_WIDTH / 2) as i64 + ENEMY_WALL_GAP as i64
                    >= ARENA_WIDTH as i64,
                EnemyDirection::Left => x - (ENEMY_WIDTH / 2) as i64 - ENEMY_WALL_GAP as i64 <= 0,
            }
        },
        _ => false,
    }
}

impl World {
    /// The number of enemies still alive.
    pub fn enemy_count(&self) -> (r: usize)
        ensures
            r == enemy_count(self.entities@),
    {
        let mut n: usize = 0;
        let mut k: usize = 0;
        while k < self.entities.len()
            invariant
                k <= self.entities@.len(),
                n == enemy_count(self.entities@.subrange(0, k as int)),
                n <= k,
            decreases self.entities@.len() - k,
        {
            assert(self.entities@.subrange(0, k as int + 1).drop_last() =~= self.entities@.subrange(
                0,
                k as int,
            ));
            if let Kind::Enemy { .. } = self.entities[k].kind {
                n += 1;
            }
            k += 1;
        }
        assert(self.entities@.subrange(0, k as int) =~= self.entities@);
        n
    }

    /// Re-arms the move timer with the cadence for the current survivors and
    /// runs it for `delta_ms`; says whether it fired.
    pub fn update_move_timer(&mut self, delta_ms: u64) -> (fired: bool)
        ensures
            fired == (old(self).move_timer.elapsed_ms + delta_ms >= move_cadence(
                enemy_count(old(self).entities@) as int,
                old(self).total_enemies as int,
            )),
            final(self)@ == (WorldView {
                move_elapsed: if fired { 0 } else { (old(self).move_timer.elapsed_ms + delta_ms) as u64 },
                ..old(self)@
            }),
    {
        let live = self.enemy_count();
        let duration = move_delay(live, self.total_enemies);
        self.move_timer.tick(duration, delta_ms)
    }

    /// One lateral step of the whole formation in the current direction; each
    /// enemy also shows its other animation frame.
    pub fn move_enemies(&mut self)
        ensures
            final(self)@ == move_outcome(old(self)@),
    {
        let ghost orig = self.entities@;
        let ghost v0 = self@;
        let dx = MOVE_X * self.direction.as_i32();
        let mut k: usize = 0;
        while k < self.entities.len()
            invariant
                k <= self.entities@.len(),
                self.entities@.len() == orig.len(),
                dx == MOVE_X * sign(self.direction),
                self@ == (WorldView { entities: self.entities@, ..v0 }),
                forall|j: int| 0 <= j < k ==> #[trigger] self.entities@[j] == stepped(orig[j], dx as int),
                forall|j: int| k <= j < orig.len() ==> #[trigger] self.entities@[j] == orig[j],
            decreases orig.len() - k,
        {
            let e = step_entity(self.entities[k], dx);
            self.entities.set(k, e);
            k += 1;
        }
        assert(self.entities@ =~= orig.map_values(|e: Entity| stepped(e, MOVE_X * sign(self.direction))));
    }

    /// The boundary check: where an enemy has reached the side it heads for,
    /// the formation turns round and descends one step.
    pub fn swap_enemy_direction(&mut self) -> (r: Option<EnemyDirectionChanged>)
        ensures
            r is Some == needs_reverse(old(self).entities@, old(self).direction),
            final(self)@ == boundary_outcome(old(self)@),
    {
        let ghost orig = self.entities@;
        let ghost v0 = self@;
        let mut needs = false;
        let mut k: usize = 0;
        while k < self.entities.len() && !needs
            invariant
                k <= self.entities@.len(),
                self.entities@ == orig,
                self@ == v0,
                !needs ==> forall|j: int| 0 <= j < k ==> !#[trigger] at_boundary(orig[j], self.direction),
                needs ==> needs_reverse(orig, self.direction),
            decreases orig.len() - k,
        {
            if reaches_boundary(&self.entities[k], self.direction) {
                needs = true;
            }
            k += 1;
        }
        if !needs {
            return None;
        }
        self.direction.reverse();
        let mut k: usize = 0;
        while k < self.entities.len()
            invariant
                k <= self.entities@.len(),
                self.entities@.len() == orig.len(),
                self@ == (WorldView { entities: self.entities@, direction: opposite(v0.direction), ..v0 }),
                forall|j: int| 0 <= j < k ==> #[trigger] self.entities@[j] == lowered(orig[j]),
                forall|j: int| k <= j < orig.len() ==> #[trigger] self.entities@[j] == orig[j],
            decreases orig.len() - k,
        {
            let e = lower_entity(self.entities[k]);
            self.entities.set(k, e);
            k += 1;
        }
        assert(self.entities@ =~= orig.map_values(|e: Entity| lowered(e)));
        Some(EnemyDirectionChanged)
    }

    /// One frame of the formation: re-arm and run the move timer, and step
    /// the formation if it fired.
    pub fn advance_formation(&mut self, delta_ms: u64) -> (moved: bool)
        ensures
            moved == formation_fires(old(self)@, delta_ms),
            final(self)@ == advance_outcome(old(self)@, delta_ms),
    {
        let fired = self.update_move_timer(delta_ms);
        if fired {
            self.move_enemies();
        }
        fired
    }
}

} // verus!
