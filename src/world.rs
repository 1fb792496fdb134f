use vstd::prelude::*;
use crate::collision::{check_collisions, collision_hits, Hit};
use crate::shooters::lemma_best_candidate;
use crate::entity::{ids_unique, is_enemy, Enemy, Entity, Kind, Role};

verus! {

/// Running score of the session.
#[derive(Clone, Copy, Debug, PartialEq, Eq, Structural)]
pub struct Score(pub usize);

/// Lives the player has left.
#[derive(Clone, Copy, Debug, PartialEq, Eq, Structural)]
pub struct Lives(pub usize);

/// Notice that the score took a new value.
#[derive(Clone, Copy, Debug, PartialEq, Eq, Structural)]
pub struct ScoreChanged {
    pub score: usize,
}

/// Which way the formation moves.
#[derive(Clone, Copy, Debug, PartialEq, Eq, Structural)]
pub enum EnemyDirection {
    Right,
    Left,
}

/// Notice that the formation turned round.
#[derive(Clone, Copy, Debug, PartialEq, Eq, Structural)]
pub struct EnemyDirectionChanged;

/// Time run on a timer since it last fired, in milliseconds.
#[derive(Clone, Copy, Debug, PartialEq, Eq, Structural)]
pub struct Timer {
    pub elapsed_ms: u64,
}

/// A short-lived visual left where an enemy died; it expires by itself.
#[derive(Clone, Copy, Debug, PartialEq, Eq, Structural)]
pub struct Temporary {
    pub x: i32,
    pub y: i32,
    pub remaining_ms: u64,
}

/// How long an explosion stays, in milliseconds.
pub const EXPLOSION_MS: u64 = 500;

/// The whole simulation state of one playing session.
pub struct World {
    /// Every simulated object, in storage order.
    pub entities: Vec<Entity>,
    /// The id the next spawned entity gets.
    pub next_id: u64,
    pub score: Score,
    pub lives: Lives,
    /// Where the formation is heading.
    pub direction: EnemyDirection,
    /// Paces the formation's lateral steps.
    pub move_timer: Timer,
    /// Paces the enemies' fire.
    pub shoot_timer: Timer,
    /// Size of the formation at the start, against which the cadence is measured.
    pub total_enemies: usize,
    /// Explosions still showing.
    pub temporaries: Vec<Temporary>,
    /// The shields have been populated from their image.
    pub shields_spawned: bool,
}

/// The simulation state as mathematical values.
pub struct WorldView {
    pub entities: Seq<Entity>,
    pub next_id: u64,
    pub score: usize,
    pub lives: usize,
    pub direction: EnemyDirection,
    pub move_elapsed: u64,
    pub shoot_elapsed: u64,
    pub total_enemies: usize,
    pub temporaries: Seq<Temporary>,
    pub shields_spawned: bool,
}

impl View for World {
    type V = WorldView;

    open spec fn view(&self) -> WorldView {
        WorldView {
            entities: self.entities@,
            next_id: self.next_id,
            score: self.score.0,
            lives: self.lives.0,
            direction: self.direction,
            move_elapsed: self.move_timer.elapsed_ms,
            shoot_elapsed: self.shoot_timer.elapsed_ms,
            total_enemies: self.total_enemies,
            temporaries: self.temporaries@,
            shields_spawned: self.shields_spawned,
        }
    }
}

/// The first index at or after `k` that holds the entity `id`.
pub open spec fn find_from(ents: Seq<Entity>, id: u64, k: int) -> Option<int>
    decreases ents.len() - k,
{
    if k < 0 || k >= ents.len() {
        None
    } else if ents[k].id == id {
        Some(k)
    } else {
        find_from(ents, id, k + 1)
    }
}

pub open spec fn find(ents: Seq<Entity>, id: u64) -> Option<int> {
    find_from(ents, id, 0)
}

/// Grid coordinate of an enemy entity.
pub open spec fn cell_of(e: Entity) -> Enemy {
    match e.kind {
        Kind::Enemy { cell, .. } => cell,
        _ => Enemy { x: 0, y: 0 },
    }
}

pub open spec fn is_shooter(e: Entity) -> bool {
    e.kind matches Kind::Enemy { role: Role::Shooter, .. }
}

/// A surviving non-shooter of column `col`: a candidate for promotion.
pub open spec fn promotable(e: Entity, col: usize) -> bool {
    e.kind matches Kind::Enemy { role: Role::NonShooter, cell, .. } && cell.x == col
}

/// The candidate of column `col` with the greatest row among the first `n`
/// entities; of several, the last.
pub open spec fn best_candidate(ents: Seq<Entity>, col: usize, n: int) -> Option<int>
    decreases n,
{
    if n <= 0 {
        None
    } else {
        let b = best_candidate(ents, col, n - 1);
        if promotable(ents[n - 1], col) {
            match b {
                Some(i) => if cell_of(ents[n - 1]).y >= cell_of(ents[i]).y {
                    Some(n - 1)
                } else {
                    Some(i)
                },
                None => Some(n - 1),
            }
        } else {
            b
        }
    }
}

/// The entity with its role set to `r`, if it is an enemy.
pub open spec fn with_role(e: Entity, r: Role) -> Entity {
    match e.kind {
        Kind::Enemy { cell, points, .. } => Entity { kind: Kind::Enemy { cell, points, role: r }, ..e },
        _ => e,
    }
}

/// The store after the lowest surviving non-shooter of column `col` (if
/// any) became its shooter.
pub open spec fn promote_in(ents: Seq<Entity>, col: usize) -> Seq<Entity> {
    match best_candidate(ents, col, ents.len() as int) {
        Some(b) => ents.update(b, with_role(ents[b], Role::Shooter)),
        None => ents,
    }
}

/// `a + b`, or the largest `usize` where the sum does not fit.
pub open spec fn sat_add(a: usize, b: usize) -> usize {
    if a + b > usize::MAX {
        usize::MAX
    } else {
        (a + b) as usize
    }
}

/// The state after a hit notification addressed to entity `id`: shots and
/// shield blocks go; an enemy goes, leaves an explosion, credits its points
/// and, if it was its column's shooter, hands the role on; the player loses a
/// life; a wall, or an id that is gone, changes nothing.
pub open spec fn hit_outcome(v: WorldView, id: u64) -> WorldView {
    match find(v.entities, id) {
        None => v,
        Some(i) => {
            let e = v.entities[i];
            match e.kind {
                Kind::PlayerShot | Kind::EnemyShot | Kind::ShieldBlock => WorldView {
                    entities: v.entities.remove(i),
                    ..v
                },
                Kind::Enemy { cell, points, role } => WorldView {
                    entities: if role is Shooter {
                        promote_in(v.entities.remove(i), cell.x)
                    } else {
                        v.entities.remove(i)
                    },
                    score: sat_add(v.score, points.0),
                    temporaries: v.temporaries.push(
                        Temporary { x: e.transform.x, y: e.transform.y, remaining_ms: EXPLOSION_MS },
                    ),
                    ..v
                },
                Kind::Player => WorldView {
                    lives: if v.lives > 0 { (v.lives - 1) as usize } else { 0 },
                    ..v
                },
                Kind::Wall => v,
            }
        },
    }
}

pub(crate) proof fn lemma_find_in_range(ents: Seq<Entity>, id: u64, k: int)
    ensures
        find_from(ents, id, k) matches Some(i) ==> 0 <= i < ents.len() && ents[i].id == id,
        find_from(ents, id, k) is None ==> forall|j: int|
            k <= j < ents.len() && 0 <= k ==> #[trigger] ents[j].id != id,
    decreases ents.len() - k,
{
    if 0 <= k < ents.len() && ents[k].id != id {
        lemma_find_in_range(ents, id, k + 1);
    }
}

/// Every id in the store is distinct and below the next id to hand out.
pub open spec fn ids_fresh(v: WorldView) -> bool {
    &&& ids_unique(v.entities)
    &&& forall|i: int| 0 <= i < v.entities.len() ==> (#[trigger] v.entities[i]).id < v.next_id
}

/// Spawning keeps ids distinct and fresh.
pub proof fn lemma_spawn_keeps_ids(
    v: WorldView,
    kind: Kind,
    transform: crate::entity::Transform,
    sprite: Option<crate::entity::Sprite>,
    collider: crate::collider::Collider,
)
    requires
        ids_fresh(v),
    ensures
        ids_fresh(crate::shots::spawn_outcome(v, kind, transform, sprite, collider)),
{
    let after = crate::shots::spawn_outcome(v, kind, transform, sprite, collider);
    if v.next_id < u64::MAX {
        assert forall|i: int, j: int|
            0 <= i < after.entities.len() && 0 <= j < after.entities.len()
                && #[trigger] after.entities[i].id == #[trigger] after.entities[j].id implies i == j by {
            if i < v.entities.len() && j < v.entities.len() {
                assert(after.entities[i] == v.entities[i] && after.entities[j] == v.entities[j]);
            } else if i < v.entities.len() {
                assert(after.entities[i] == v.entities[i]);
            } else if j < v.entities.len() {
                assert(after.entities[j] == v.entities[j]);
            }
        }
        assert forall|i: int| 0 <= i < after.entities.len() implies (#[trigger] after.entities[i]).id
            < after.next_id by {
            if i < v.entities.len() {
                assert(after.entities[i] == v.entities[i]);
            }
        }
    }
}

/// A hit notification keeps ids distinct and fresh.
pub proof fn lemma_hit_keeps_ids(v: WorldView, id: u64)
    requires
        ids_fresh(v),
    ensures
        ids_fresh(hit_outcome(v, id)),
{
    lemma_find_in_range(v.entities, id, 0);
    if let Some(i) = find(v.entities, id) {
        let after = hit_outcome(v, id);
        v.entities.remove_ensures(i);
        let r = v.entities.remove(i);
        let orig = |k: int| if k < i { k } else { k + 1 };
        let col = cell_of(v.entities[i]).x;
        lemma_best_candidate(r, col, r.len() as int);
        if !(v.entities[i].kind is Player) && !(v.entities[i].kind is Wall) {
            assert(after.entities.len() == r.len());
            assert forall|k: int| 0 <= k < r.len() implies (#[trigger] after.entities[k]).id == r[k].id
                && r[k] == v.entities[orig(k)] by {}
            assert forall|a: int, b: int|
                0 <= a < after.entities.len() && 0 <= b < after.entities.len()
                    && #[trigger] after.entities[a].id == #[trigger] after.entities[b].id implies a == b by {
                assert(r[a] == v.entities[orig(a)] && r[b] == v.entities[orig(b)]);
            }
            assert forall|k: int| 0 <= k < after.entities.len() implies (#[trigger] after.entities[k]).id
                < after.next_id by {
                assert(r[k] == v.entities[orig(k)]);
            }
        }
    }
}

/// Any sequence of hit notifications keeps ids distinct and fresh.
pub proof fn lemma_ids_after_hits(v: WorldView, ids: Seq<u64>)
    requires
        ids_fresh(v),
    ensures
        ids_fresh(after_hits(v, ids)),
    decreases ids.len(),
{
    if ids.len() > 0 {
        lemma_ids_after_hits(v, ids.drop_last());
        lemma_hit_keeps_ids(after_hits(v, ids.drop_last()), ids.last());
    }
}

/// The points an enemy entity is worth.
pub open spec fn points_of(e: Entity) -> usize {
    match e.kind {
        Kind::Enemy { points, .. } => points.0,
        _ => 0,
    }
}

/// Destroying an enemy credits exactly its points, and a second notification
/// for the same enemy finds it gone and credits nothing more.
pub proof fn lemma_score_credited_once(v: WorldView, id: u64)
    requires
        ids_unique(v.entities),
        find(v.entities, id) matches Some(i) && is_enemy(v.entities[i]),
    ensures
        hit_outcome(v, id).score == sat_add(v.score, points_of(v.entities[find(v.entities, id)->0])),
        hit_outcome(hit_outcome(v, id), id) == hit_outcome(v, id),
{
    lemma_find_in_range(v.entities, id, 0);
    let i = find(v.entities, id)->0;
    let once = hit_outcome(v, id);
    v.entities.remove_ensures(i);
    let r = v.entities.remove(i);
    assert forall|j: int| 0 <= j < r.len() implies #[trigger] r[j].id != id by {
        let oj = if j < i { j } else { j + 1 };
        assert(r[j] == v.entities[oj]);
    }
    let col = cell_of(v.entities[i]).x;
    lemma_best_candidate(r, col, r.len() as int);
    assert forall|j: int| 0 <= j < once.entities.len() implies #[trigger] once.entities[j].id != id by {
        if is_shooter(v.entities[i]) {
            lemma_best_candidate(r, col, r.len() as int);
            assert(once.entities == promote_in(r, col));
            assert(once.entities[j].id == r[j].id);
        }
    }
    lemma_find_in_range(once.entities, id, 0);
}

/// The state after the hit notifications `ids`, applied in order.
pub open spec fn after_hits(v: WorldView, ids: Seq<u64>) -> WorldView
    decreases ids.len(),
{
    if ids.len() == 0 {
        v
    } else {
        hit_outcome(after_hits(v, ids.drop_last()), ids.last())
    }
}

/// The notifications of a list of hits, in order: each hit notifies its
/// projectile, then the entity it struck.
pub open spec fn notifications(hits: Seq<Hit>) -> Seq<u64>
    decreases hits.len(),
{
    if hits.len() == 0 {
        Seq::empty()
    } else {
        notifications(hits.drop_last()).push(hits.last().projectile).push(hits.last().target)
    }
}

/// Explosions after `delta_ms` more: the expired ones go, the others have
/// that much less to live.
pub open spec fn aged(ts: Seq<Temporary>, delta_ms: u64) -> Seq<Temporary>
    decreases ts.len(),
{
    if ts.len() == 0 {
        Seq::empty()
    } else {
        let prev = aged(ts.drop_last(), delta_ms);
        let t = ts.last();
        if t.remaining_ms > delta_ms {
            prev.push(Temporary { remaining_ms: (t.remaining_ms - delta_ms) as u64, ..t })
        } else {
            prev
        }
    }
}

impl World {
    /// Index of the entity `id` in the store.
    pub fn find(&self, id: u64) -> (r: Option<usize>)
        ensures
            match r {
                Some(i) => i < self.entities@.len() && find(self.entities@, id) == Some(i as int),
                None => find(self.entities@, id) is None,
            },
    {
        let mut k: usize = 0;
        while k < self.entities.len()
            invariant
                k <= self.entities@.len(),
                find(self.entities@, id) == find_from(self.entities@, id, k as int),
            decreases self.entities@.len() - k,
        {
            if self.entities[k].id == id {
                return Some(k);
            }
            k += 1;
        }
        None
    }

    /// Hands the shooter role of column `col` to its lowest surviving non-shooter.
    fn promote(&mut self, col: usize)
        ensures
            final(self).entities@ == promote_in(old(self).entities@, col),
            final(self).next_id == old(self).next_id,
            final(self).score == old(self).score,
            final(self).lives == old(self).lives,
            final(self).direction == old(self).direction,
            final(self).move_timer == old(self).move_timer,
            final(self).shoot_timer == old(self).shoot_timer,
            final(self).total_enemies == old(self).total_enemies,
            final(self).temporaries@ == old(self).temporaries@,
            final(self).shields_spawned == old(self).shields_spawned,
    {
        let mut best: Option<usize> = None;
        let mut k: usize = 0;
        while k < self.entities.len()
            invariant
                k <= self.entities@.len(),
                match best {
                    Some(b) => b < k && best_candidate(self.entities@, col, k as int) == Some(b as int),
                    None => best_candidate(self.entities@, col, k as int) is None,
                },
            decreases self.entities@.len() - k,
        {
            let e = self.entities[k];
            if let Kind::Enemy { cell, role: Role::NonShooter, .. } = e.kind {
                if cell.x == col {
                    match best {
                        Some(b) => {
                            let row_b = match self.entities[b].kind {
                                Kind::Enemy { cell: cb, .. } => cb.y,
                                _ => 0,
                            };
                            if cell.y >= row_b {
                                best = Some(k);
                            }
                        },
                        None => {
                            best = Some(k);
                        },
                    }
                }
            }
            k += 1;
        }
        if let Some(b) = best {
            let e = self.entities[b];
            if let Kind::Enemy { cell, points, .. } = e.kind {
                let promoted = Entity { kind: Kind::Enemy { cell, points, role: Role::Shooter }, ..e };
                self.entities.set(b, promoted);
            }
        }
    }

    /// Applies the hits of a collision pass, in order; says the new score
    /// when it changed.
    pub fn apply_hits(&mut self, hits: &Vec<Hit>) -> (r: Option<ScoreChanged>)
        ensures
            final(self)@ == after_hits(old(self)@, notifications(hits@)),
            r == if final(self).score != old(self).score {
                Some(ScoreChanged { score: final(self).score.0 })
            } else {
                None::<ScoreChanged>
            },
    {
        let ghost v0 = self@;
        let before = self.score.0;
        let mut k: usize = 0;
        while k < hits.len()
            invariant
                k <= hits@.len(),
                before == v0.score,
                self@ == after_hits(v0, notifications(hits@.subrange(0, k as int))),
            decreases hits@.len() - k,
        {
            let h = hits[k];
            let ghost done = notifications(hits@.subrange(0, k as int));
            assert(hits@.subrange(0, k as int + 1).drop_last() =~= hits@.subrange(0, k as int));
            assert(done.push(h.projectile).push(h.target).drop_last() =~= done.push(h.projectile));
            assert(done.push(h.projectile).drop_last() =~= done);
            let ghost next = hits@.subrange(0, k as int + 1);
            assert(next.last() == h);
            assert(notifications(next) == done.push(h.projectile).push(h.target));
            assert(after_hits(v0, done.push(h.projectile)) == hit_outcome(after_hits(v0, done), h.projectile));
            assert(after_hits(v0, done.push(h.projectile).push(h.target)) == hit_outcome(
                after_hits(v0, done.push(h.projectile)),
                h.target,
            ));
            assert(after_hits(v0, notifications(next)) == hit_outcome(
                hit_outcome(after_hits(v0, done), h.projectile),
                h.target,
            ));
            self.on_hit(h.projectile);
            self.on_hit(h.target);
            k += 1;
        }
        assert(hits@.subrange(0, k as int) =~= hits@);
        if self.score.0 != before {
            Some(ScoreChanged { score: self.score.0 })
        } else {
            None
        }
    }

    /// One collision pass over the store, then its hits applied.
    pub fn resolve_collisions(&mut self) -> (r: Option<ScoreChanged>)
        ensures
            final(self)@ == after_hits(old(self)@, notifications(collision_hits(old(self).entities@))),
            r == if final(self).score != old(self).score {
                Some(ScoreChanged { score: final(self).score.0 })
            } else {
                None::<ScoreChanged>
            },
    {
        let hits = check_collisions(&self.entities);
        self.apply_hits(&hits)
    }

    /// Runs the explosions' clocks for `delta_ms` and drops the expired ones.
    pub fn update_temporaries(&mut self, delta_ms: u64)
        ensures
            final(self)@ == (WorldView { temporaries: aged(old(self).temporaries@, delta_ms), ..old(self)@ }),
    {
        let mut kept: Vec<Temporary> = Vec::new();
        let mut k: usize = 0;
        while k < self.temporaries.len()
            invariant
                k <= self.temporaries@.len(),
                kept@ == aged(self.temporaries@.subrange(0, k as int), delta_ms),
            decreases self.temporaries@.len() - k,
        {
            assert(self.temporaries@.subrange(0, k as int + 1).drop_last() =~= self.temporaries@.subrange(0, k as int));
            let t = self.temporaries[k];
            if t.remaining_ms > delta_ms {
                kept.push(Temporary { remaining_ms: t.remaining_ms - delta_ms, ..t });
            }
            k += 1;
        }
        assert(self.temporaries@.subrange(0, k as int) =~= self.temporaries@);
        self.temporaries = kept;
    }

    /// The reaction of a shot or a shield block to a hit: it leaves the store.
    /// An id that is no longer there is ignored.
    pub fn on_hit_destroy(&mut self, id: u64)
        ensures
            final(self)@ == (match find(old(self).entities@, id) {
                Some(i) => WorldView { entities: old(self).entities@.remove(i), ..old(self)@ },
                None => old(self)@,
            }),
    {
        if let Some(i) = self.find(id) {
            self.entities.remove(i);
        }
    }

    /// Applies a hit notification addressed to entity `id`; an id that is no
    /// longer in the store is ignored.
    pub fn on_hit(&mut self, id: u64)
        ensures
            final(self)@ == hit_outcome(old(self)@, id),
    {
        match self.find(id) {
            None => {},
            Some(i) => {
                let e = self.entities[i];
                match e.kind {
                    Kind::PlayerShot | Kind::EnemyShot | Kind::ShieldBlock => {
                        self.on_hit_destroy(id);
                    },
                    Kind::Enemy { cell, points, role } => {
                        self.temporaries.push(
                            Temporary { x: e.transform.x, y: e.transform.y, remaining_ms: EXPLOSION_MS },
                        );
                        self.entities.remove(i);
                        self.score = Score(self.score.0.saturating_add(points.0));
                        if let Role::Shooter = role {
                            self.promote(cell.x);
                        }
                    },
                    Kind::Player => {
                        if self.lives.0 > 0 {
                            self.lives = Lives(self.lives.0 - 1);
                        }
                    },
                    Kind::Wall => {},
                }
            },
        }
    }
}

} // verus!
