use vstd::prelude::*;
use crate::entity::{is_enemy, Entity, Kind, Role};
use crate::world::{
    best_candidate, cell_of, find, hit_outcome, is_shooter, lemma_find_in_range, promotable,
    promote_in, after_hits, WorldView,
};

verus! {

/// Enemy `i` has the greatest row of the survivors of its column.
pub open spec fn is_column_front(ents: Seq<Entity>, i: int) -> bool {
    forall|j: int|
        0 <= j < ents.len() && #[trigger] is_enemy(ents[j]) && cell_of(ents[j]).x == cell_of(
            ents[i],
        ).x ==> cell_of(ents[j]).y <= cell_of(ents[i]).y
}

/// Each enemy is a shooter exactly when it is the front of its column.
pub open spec fn roles_ok(ents: Seq<Entity>) -> bool {
    forall|i: int|
        0 <= i < ents.len() && #[trigger] is_enemy(ents[i]) ==> (is_shooter(ents[i])
            <==> is_column_front(ents, i))
}

/// No two enemies share a grid cell.
pub open spec fn cells_unique(ents: Seq<Entity>) -> bool {
    forall|i: int, j: int|
        0 <= i < ents.len() && 0 <= j < ents.len() && i != j && #[trigger] is_enemy(ents[i])
            && #[trigger] is_enemy(ents[j]) ==> cell_of(ents[i]) != cell_of(ents[j])
}

/// The formation's standing invariant.
pub open spec fn formation_ok(ents: Seq<Entity>) -> bool {
    cells_unique(ents) && roles_ok(ents)
}

pub(crate) proof fn lemma_best_candidate(ents: Seq<Entity>, col: usize, n: int)
    requires
        0 <= n <= ents.len(),
    ensures
        match best_candidate(ents, col, n) {
            Some(b) => 0 <= b < n && promotable(ents[b], col) && forall|j: int|
                0 <= j < n && #[trigger] promotable(ents[j], col) ==> cell_of(ents[j]).y <= cell_of(
                    ents[b],
                ).y,
            None => forall|j: int| 0 <= j < n ==> !#[trigger] promotable(ents[j], col),
        },
    decreases n,
{
    if n > 0 {
        lemma_best_candidate(ents, col, n - 1);
    }
}

/// Removing a non-enemy, or an enemy that is not its column's shooter, keeps
/// the formation invariant.
proof fn lemma_remove_follower(ents: Seq<Entity>, i: int)
    requires
        formation_ok(ents),
        0 <= i < ents.len(),
        !is_shooter(ents[i]),
    ensures
        formation_ok(ents.remove(i)),
{
    ents.remove_ensures(i);
    let r = ents.remove(i);
    let orig = |k: int| if k < i { k } else { k + 1 };
    assert forall|a: int, b: int|
        0 <= a < r.len() && 0 <= b < r.len() && a != b && #[trigger] is_enemy(r[a])
            && #[trigger] is_enemy(r[b]) implies cell_of(r[a]) != cell_of(r[b]) by {
        assert(r[a] == ents[orig(a)] && r[b] == ents[orig(b)]);
        assert(is_enemy(ents[orig(a)]) && is_enemy(ents[orig(b)]));
    }
    assert forall|a: int| 0 <= a < r.len() && #[trigger] is_enemy(r[a]) implies (is_shooter(r[a])
        <==> is_column_front(r, a)) by {
        let oa = orig(a);
        assert(r[a] == ents[oa]);
        assert(is_enemy(ents[oa]));
        if is_shooter(r[a]) {
            assert(is_column_front(ents, oa));
            assert forall|j: int|
                0 <= j < r.len() && #[trigger] is_enemy(r[j]) && cell_of(r[j]).x == cell_of(
                    r[a],
                ).x implies cell_of(r[j]).y <= cell_of(r[a]).y by {
                assert(r[j] == ents[orig(j)]);
                assert(is_enemy(ents[orig(j)]));
            }
        } else {
            assert(!is_column_front(ents, oa));
            let m = choose|m: int|
                !(0 <= m < ents.len() && #[trigger] is_enemy(ents[m]) && cell_of(ents[m]).x
                    == cell_of(ents[oa]).x ==> cell_of(ents[m]).y <= cell_of(ents[oa]).y);
            if m == i {
                // The removed enemy stood ahead of `a`; what stands ahead of it remains.
                assert(is_enemy(ents[i]));
                assert(!is_column_front(ents, i));
                let m2 = choose|m2: int|
                    !(0 <= m2 < ents.len() && #[trigger] is_enemy(ents[m2]) && cell_of(ents[m2]).x
                        == cell_of(ents[i]).x ==> cell_of(ents[m2]).y <= cell_of(ents[i]).y);
                let rm2 = if m2 < i { m2 } else { m2 - 1 };
                assert(r[rm2] == ents[m2]);
                assert(is_enemy(r[rm2]));
            } else {
                let rm = if m < i { m } else { m - 1 };
                assert(r[rm] == ents[m]);
                assert(is_enemy(r[rm]));
            }
        }
    }
}

/// Removing the shooter of a column and promoting that column's lowest
/// survivor keeps the formation invariant.
proof fn lemma_remove_shooter(ents: Seq<Entity>, i: int)
    requires
        formation_ok(ents),
        0 <= i < ents.len(),
        is_shooter(ents[i]),
    ensures
        formation_ok(promote_in(ents.remove(i), cell_of(ents[i]).x)),
{
    ents.remove_ensures(i);
    let r = ents.remove(i);
    let c = cell_of(ents[i]).x;
    let orig = |k: int| if k < i { k } else { k + 1 };
    assert(is_enemy(ents[i]));
    assert(is_column_front(ents, i));
    assert forall|a: int, b: int|
        0 <= a < r.len() && 0 <= b < r.len() && a != b && #[trigger] is_enemy(r[a])
            && #[trigger] is_enemy(r[b]) implies cell_of(r[a]) != cell_of(r[b]) by {
        assert(r[a] == ents[orig(a)] && r[b] == ents[orig(b)]);
        assert(is_enemy(ents[orig(a)]) && is_enemy(ents[orig(b)]));
    }
    // Every survivor of column `c` stood behind the dead shooter, so none is a shooter.
    assert forall|a: int| 0 <= a < r.len() && #[trigger] is_enemy(r[a]) && cell_of(r[a]).x == c
        implies promotable(r[a], c) by {
        let oa = orig(a);
        assert(r[a] == ents[oa]);
        assert(is_enemy(ents[oa]));
        assert(cell_of(ents[oa]) != cell_of(ents[i]));
        assert(cell_of(ents[oa]).y <= cell_of(ents[i]).y);
        assert(!is_column_front(ents, oa));
    }
    lemma_best_candidate(r, c, r.len() as int);
    let p = promote_in(r, c);
    assert(p.len() == r.len());
    assert forall|a: int| 0 <= a < p.len() implies #[trigger] is_enemy(p[a]) == is_enemy(r[a])
        && cell_of(p[a]) == cell_of(r[a]) && (cell_of(r[a]).x != c ==> p[a] == r[a]) by {}
    assert forall|a: int, b: int|
        0 <= a < p.len() && 0 <= b < p.len() && a != b && #[trigger] is_enemy(p[a])
            && #[trigger] is_enemy(p[b]) implies cell_of(p[a]) != cell_of(p[b]) by {
        assert(is_enemy(r[a]) && is_enemy(r[b]));
    }
    assert forall|a: int| 0 <= a < p.len() && #[trigger] is_enemy(p[a]) implies (is_shooter(p[a])
        <==> is_column_front(p, a)) by {
        assert(is_enemy(r[a]));
        let oa = orig(a);
        assert(r[a] == ents[oa]);
        assert(is_enemy(ents[oa]));
        if cell_of(r[a]).x != c {
            assert(p[a] == r[a]);
            if is_shooter(p[a]) {
                assert(is_column_front(ents, oa));
                assert forall|j: int|
                    0 <= j < p.len() && #[trigger] is_enemy(p[j]) && cell_of(p[j]).x == cell_of(
                        p[a],
                    ).x implies cell_of(p[j]).y <= cell_of(p[a]).y by {
                    assert(is_enemy(r[j]));
                    assert(r[j] == ents[orig(j)]);
                    assert(is_enemy(ents[orig(j)]));
                }
            } else {
                assert(!is_column_front(ents, oa));
                let m = choose|m: int|
                    !(0 <= m < ents.len() && #[trigger] is_enemy(ents[m]) && cell_of(ents[m]).x
                        == cell_of(ents[oa]).x ==> cell_of(ents[m]).y <= cell_of(ents[oa]).y);
                assert(m != i);
                let rm = if m < i { m } else { m - 1 };
                assert(r[rm] == ents[m]);
                assert(is_enemy(r[rm]));
                assert(is_enemy(p[rm]));
            }
        } else {
            assert(promotable(r[a], c));
            let b = best_candidate(r, c, r.len() as int)->0;
            if a == b {
                assert(is_shooter(p[a]));
                assert forall|j: int|
                    0 <= j < p.len() && #[trigger] is_enemy(p[j]) && cell_of(p[j]).x == cell_of(
                        p[a],
                    ).x implies cell_of(p[j]).y <= cell_of(p[a]).y by {
                    assert(is_enemy(r[j]));
                    assert(promotable(r[j], c));
                }
            } else {
                assert(p[a] == r[a]);
                assert(!is_shooter(p[a]));
                assert(promotable(r[b], c));
                assert(is_enemy(r[b]));
                assert(cell_of(r[a]) != cell_of(r[b]));
                assert(is_enemy(p[b]));
            }
        }
    }
}

/// A hit notification, whatever its target, keeps the formation invariant.
pub proof fn lemma_hit_keeps_formation(v: WorldView, id: u64)
    requires
        formation_ok(v.entities),
    ensures
        formation_ok(hit_outcome(v, id).entities),
{
    lemma_find_in_range(v.entities, id, 0);
    if let Some(i) = find(v.entities, id) {
        let e = v.entities[i];
        match e.kind {
            Kind::Enemy { role: Role::Shooter, .. } => lemma_remove_shooter(v.entities, i),
            Kind::Player | Kind::Wall => {},
            _ => lemma_remove_follower(v.entities, i),
        }
    }
}

/// Among the first `n` entities, an enemy of column `col` with the greatest row.
proof fn lemma_column_max(ents: Seq<Entity>, col: usize, n: int, w: int)
    requires
        0 <= w < n <= ents.len(),
        is_enemy(ents[w]),
        cell_of(ents[w]).x == col,
    ensures
        exists|m: int|
            0 <= m < n && #[trigger] is_enemy(ents[m]) && cell_of(ents[m]).x == col && forall|j: int|
                0 <= j < n && #[trigger] is_enemy(ents[j]) && cell_of(ents[j]).x == col
                    ==> cell_of(ents[j]).y <= cell_of(ents[m]).y,
    decreases n,
{
    if w == n - 1 {
        if exists|k: int| 0 <= k < n - 1 && #[trigger] is_enemy(ents[k]) && cell_of(ents[k]).x == col {
            let k = choose|k: int| 0 <= k < n - 1 && #[trigger] is_enemy(ents[k]) && cell_of(ents[k]).x == col;
            lemma_column_max(ents, col, n - 1, k);
            let m = choose|m: int|
                0 <= m < n - 1 && #[trigger] is_enemy(ents[m]) && cell_of(ents[m]).x == col && forall|j: int|
                    0 <= j < n - 1 && #[trigger] is_enemy(ents[j]) && cell_of(ents[j]).x == col
                        ==> cell_of(ents[j]).y <= cell_of(ents[m]).y;
            if cell_of(ents[n - 1]).y > cell_of(ents[m]).y {
                assert forall|j: int|
                    0 <= j < n && #[trigger] is_enemy(ents[j]) && cell_of(ents[j]).x == col
                        implies cell_of(ents[j]).y <= cell_of(ents[n - 1]).y by {
                    if j < n - 1 {
                        assert(cell_of(ents[j]).y <= cell_of(ents[m]).y);
                    }
                }
            } else {
                assert(is_enemy(ents[m]));
            }
        } else {
            assert forall|j: int|
                0 <= j < n && #[trigger] is_enemy(ents[j]) && cell_of(ents[j]).x == col
                    implies cell_of(ents[j]).y <= cell_of(ents[n - 1]).y by {
                if j < n - 1 {
                    assert(false);
                }
            }
        }
    } else {
        lemma_column_max(ents, col, n - 1, w);
        let m = choose|m: int|
            0 <= m < n - 1 && #[trigger] is_enemy(ents[m]) && cell_of(ents[m]).x == col && forall|j: int|
                0 <= j < n - 1 && #[trigger] is_enemy(ents[j]) && cell_of(ents[j]).x == col
                    ==> cell_of(ents[j]).y <= cell_of(ents[m]).y;
        let last_in = is_enemy(ents[n - 1]) && cell_of(ents[n - 1]).x == col;
        if last_in && cell_of(ents[n - 1]).y > cell_of(ents[m]).y {
            assert forall|j: int|
                0 <= j < n && #[trigger] is_enemy(ents[j]) && cell_of(ents[j]).x == col
                    implies cell_of(ents[j]).y <= cell_of(ents[n - 1]).y by {
                if j < n - 1 {
                    assert(cell_of(ents[j]).y <= cell_of(ents[m]).y);
                }
            }
        } else {
            assert(is_enemy(ents[m]));
        }
    }
}

/// In a formation that keeps its invariant, the column of any surviving enemy
/// has exactly one shooter: its survivor with the greatest row.
pub proof fn lemma_one_shooter_per_column(ents: Seq<Entity>, i: int)
    requires
        formation_ok(ents),
        0 <= i < ents.len(),
        is_enemy(ents[i]),
    ensures
        exists|s: int|
            0 <= s < ents.len() && #[trigger] is_enemy(ents[s]) && is_shooter(ents[s]) && cell_of(ents[s]).x
                == cell_of(ents[i]).x && is_column_front(ents, s),
        forall|s: int, t: int|
            0 <= s < ents.len() && 0 <= t < ents.len() && #[trigger] is_shooter(ents[s])
                && #[trigger] is_shooter(ents[t]) && cell_of(ents[s]).x == cell_of(ents[i]).x
                && cell_of(ents[t]).x == cell_of(ents[i]).x ==> s == t,
{
    let col = cell_of(ents[i]).x;
    lemma_column_max(ents, col, ents.len() as int, i);
    let m = choose|m: int|
        0 <= m < ents.len() && #[trigger] is_enemy(ents[m]) && cell_of(ents[m]).x == col && forall|j: int|
            0 <= j < ents.len() && #[trigger] is_enemy(ents[j]) && cell_of(ents[j]).x == col
                ==> cell_of(ents[j]).y <= cell_of(ents[m]).y;
    assert(is_column_front(ents, m));
    assert forall|s: int, t: int|
        0 <= s < ents.len() && 0 <= t < ents.len() && #[trigger] is_shooter(ents[s])
            && #[trigger] is_shooter(ents[t]) && cell_of(ents[s]).x == col && cell_of(ents[t]).x
            == col implies s == t by {
        assert(is_enemy(ents[s]) && is_enemy(ents[t]));
        assert(is_column_front(ents, s) && is_column_front(ents, t));
        assert(cell_of(ents[s]).y <= cell_of(ents[t]).y);
        assert(cell_of(ents[t]).y <= cell_of(ents[s]).y);
    }
}

/// After any sequence of hits, and so of enemy deaths, the formation keeps
/// its invariant: in every column with a survivor exactly one survivor is
/// the shooter, the one with the greatest row.
pub proof fn lemma_shooters_after_hits(v: WorldView, ids: Seq<u64>)
    requires
        formation_ok(v.entities),
    ensures
        formation_ok(after_hits(v, ids).entities),
    decreases ids.len(),
{
    if ids.len() > 0 {
        lemma_shooters_after_hits(v, ids.drop_last());
        lemma_hit_keeps_formation(after_hits(v, ids.drop_last()), ids.last());
    }
}

} // verus!
