//! The procedural generator: deterministic boss-room carving, and
//! randomized lake flood-fill driven by an injected seedable generator.

use vstd::prelude::*;

use rand_chacha::ChaCha8Rng;

use crate::enemy::Enemy;
use crate::layer::Layer;
use crate::player::Player;
use crate::position::Position;
use crate::rng::rand_below;
use crate::tile::{EntityEntry, EntityKind, Tile};
use crate::world::{in_board, room_wf, Room, World, GRID_HEIGHT, GRID_WIDTH};
use crate::{BOARD_HEIGHT, BOARD_WIDTH};

verus! {

/// Number of lakes scattered over one room's board.
pub const TOTAL_LAKES: u16 = 12;

/// Minimum distance of a lake seed from the low board edges.
pub const LAKE_MARGIN: u16 = 5;

/// A lake expands from a cell at depth `d` with probability
/// `(LAKE_SPREAD - d) / LAKE_SPREAD`, clamped at zero: the per-step decay
/// of one fifth.
pub const LAKE_SPREAD: u16 = 5;

/// Random words drawn ahead of one lake's fill; expansion stops when they
/// run out.
pub const LAKE_DRAWS: u16 = 256;

/// Half-open wall region of the boss room: a 12-tile square centered on
/// the board.
pub open spec fn in_wall_square(p: Position) -> bool {
    let c = BOARD_WIDTH as int / 2 - 1;
    c - 5 <= p.x <= c + 6 && c - 5 <= p.y <= c + 6
}

/// The 4-tile portal cluster centered inside the wall square.
pub open spec fn in_portal_square(p: Position) -> bool {
    let c = BOARD_WIDTH as int / 2 - 1;
    c - 1 <= p.x <= c + 2 && c - 1 <= p.y <= c + 2
}

/// The terrain of a boss room after carving: a wall square painted over
/// whatever was there, and the portal cluster painted on top of it.
pub open spec fn carved_terrain(t: Map<Position, Tile>) -> Map<Position, Tile> {
    Map::new(
        |p: Position| t.contains_key(p) || in_wall_square(p),
        |p: Position|
            if in_portal_square(p) {
                Tile::Portal
            } else if in_wall_square(p) {
                Tile::Wall
            } else {
                t[p]
            },
    )
}

/// Wall painting in progress: columns left of `i` are done, and in column
/// `i` the rows below `j`.
spec fn wall_progress(t: Map<Position, Tile>, i: int, j: int) -> Map<Position, Tile> {
    let x0 = BOARD_WIDTH as int / 2 - 6;
    Map::new(
        |p: Position| t.contains_key(p) || (in_wall_square(p) && (p.x - x0 < i || (p.x - x0 == i
            && p.y - x0 < j))),
        |p: Position|
            if in_wall_square(p) && (p.x - x0 < i || (p.x - x0 == i && p.y - x0 < j)) {
                Tile::Wall
            } else {
                t[p]
            },
    )
}

/// Portal painting in progress over the walled terrain `w`.
spec fn portal_progress(w: Map<Position, Tile>, i: int, j: int) -> Map<Position, Tile> {
    let x0 = BOARD_WIDTH as int / 2 - 2;
    Map::new(
        |p: Position| w.contains_key(p),
        |p: Position|
            if in_portal_square(p) && (p.x - x0 < i || (p.x - x0 == i && p.y - x0 < j)) {
                Tile::Portal
            } else {
                w[p]
            },
    )
}

impl World {
    /// Carves the fixed boss room into `room`'s terrain: a square ring of
    /// wall tiles centered on the board, and a smaller centered cluster
    /// of portal tiles on top. No randomness: the wall and portal
    /// positions are the same on every run.
    #[verifier::loop_isolation(false)]
    pub fn gen_boss(room: &mut Room)
        requires
            old(room).entity@ == Map::<Position, crate::tile::EntityEntry>::empty(),
        ensures
            final(room).terrain@ == carved_terrain(old(room).terrain@),
            *final(room) == (Room { terrain: final(room).terrain, ..*old(room) }),
    {
        let ghost t0 = room.terrain@;
        assert(BOARD_WIDTH == 50);
        let x0: u16 = BOARD_WIDTH / 2 - 6;
        let mut i: u16 = 0;
        proof {
            assert(room.terrain@ =~= wall_progress(t0, 0, 0));
        }
        while i < 12
            invariant
                i <= 12,
                room.terrain@ == wall_progress(t0, i as int, 0),
                *room == (Room { terrain: room.terrain, ..*old(room) }),
            decreases 12 - i,
        {
            let mut j: u16 = 0;
            while j < 12
                invariant
                    i < 12,
                    j <= 12,
                    room.terrain@ == wall_progress(t0, i as int, j as int),
                    *room == (Room { terrain: room.terrain, ..*old(room) }),
                decreases 12 - j,
            {
                let loc = Position { x: x0 + i, y: x0 + j };
                room.terrain.insert(loc, Tile::Wall);
                proof {
                    assert(room.terrain@ =~= wall_progress(t0, i as int, j + 1));
                }
                j += 1;
            }
            proof {
                assert(room.terrain@ =~= wall_progress(t0, i + 1, 0));
            }
            i += 1;
        }
        let ghost walled = room.terrain@;
        assert(BOARD_WIDTH == 50);
        let p0: u16 = BOARD_WIDTH / 2 - 2;
        let mut i: u16 = 0;
        proof {
            assert(room.terrain@ =~= portal_progress(walled, 0, 0));
        }
        while i < 4
            invariant
                i <= 4,
                room.terrain@ == portal_progress(walled, i as int, 0),
                walled == wall_progress(t0, 12, 0),
                *room == (Room { terrain: room.terrain, ..*old(room) }),
            decreases 4 - i,
        {
            let mut j: u16 = 0;
            while j < 4
                invariant
                    i < 4,
                    j <= 4,
                    room.terrain@ == portal_progress(walled, i as int, j as int),
                    walled == wall_progress(t0, 12, 0),
                    *room == (Room { terrain: room.terrain, ..*old(room) }),
                decreases 4 - j,
            {
                let loc = Position { x: p0 + i, y: p0 + j };
                room.terrain.insert(loc, Tile::Portal);
                proof {
                    assert(room.terrain@ =~= portal_progress(walled, i as int, j + 1));
                }
                j += 1;
            }
            proof {
                assert(room.terrain@ =~= portal_progress(walled, i + 1, 0));
            }
            i += 1;
        }
        proof {
            assert(room.terrain@ =~= carved_terrain(t0));
        }
    }
}

/// The orthogonal neighbor of `p` in direction `k` (south, north, east,
/// west, in decision order), if it lies on the board.
pub open spec fn neighbor_of(p: Position, k: int) -> Option<Position> {
    if k == 0 {
        if p.y + 1 < BOARD_HEIGHT {
            Some(Position { x: p.x, y: (p.y + 1) as u16 })
        } else {
            None
        }
    } else if k == 1 {
        if p.y >= 1 {
            Some(Position { x: p.x, y: (p.y - 1) as u16 })
        } else {
            None
        }
    } else if k == 2 {
        if p.x + 1 < BOARD_WIDTH {
            Some(Position { x: (p.x + 1) as u16, y: p.y })
        } else {
            None
        }
    } else {
        if p.x >= 1 {
            Some(Position { x: (p.x - 1) as u16, y: p.y })
        } else {
            None
        }
    }
}

/// One cell's remaining expansion decisions, from direction `k` on: each
/// decision consumes one pre-drawn word while any remain; a word below
/// `LAKE_SPREAD - dist` expands into an unvisited on-board neighbor,
/// which is appended to the pushes and marked visited at once. Returns
/// the pushes, the next draw index, and the visited set.
pub open spec fn expand_from(
    p: Position,
    dist: u16,
    vis: Set<Position>,
    draws: Seq<u16>,
    di: int,
    k: int,
) -> (Seq<(Position, u16)>, int, Set<Position>)
    decreases 4 - k,
{
    if k < 0 || k >= 4 || di < 0 || di >= draws.len() {
        (Seq::empty(), di, vis)
    } else {
        let u = draws[di];
        let nbo = neighbor_of(p, k);
        if u + dist < LAKE_SPREAD && nbo is Some && !vis.contains(nbo->Some_0) {
            let nb = nbo->Some_0;
            let rest = expand_from(p, dist, vis.insert(nb), draws, di + 1, k + 1);
            (seq![(nb, (dist + 1) as u16)] + rest.0, rest.1, rest.2)
        } else {
            expand_from(p, dist, vis, draws, di + 1, k + 1)
        }
    }
}

proof fn lemma_expand_from_bounds(
    p: Position,
    dist: u16,
    vis: Set<Position>,
    draws: Seq<u16>,
    di: int,
    k: int,
)
    requires
        0 <= di <= draws.len(),
    ensures
        ({
            let e = expand_from(p, dist, vis, draws, di, k);
            di <= e.1 <= draws.len() && e.0.len() <= e.1 - di
        }),
    decreases 4 - k,
{
    if !(k < 0 || k >= 4 || di >= draws.len()) {
        let u = draws[di];
        let nbo = neighbor_of(p, k);
        if u + dist < LAKE_SPREAD && nbo is Some && !vis.contains(nbo->Some_0) {
            lemma_expand_from_bounds(p, dist, vis.insert(nbo->Some_0), draws, di + 1, k + 1);
        } else {
            lemma_expand_from_bounds(p, dist, vis, draws, di + 1, k + 1);
        }
    }
}

/// The terrain after one lake's randomized flood-fill runs to
/// completion: the frontier is processed last-in first-out, each popped
/// cell not already claimed by terrain becomes water, and each cell's
/// four expansion decisions consume the pre-drawn words.
pub open spec fn lake_run(
    t: Map<Position, Tile>,
    vis: Set<Position>,
    stack: Seq<(Position, u16)>,
    draws: Seq<u16>,
    di: int,
) -> Map<Position, Tile>
    decreases 5 * (draws.len() - di) + stack.len(),
        when 0 <= di <= draws.len()
    via lake_run_decreases
{
    if stack.len() == 0 {
        t
    } else {
        let top = stack.last();
        let t1 = if t.contains_key(top.0) {
            t
        } else {
            t.insert(top.0, Tile::Water)
        };
        let e = expand_from(top.0, top.1, vis, draws, di, 0);
        lake_run(t1, e.2, stack.drop_last() + e.0, draws, e.1)
    }
}

#[via_fn]
proof fn lake_run_decreases(
    t: Map<Position, Tile>,
    vis: Set<Position>,
    stack: Seq<(Position, u16)>,
    draws: Seq<u16>,
    di: int,
) {
    if stack.len() > 0 {
        lemma_expand_from_bounds(stack.last().0, stack.last().1, vis, draws, di, 0);
    }
}

/// A lake fill only adds entries, and everything it adds is water.
pub proof fn lemma_lake_run_water(
    t: Map<Position, Tile>,
    vis: Set<Position>,
    stack: Seq<(Position, u16)>,
    draws: Seq<u16>,
    di: int,
)
    requires
        0 <= di <= draws.len(),
    ensures
        forall|p: Position| #[trigger]
            t.contains_key(p) ==> lake_run(t, vis, stack, draws, di).contains_key(p) && lake_run(
                t,
                vis,
                stack,
                draws,
                di,
            )[p] == t[p],
        forall|p: Position| #[trigger]
            lake_run(t, vis, stack, draws, di).contains_key(p) ==> t.contains_key(p) || lake_run(
                t,
                vis,
                stack,
                draws,
                di,
            )[p] == Tile::Water,
    decreases 5 * (draws.len() - di) + stack.len(),
{
    if stack.len() > 0 {
        let top = stack.last();
        let t1 = if t.contains_key(top.0) {
            t
        } else {
            t.insert(top.0, Tile::Water)
        };
        let e = expand_from(top.0, top.1, vis, draws, di, 0);
        lemma_expand_from_bounds(top.0, top.1, vis, draws, di, 0);
        lemma_lake_run_water(t1, e.2, stack.drop_last() + e.0, draws, e.1);
        assert forall|p: Position| #[trigger]
            t.contains_key(p) implies lake_run(t, vis, stack, draws, di).contains_key(p)
            && lake_run(t, vis, stack, draws, di)[p] == t[p] by {
            assert(t1.contains_key(p));
            assert(t1[p] == t[p]);
        }
    }
}

/// Taxicab distance between two cells.
pub open spec fn manhattan(a: Position, b: Position) -> int {
    (if a.x >= b.x {
        a.x - b.x
    } else {
        b.x - a.x
    }) + (if a.y >= b.y {
        a.y - b.y
    } else {
        b.y - a.y
    })
}

proof fn lemma_expand_from_near(
    p: Position,
    dist: u16,
    vis: Set<Position>,
    draws: Seq<u16>,
    di: int,
    k: int,
)
    requires
        0 <= di <= draws.len(),
    ensures
        ({
            let e = expand_from(p, dist, vis, draws, di, k);
            forall|idx: int|
                0 <= idx < e.0.len() ==> manhattan((#[trigger] e.0[idx]).0, p) <= 1 && e.0[idx].1
                    == dist + 1 && dist + 1 <= LAKE_SPREAD
        }),
    decreases 4 - k,
{
    let e = expand_from(p, dist, vis, draws, di, k);
    if k < 0 || k >= 4 || di >= draws.len() {
        assert(e.0 =~= Seq::<(Position, u16)>::empty());
    } else {
        let u = draws[di];
        let nbo = neighbor_of(p, k);
        if u + dist < LAKE_SPREAD && nbo is Some && !vis.contains(nbo->Some_0) {
            let nb = nbo->Some_0;
            lemma_expand_from_near(p, dist, vis.insert(nb), draws, di + 1, k + 1);
            let rest = expand_from(p, dist, vis.insert(nb), draws, di + 1, k + 1);
            let out = seq![(nb, (dist + 1) as u16)] + rest.0;
            assert(e.0 == out);
            assert forall|idx: int|
                0 <= idx < e.0.len() implies manhattan((#[trigger] e.0[idx]).0, p) <= 1
                && e.0[idx].1 == dist + 1 && dist + 1 <= LAKE_SPREAD by {
                if idx == 0 {
                    assert(out[0] == (nb, (dist + 1) as u16));
                    assert(manhattan(nb, p) <= 1);
                } else {
                    assert(out[idx] == rest.0[idx - 1]);
                }
            }
        } else {
            lemma_expand_from_near(p, dist, vis, draws, di + 1, k + 1);
            assert(e == expand_from(p, dist, vis, draws, di + 1, k + 1));
        }
    }
}

/// Locality of a lake fill: every cell it claims lies within
/// `LAKE_SPREAD` taxicab steps of the seed, because expansion pushes only
/// adjacent cells and stops at that depth.
pub proof fn lemma_lake_run_local(
    t: Map<Position, Tile>,
    vis: Set<Position>,
    stack: Seq<(Position, u16)>,
    draws: Seq<u16>,
    di: int,
    seed: Position,
)
    requires
        0 <= di <= draws.len(),
        forall|s: int|
            0 <= s < stack.len() ==> manhattan((#[trigger] stack[s]).0, seed) <= stack[s].1
                && stack[s].1 <= LAKE_SPREAD,
    ensures
        forall|q: Position| #[trigger]
            lake_run(t, vis, stack, draws, di).contains_key(q) ==> t.contains_key(q) || manhattan(
                q,
                seed,
            ) <= LAKE_SPREAD,
    decreases 5 * (draws.len() - di) + stack.len(),
{
    if stack.len() > 0 {
        let top = stack.last();
        let t1 = if t.contains_key(top.0) {
            t
        } else {
            t.insert(top.0, Tile::Water)
        };
        let e = expand_from(top.0, top.1, vis, draws, di, 0);
        lemma_expand_from_bounds(top.0, top.1, vis, draws, di, 0);
        lemma_expand_from_near(top.0, top.1, vis, draws, di, 0);
        let rest = stack.drop_last() + e.0;
        assert forall|s: int|
            0 <= s < rest.len() implies manhattan((#[trigger] rest[s]).0, seed) <= rest[s].1
            && rest[s].1 <= LAKE_SPREAD by {
            if s < stack.len() - 1 {
                assert(rest[s] == stack[s]);
            } else {
                let idx = s - (stack.len() - 1);
                assert(rest[s] == e.0[idx]);
                assert(manhattan(e.0[idx].0, top.0) <= 1);
                assert(manhattan(top.0, seed) <= top.1);
            }
        }
        lemma_lake_run_local(t1, e.2, rest, draws, e.1, seed);
        assert forall|q: Position| #[trigger]
            lake_run(t, vis, stack, draws, di).contains_key(q) implies t.contains_key(q)
            || manhattan(q, seed) <= LAKE_SPREAD by {
            if !t.contains_key(q) {
                assert(lake_run(t1, e.2, rest, draws, e.1).contains_key(q));
                if !t1.contains_key(q) {
                } else {
                    assert(q == top.0 || t.contains_key(q));
                }
            }
        }
    }
}

/// Whether a lake seed keeps the margin from the low board edges.
pub open spec fn in_lake_margin(seed: Position) -> bool {
    LAKE_MARGIN <= seed.x < BOARD_WIDTH && LAKE_MARGIN <= seed.y < BOARD_HEIGHT
}

/// The terrain after `n` lakes were scattered over `t0`, in order: each
/// from a margin-keeping seed, filled by `LAKE_DRAWS` drawn words all
/// below `LAKE_SPREAD`, through the exact fill function `lake_run`.
pub open spec fn lakes_added(t0: Map<Position, Tile>, t1: Map<Position, Tile>, n: int) -> bool
    decreases n,
{
    if n <= 0 {
        t1 == t0
    } else {
        exists|seed: Position, draws: Seq<u16>, tm: Map<Position, Tile>|
            #![trigger lake_run(tm, Set::empty().insert(seed), seq![(seed, 0u16)], draws, 0)]
            {
                &&& lakes_added(t0, tm, n - 1)
                &&& in_lake_margin(seed)
                &&& draws.len() == LAKE_DRAWS
                &&& (forall|i: int| 0 <= i < draws.len() ==> #[trigger] draws[i] < LAKE_SPREAD)
                &&& t1 == lake_run(tm, Set::empty().insert(seed), seq![(seed, 0u16)], draws, 0)
            }
    }
}

/// Executable computation of `neighbor_of`.
fn neighbor_dir(p: Position, k: u16) -> (r: Option<Position>)
    ensures
        r == neighbor_of(p, k as int),
{
    if k == 0 {
        if (p.y as u32) + 1 < BOARD_HEIGHT as u32 {
            Some(Position { x: p.x, y: p.y + 1 })
        } else {
            None
        }
    } else if k == 1 {
        if p.y >= 1 {
            Some(Position { x: p.x, y: p.y - 1 })
        } else {
            None
        }
    } else if k == 2 {
        if (p.x as u32) + 1 < BOARD_WIDTH as u32 {
            Some(Position { x: p.x + 1, y: p.y })
        } else {
            None
        }
    } else {
        if p.x >= 1 {
            Some(Position { x: p.x - 1, y: p.y })
        } else {
            None
        }
    }
}

impl World {
    /// One lake's flood-fill from `seed`, deciding each expansion by the
    /// next pre-drawn word; iterative, with an explicit frontier stack
    /// and a visited check, so recursion depth never threatens the call
    /// stack. The result is a function of the prior terrain, the seed and
    /// the drawn words alone.
    #[verifier::loop_isolation(false)]
    pub fn gen_lake_helper(terrain: &mut Layer<Tile>, seed: Position, draws: &Vec<u16>)
        ensures
            final(terrain)@ == lake_run(
                old(terrain)@,
                Set::empty().insert(seed),
                seq![(seed, 0u16)],
                draws@,
                0,
            ),
    {
        let ghost t0 = terrain@;
        let mut visited: Layer<bool> = Layer::new();
        visited.insert(seed, true);
        let mut stack: Vec<(Position, u16)> = Vec::new();
        stack.push((seed, 0));
        let mut di: usize = 0;
        proof {
            assert(visited@.dom() =~= Set::empty().insert(seed));
        }
        while stack.len() > 0
            invariant
                di <= draws.len(),
                lake_run(t0, Set::empty().insert(seed), seq![(seed, 0u16)], draws@, 0) == lake_run(
                    terrain@,
                    visited@.dom(),
                    stack@,
                    draws@,
                    di as int,
                ),
            decreases 5 * (draws@.len() - di) + stack@.len(),
        {
            let ghost t_pre = terrain@;
            let ghost vis_pre = visited@.dom();
            let ghost stack_pre = stack@;
            let ghost di_pre = di as int;
            let top = stack.pop().unwrap();
            let p = top.0;
            let dist = top.1;
            if !terrain.contains(p) {
                terrain.insert(p, Tile::Water);
            }
            let ghost t_claimed = terrain@;
            let ghost tgt = expand_from(p, dist, vis_pre, draws@, di_pre, 0);
            let base_len = stack.len();
            let mut k: u16 = 0;
            while k < 4
                invariant
                    k <= 4,
                    di <= draws.len(),
                    base_len == stack_pre.len() - 1,
                    terrain@ == t_claimed,
                    stack@.len() >= base_len,
                    stack@.take(base_len as int) == stack_pre.drop_last(),
                    di_pre <= di as int,
                    stack@.len() - base_len <= di - di_pre,
                    tgt.0 == stack@.skip(base_len as int) + expand_from(
                        p,
                        dist,
                        visited@.dom(),
                        draws@,
                        di as int,
                        k as int,
                    ).0,
                    tgt.1 == expand_from(
                        p,
                        dist,
                        visited@.dom(),
                        draws@,
                        di as int,
                        k as int,
                    ).1,
                    tgt.2 == expand_from(
                        p,
                        dist,
                        visited@.dom(),
                        draws@,
                        di as int,
                        k as int,
                    ).2,
                decreases 4 - k,
            {
                let ghost vis_k = visited@.dom();
                let ghost di_k = di as int;
                let ghost stack_k = stack@;
                if di < draws.len() {
                    let u = draws[di];
                    di += 1;
                    if (u as u32) + (dist as u32) < LAKE_SPREAD as u32 {
                        if let Some(nb) = neighbor_dir(p, k) {
                            if !visited.contains(nb) {
                                visited.insert(nb, true);
                                stack.push((nb, dist + 1));
                                proof {
                                    assert(visited@.dom() =~= vis_k.insert(nb));
                                    assert(stack@.take(base_len as int)
                                        =~= stack_k.take(base_len as int));
                                    assert(stack@.skip(base_len as int) =~= stack_k.skip(
                                        base_len as int,
                                    ) + seq![(nb, (dist + 1) as u16)]);
                                    assert(expand_from(p, dist, vis_k, draws@, di_k, k as int) == (
                                    seq![(nb, (dist + 1) as u16)] + expand_from(
                                        p,
                                        dist,
                                        vis_k.insert(nb),
                                        draws@,
                                        di_k + 1,
                                        k + 1,
                                    ).0,
                                    expand_from(
                                        p,
                                        dist,
                                        vis_k.insert(nb),
                                        draws@,
                                        di_k + 1,
                                        k + 1,
                                    ).1,
                                    expand_from(
                                        p,
                                        dist,
                                        vis_k.insert(nb),
                                        draws@,
                                        di_k + 1,
                                        k + 1,
                                    ).2,
                                    ));
                                    assert(tgt.0 =~= stack@.skip(base_len as int) + expand_from(
                                        p,
                                        dist,
                                        visited@.dom(),
                                        draws@,
                                        di as int,
                                        k + 1,
                                    ).0);
                                }
                            }
                        }
                    }
                }
                k += 1;
            }
            proof {
                assert(stack@ =~= stack_pre.drop_last() + stack@.skip(base_len as int));
                assert(expand_from(p, dist, visited@.dom(), draws@, di as int, 4).0
                    =~= Seq::<(Position, u16)>::empty());
                assert(tgt.0 =~= stack@.skip(base_len as int));
                assert(stack_pre.last() == (p, dist));
                assert(lake_run(t_pre, vis_pre, stack_pre, draws@, di_pre) == lake_run(
                    t_claimed,
                    tgt.2,
                    stack_pre.drop_last() + tgt.0,
                    draws@,
                    tgt.1,
                ));
                assert(stack@ =~= stack_pre.drop_last() + tgt.0);
            }
        }
        proof {
            assert(lake_run(terrain@, visited@.dom(), stack@, draws@, di as int) == terrain@);
        }
    }

    /// Scatters `TOTAL_LAKES` randomized lakes over `room`'s terrain.
    /// Each lake seeds at a drawn coordinate at least `LAKE_MARGIN` from
    /// the low board edges and flood-fills with freshly drawn words.
    /// Whatever the draws: the terrain is exactly `TOTAL_LAKES` fills
    /// from margin-keeping seeds (`lakes_added`), existing terrain is
    /// never overwritten, everything added is water, and no water lands
    /// nearer the origin than the margin minus the spread allows.
    #[verifier::loop_isolation(false)]
    pub fn gen_water(room: &mut Room, rng: &mut ChaCha8Rng)
        ensures
            *final(room) == (Room { terrain: final(room).terrain, ..*old(room) }),
            lakes_added(old(room).terrain@, final(room).terrain@, TOTAL_LAKES as int),
            forall|p: Position| #[trigger]
                old(room).terrain@.contains_key(p) ==> final(room).terrain@.contains_key(p)
                    && final(room).terrain@[p] == old(room).terrain@[p],
            forall|p: Position| #[trigger]
                final(room).terrain@.contains_key(p) ==> old(room).terrain@.contains_key(p)
                    || final(room).terrain@[p] == Tile::Water,
            forall|p: Position| #[trigger]
                final(room).terrain@.contains_key(p) ==> old(room).terrain@.contains_key(p)
                    || p.x + p.y >= LAKE_MARGIN + LAKE_MARGIN - LAKE_SPREAD,
    {
        let mut lakes_done: u16 = 0;
        while lakes_done < TOTAL_LAKES
            invariant
                lakes_done <= TOTAL_LAKES,
                *room == (Room { terrain: room.terrain, ..*old(room) }),
                lakes_added(old(room).terrain@, room.terrain@, lakes_done as int),
                forall|p: Position| #[trigger]
                    old(room).terrain@.contains_key(p) ==> room.terrain@.contains_key(p)
                        && room.terrain@[p] == old(room).terrain@[p],
                forall|p: Position| #[trigger]
                    room.terrain@.contains_key(p) ==> old(room).terrain@.contains_key(p)
                        || room.terrain@[p] == Tile::Water,
                forall|p: Position| #[trigger]
                    room.terrain@.contains_key(p) ==> old(room).terrain@.contains_key(p) || p.x
                        + p.y >= LAKE_MARGIN + LAKE_MARGIN - LAKE_SPREAD,
            decreases TOTAL_LAKES - lakes_done,
        {
            let ghost t_before = room.terrain@;
            let x = LAKE_MARGIN + rand_below(rng, BOARD_WIDTH - LAKE_MARGIN);
            let y = LAKE_MARGIN + rand_below(rng, BOARD_HEIGHT - LAKE_MARGIN);
            let mut draws: Vec<u16> = Vec::new();
            let mut d: u16 = 0;
            while d < LAKE_DRAWS
                invariant
                    draws@.len() == d,
                    d <= LAKE_DRAWS,
                    forall|i: int| 0 <= i < draws@.len() ==> #[trigger] draws@[i] < LAKE_SPREAD,
                decreases LAKE_DRAWS - d,
            {
                let w = rand_below(rng, LAKE_SPREAD);
                draws.push(w);
                d += 1;
            }
            let seed = Position { x, y };
            World::gen_lake_helper(&mut room.terrain, seed, &draws);
            proof {
                lemma_lake_run_water(
                    t_before,
                    Set::empty().insert(seed),
                    seq![(seed, 0u16)],
                    draws@,
                    0,
                );
                assert(seq![(seed, 0u16)][0] == (seed, 0u16));
                lemma_lake_run_local(
                    t_before,
                    Set::empty().insert(seed),
                    seq![(seed, 0u16)],
                    draws@,
                    0,
                    seed,
                );
                assert(in_lake_margin(seed));
                assert(lakes_added(old(room).terrain@, room.terrain@, lakes_done + 1));
            }
            lakes_done += 1;
        }
    }
}

/// Enemies spawned into a room at world-build time.
pub const ENEMY_COUNT: u16 = 10;

/// Attempts at drawing a free cell before one enemy spawn is given up.
pub const SPAWN_ATTEMPTS: u16 = 100;

/// How enemy spawning leaves a room: terrain and atmosphere untouched,
/// prior entity entries and registry entries kept, and everything added
/// consistent — each appended enemy is a single-cell live enemy of room
/// `rc` on a terrain-free board cell, paired one-to-one with its own
/// enemy entity-layer entry, on cells all distinct from one another.
pub open spec fn spawned_enemies(cur: Room, orig: Room, rc: Position) -> bool {
    &&& cur.terrain == orig.terrain
    &&& cur.atmosphere == orig.atmosphere
    &&& forall|p: Position| #[trigger]
        orig.entity@.contains_key(p) ==> cur.entity@.contains_key(p) && cur.entity@[p]
            == orig.entity@[p]
    &&& forall|p: Position| #[trigger]
        cur.entity@.contains_key(p) ==> orig.entity@.contains_key(p) || (cur.entity@[p]
            == (EntityEntry { tile: Tile::Enemy, kind: EntityKind::Enemy })
            && !cur.terrain@.contains_key(p) && in_board(p))
    &&& cur.enemies@.len() >= orig.enemies@.len()
    &&& cur.enemies@.take(orig.enemies@.len() as int) == orig.enemies@
    &&& forall|j: int|
        orig.enemies@.len() <= j < cur.enemies@.len() ==> {
            let e = #[trigger] cur.enemies@[j];
            &&& e.pos@.len() == 1
            &&& in_board(e.pos@[0])
            &&& e.health == crate::enemy::ENEMY_HEALTH
            &&& e.world_pos == rc
            &&& cur.entity@.contains_key(e.pos@[0])
            &&& cur.entity@[e.pos@[0]] == (EntityEntry {
                tile: Tile::Enemy,
                kind: EntityKind::Enemy,
            })
        }
    &&& forall|j1: int, j2: int|
        orig.enemies@.len() <= j1 < j2 < cur.enemies@.len() ==> (#[trigger]
        cur.enemies@[j1]).pos@[0] != (#[trigger] cur.enemies@[j2]).pos@[0]
}

impl World {
    /// Spawns up to `ENEMY_COUNT` single-cell enemies into `room` (to be
    /// addressed as room `rc`), each at a drawn board cell free of
    /// terrain and entities; a spawn whose draws never hit a free cell
    /// is skipped.
    #[verifier::loop_isolation(false)]
    pub fn gen_enemies(room: &mut Room, rc: Position, rng: &mut ChaCha8Rng)
        ensures
            spawned_enemies(*final(room), *old(room), rc),
            final(room).enemies@.len() <= old(room).enemies@.len() + ENEMY_COUNT,
    {
        let mut spawned: u16 = 0;
        proof {
            assert(room.enemies@.take(old(room).enemies@.len() as int) =~= old(room).enemies@);
        }
        while spawned < ENEMY_COUNT
            invariant
                spawned_enemies(*room, *old(room), rc),
                spawned <= ENEMY_COUNT,
                room.enemies@.len() <= old(room).enemies@.len() + spawned,
            decreases ENEMY_COUNT - spawned,
        {
            let mut attempts: u16 = 0;
            let mut placed = false;
            while attempts < SPAWN_ATTEMPTS && !placed
                invariant
                    spawned_enemies(*room, *old(room), rc),
                    room.enemies@.len() <= old(room).enemies@.len() + spawned + (if placed {
                        1int
                    } else {
                        0int
                    }),
                decreases SPAWN_ATTEMPTS - attempts,
            {
                let x = rand_below(rng, BOARD_WIDTH);
                let y = rand_below(rng, BOARD_HEIGHT);
                let cell = Position { x, y };
                if !room.terrain.contains(cell) && !room.entity.contains(cell) {
                    room.entity.insert(
                        cell,
                        EntityEntry { tile: Tile::Enemy, kind: EntityKind::Enemy },
                    );
                    let enemy = Enemy::new(x, y, 1, rc);
                    room.enemies.push(enemy);
                    placed = true;
                    proof {
                        assert(room.enemies@.take(old(room).enemies@.len() as int)
                            =~= old(room).enemies@);
                        assert(spawned_enemies(*room, *old(room), rc));
                    }
                }
                attempts += 1;
            }
            spawned += 1;
        }
    }

    /// Builds the whole world: a full grid of rooms with lakes, the boss
    /// room carved at its fixed coordinate, the player placed at the
    /// origin of the starting room, and that room populated with enemies.
    /// The contract states the assembly: every room's terrain is the
    /// `TOTAL_LAKES` fills (the boss room's additionally carved), the
    /// player's entity-layer entry stands at the origin — no lake can
    /// reach it from a margin-keeping seed — and the starting room's
    /// enemies satisfy the spawn characterization; all other rooms are
    /// empty of entities and enemies.
    #[verifier::loop_isolation(false)]
    pub fn new(rng: &mut ChaCha8Rng) -> (w: World)
        ensures
            w.wf(),
            w.world_position == (Position { x: 0, y: 0 }),
            w.x_offset == 0,
            w.y_offset == 0,
            w.boss is None,
            w.projectiles@.len() == 0,
            w.player.pos == (Position { x: 0, y: 0 }),
            w.player.direction == crate::position::Direction::South,
            w.player.health == crate::player::MAX_PLAYER_HEALTH,
            w.player.energy == crate::player::PLAYER_INITIAL_ENERGY,
            w.player.alive,
            w.player.stun_timer == 0,
            w.player.queued_position is None,
            w.active_room_spec().entity@.contains_key(Position { x: 0, y: 0 }),
            w.active_room_spec().entity@[Position { x: 0, y: 0 }] == (EntityEntry {
                tile: Tile::Player,
                kind: EntityKind::Player,
            }),
            w.active_room_spec().enemies@.len() <= ENEMY_COUNT,
            forall|j: int|
                0 <= j < w.active_room_spec().enemies@.len() ==> {
                    let e = #[trigger] w.active_room_spec().enemies@[j];
                    &&& e.pos@.len() == 1
                    &&& in_board(e.pos@[0])
                    &&& e.health == crate::enemy::ENEMY_HEALTH
                    &&& e.world_pos == (Position { x: 0, y: 0 })
                    &&& w.active_room_spec().entity@.contains_key(e.pos@[0])
                    &&& w.active_room_spec().entity@[e.pos@[0]] == (EntityEntry {
                        tile: Tile::Enemy,
                        kind: EntityKind::Enemy,
                    })
                },
            forall|j1: int, j2: int|
                0 <= j1 < j2 < w.active_room_spec().enemies@.len() ==> (#[trigger]
                w.active_room_spec().enemies@[j1]).pos@[0] != (#[trigger]
                w.active_room_spec().enemies@[j2]).pos@[0],
            forall|i: int|
                0 < i < w.rooms@.len() ==> (#[trigger] w.rooms@[i]).entity@ == Map::<
                    Position,
                    EntityEntry,
                >::empty() && w.rooms@[i].enemies@.len() == 0,
            forall|i: int|
                0 <= i < w.rooms@.len() ==> (#[trigger] w.rooms@[i]).atmosphere@ == Map::<
                    Position,
                    Tile,
                >::empty(),
            forall|i: int|
                0 <= i < w.rooms@.len() && i != BOSS_INDEX ==> lakes_added(
                    Map::<Position, Tile>::empty(),
                    (#[trigger] w.rooms@[i]).terrain@,
                    TOTAL_LAKES as int,
                ),
            exists|tb: Map<Position, Tile>|
                #![trigger carved_terrain(tb)]
                lakes_added(Map::<Position, Tile>::empty(), tb, TOTAL_LAKES as int)
                    && w.rooms@[BOSS_INDEX as int].terrain@ == carved_terrain(tb),
    {
        let mut rooms: Vec<Room> = Vec::new();
        let mut r: u16 = 0;
        let boss_index: u16 = BOSS_INDEX;
        while r < GRID_WIDTH * GRID_HEIGHT
            invariant
                rooms.len() == r,
                r <= GRID_WIDTH * GRID_HEIGHT,
                boss_index == BOSS_INDEX,
                forall|i: int|
                    0 <= i < rooms.len() ==> room_wf(#[trigger] rooms@[i]) && (#[trigger]
                    rooms@[i]).entity@ == Map::<Position, EntityEntry>::empty() && rooms@[i].enemies@.len()
                        == 0 && rooms@[i].atmosphere@ == Map::<Position, Tile>::empty(),
                forall|i: int|
                    0 <= i < rooms.len() && i != BOSS_INDEX ==> lakes_added(
                        Map::<Position, Tile>::empty(),
                        (#[trigger] rooms@[i]).terrain@,
                        TOTAL_LAKES as int,
                    ),
                r > BOSS_INDEX ==> exists|tb: Map<Position, Tile>|
                    #![trigger carved_terrain(tb)]
                    lakes_added(Map::<Position, Tile>::empty(), tb, TOTAL_LAKES as int)
                        && rooms@[BOSS_INDEX as int].terrain@ == carved_terrain(tb),
                forall|i: int, p: Position|
                    0 <= i < rooms.len() && #[trigger] rooms@[i].terrain@.contains_key(p) ==> p.x
                        + p.y >= LAKE_MARGIN + LAKE_MARGIN - LAKE_SPREAD,
            decreases GRID_WIDTH * GRID_HEIGHT - r,
        {
            let mut room = Room {
                terrain: Layer::new(),
                entity: Layer::new(),
                atmosphere: Layer::new(),
                enemies: Vec::new(),
            };
            World::gen_water(&mut room, rng);
            if r == boss_index {
                let ghost watered = room.terrain@;
                World::gen_boss(&mut room);
                proof {
                    assert(carved_terrain(watered) == room.terrain@);
                    assert forall|p: Position| #[trigger]
                        room.terrain@.contains_key(p) implies p.x + p.y >= LAKE_MARGIN
                        + LAKE_MARGIN - LAKE_SPREAD by {
                        if !watered.contains_key(p) {
                            assert(in_wall_square(p));
                        }
                    }
                }
            }
            rooms.push(room);
            r += 1;
        }
        let start = Position { x: 0, y: 0 };
        let player = Player::new();
        let origin_free = !rooms[0].terrain.contains(start);
        proof {
            assert(origin_free);
        }
        if origin_free {
            let room0 = &mut rooms[0];
            room0.entity.insert(
                start,
                EntityEntry { tile: Tile::Player, kind: EntityKind::Player },
            );
        }
        let ghost room0_pre = rooms@[0];
        let room0 = &mut rooms[0];
        World::gen_enemies(room0, start, rng);
        proof {
            assert(room0_pre.entity@.contains_key(start));
            assert(rooms@[0].entity@.contains_key(start));
            assert(rooms@[0].entity@[start] == (EntityEntry {
                tile: Tile::Player,
                kind: EntityKind::Player,
            }));
        }
        let w = World {
            rooms,
            world_position: start,
            x_offset: 0,
            y_offset: 0,
            player,
            projectiles: Vec::new(),
            boss: None,
        };
        proof {
            assert forall|i: int| 0 <= i < w.rooms.len() implies room_wf(#[trigger] w.rooms@[i]) by {
            }
        }
        w
    }
}

/// Row-major index of the boss room in the room vector.
pub const BOSS_INDEX: u16 = 24;

} // verus!
