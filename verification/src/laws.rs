//! The library's laws: properties that hold of every state and every
//! input, stated over the same spec functions the contracts use.

use vstd::prelude::*;

use crate::actions::accepts;
use crate::gen::{carved_terrain, in_portal_square, in_wall_square, lake_run};
use crate::player::{clamped_energy, InputKey, MAX_PLAYER_ENERGY};
use crate::position::{Direction, Position};
use crate::tile::{is_permissible, Tile};
use crate::world::{in_board, room_wf, step_position, valid_room_coord, World};

verus! {

/// A position appears in at most one of the entity and terrain layers of
/// a room as a hard obstacle: wherever both layers hold the position, the
/// terrain tile beneath the occupant is on the permissible allow-list,
/// and an entity tile itself never is.
pub proof fn lemma_obstacle_exclusivity(w: World, rc: Position, p: Position)
    requires
        w.wf(),
        valid_room_coord(rc),
    ensures
        !(w.room_spec(rc).entity@.contains_key(p) && w.room_spec(rc).terrain@.contains_key(p)
            && !is_permissible(w.room_spec(rc).terrain@[p])),
        w.room_spec(rc).entity@.contains_key(p) ==> !is_permissible(
            w.room_spec(rc).entity@[p].tile,
        ),
{
    assert(room_wf(w.room_spec(rc)));
}

/// Energy after a sequence of clamped deltas has been applied in order.
pub open spec fn energy_after_deltas(e0: int, deltas: Seq<int>) -> int
    decreases deltas.len(),
{
    if deltas.len() == 0 {
        e0
    } else {
        clamped_energy(energy_after_deltas(e0, deltas.drop_last()) + deltas.last())
    }
}

/// For every sequence of energy deltas, the energy counter stays within
/// `0 ..= MAX_PLAYER_ENERGY` after every delta.
pub proof fn lemma_energy_always_clamped(e0: int, deltas: Seq<int>)
    requires
        0 <= e0 <= MAX_PLAYER_ENERGY,
    ensures
        forall|k: int|
            0 <= k <= deltas.len() ==> 0 <= #[trigger] energy_after_deltas(e0, deltas.take(k))
                <= MAX_PLAYER_ENERGY,
    decreases deltas.len(),
{
    if deltas.len() > 0 {
        lemma_energy_always_clamped(e0, deltas.drop_last());
        assert forall|k: int|
            0 <= k <= deltas.len() implies 0 <= #[trigger] energy_after_deltas(e0, deltas.take(k))
            <= MAX_PLAYER_ENERGY by {
            if k < deltas.len() {
                assert(deltas.take(k) =~= deltas.drop_last().take(k));
            } else {
                assert(deltas.take(k) =~= deltas);
            }
        }
    } else {
        assert(deltas.take(0) =~= deltas);
    }
}

/// Movement never leaves the board: the resolver's candidate cell for any
/// origin on the board, any facing and any travel distance lies inside
/// `[board_top_left, board_bottom_right)`.
pub proof fn lemma_movement_stays_on_board(pos: Position, direction: Direction, d: u16)
    requires
        in_board(pos),
    ensures
        in_board(step_position(pos, direction, d)),
{
}

/// Rejection is idempotent: an input whose precondition fails leaves the
/// world exactly as it was — that is the dispatcher's contract — so a
/// second dispatch of the same input sees the same world, fails the same
/// precondition, and leaves the same world again.
pub proof fn lemma_rejection_idempotent(w0: World, w1: World, w2: World, key: InputKey)
    requires
        !accepts(w0, key),
        w1 == w0,
        w2 == w1,
    ensures
        !accepts(w1, key),
        !accepts(w2, key),
        w2 == w0,
{
}

/// Boss-room carving is deterministic: equal terrain in, equal terrain
/// out, on every run.
pub proof fn lemma_carve_deterministic(t1: Map<Position, Tile>, t2: Map<Position, Tile>)
    requires
        t1 == t2,
    ensures
        carved_terrain(t1) == carved_terrain(t2),
{
}

/// The carved wall and portal positions are fixed by the board size
/// alone: whatever terrain was there before, every portal-cluster cell
/// holds a portal, every other wall-square cell holds a wall, and all
/// other cells are untouched.
pub proof fn lemma_carved_positions(t: Map<Position, Tile>, p: Position)
    ensures
        in_portal_square(p) ==> carved_terrain(t).contains_key(p) && carved_terrain(t)[p]
            == Tile::Portal,
        in_wall_square(p) && !in_portal_square(p) ==> carved_terrain(t).contains_key(p)
            && carved_terrain(t)[p] == Tile::Wall,
        !in_wall_square(p) ==> (carved_terrain(t).contains_key(p) <==> t.contains_key(p))
            && (t.contains_key(p) ==> carved_terrain(t)[p] == t[p]),
{
}

/// Lake generation is reproducible: the fill is a function of the prior
/// terrain, the seed cell and the drawn words alone, so equal inputs give
/// the same set of water tiles. The drawn words themselves are produced
/// deterministically by the seeded generator.
pub proof fn lemma_lake_deterministic(
    t1: Map<Position, Tile>,
    t2: Map<Position, Tile>,
    seed1: Position,
    seed2: Position,
    draws1: Seq<u16>,
    draws2: Seq<u16>,
)
    requires
        t1 == t2,
        seed1 == seed2,
        draws1 == draws2,
    ensures
        lake_run(t1, Set::empty().insert(seed1), seq![(seed1, 0u16)], draws1, 0) == lake_run(
            t2,
            Set::empty().insert(seed2),
            seq![(seed2, 0u16)],
            draws2,
            0,
        ),
{
}

} // verus!
