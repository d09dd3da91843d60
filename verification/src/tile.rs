//! Tile descriptors and entity tags stored in the layered tile maps.

use vstd::prelude::*;

verus! {

/// The kind of a tile held by one of the three layers of a room.
///
/// `Grass`, `Water`, `Wall`, `Portal` and `Structure` describe terrain;
/// `Player` and `Enemy` mark entity occupancy; the remaining kinds are
/// transient atmosphere markers for effects in flight.
#[derive(Clone, Copy, PartialEq, Eq, Structural, Debug)]
pub enum Tile {
    Grass,
    Water,
    Wall,
    Portal,
    Structure,
    Player,
    Enemy,
    Projectile,
    TrackingProjectile,
    Fire,
    Lightning,
}

/// The tag attached to an entity-layer entry: who occupies the square.
#[derive(Clone, Copy, PartialEq, Eq, Structural, Debug)]
pub enum EntityKind {
    Player,
    Enemy,
    Projectile,
}

/// One entry of the entity layer: the drawn tile and the occupant's tag.
#[derive(Clone, Copy, PartialEq, Eq, Structural, Debug)]
pub struct EntityEntry {
    pub tile: Tile,
    pub kind: EntityKind,
}

/// Whether a tile kind lets movers pass despite occupying the cell.
/// Plain ground is the only permissible occupant.
pub open spec fn is_permissible(t: Tile) -> bool {
    t == Tile::Grass
}

/// Executable form of the permissible-tile allow-list.
pub fn permissible(t: Tile) -> (b: bool)
    ensures
        b == is_permissible(t),
{
    match t {
        Tile::Grass => true,
        _ => false,
    }
}

} // verus!
