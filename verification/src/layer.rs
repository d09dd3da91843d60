//! One sparse layer of a room: a mapping from `Position` to a stored value,
//! backed by a hash table keyed by an integer encoding of the coordinate.
//!
//! The abstract state of a layer is a `Map<Position, V>`; every operation is
//! specified against that view.

use vstd::prelude::*;
use std::collections::HashMap;

use crate::position::Position;

verus! {

broadcast use vstd::std_specs::hash::group_hash_axioms;

/// The integer key a coordinate is stored under. Injective, because both
/// coordinates are below 65536.
pub closed spec fn pos_key(p: Position) -> u64 {
    (p.x as int * 65536 + p.y as int) as u64
}

proof fn lemma_pos_key_injective(p: Position, q: Position)
    requires
        pos_key(p) == pos_key(q),
    ensures
        p == q,
{
    let x1 = p.x as int;
    let y1 = p.y as int;
    let x2 = q.x as int;
    let y2 = q.y as int;
    assert(0 <= x1 * 65536 + y1 < 0x1_0000_0000) by (nonlinear_arith)
        requires
            0 <= x1 < 65536 && 0 <= y1 < 65536,
    ;
    assert(0 <= x2 * 65536 + y2 < 0x1_0000_0000) by (nonlinear_arith)
        requires
            0 <= x2 < 65536 && 0 <= y2 < 65536,
    ;
    assert((x1 * 65536 + y1 == x2 * 65536 + y2 && 0 <= y1 < 65536 && 0 <= y2 < 65536) ==> (x1 == x2
        && y1 == y2)) by (nonlinear_arith);
}

/// Executable computation of `pos_key`.
fn key_of(p: Position) -> (k: u64)
    ensures
        k == pos_key(p),
{
    p.x as u64 * 65536 + p.y as u64
}

/// A sparse mapping from positions to values: one layer of one room.
pub struct Layer<V> {
    m: HashMap<u64, V>,
}

impl<V> View for Layer<V> {
    type V = Map<Position, V>;

    closed spec fn view(&self) -> Map<Position, V> {
        Map::new(
            |p: Position| self.m@.contains_key(pos_key(p)),
            |p: Position| self.m@[pos_key(p)],
        )
    }
}

impl<V> Layer<V> {
    /// An empty layer.
    pub fn new() -> (l: Layer<V>)
        ensures
            l@ == Map::<Position, V>::empty(),
    {
        let l = Layer { m: HashMap::new() };
        proof {
            assert(l@ =~= Map::<Position, V>::empty());
        }
        l
    }

    /// Whether the layer holds an entry at `p`.
    pub fn contains(&self, p: Position) -> (b: bool)
        ensures
            b == self@.contains_key(p),
    {
        let k = key_of(p);
        self.m.contains_key(&k)
    }

    /// The entry at `p`, if any.
    pub fn get(&self, p: Position) -> (r: Option<&V>)
        ensures
            match r {
                Some(v) => self@.contains_key(p) && *v == self@[p],
                None => !self@.contains_key(p),
            },
    {
        let k = key_of(p);
        self.m.get(&k)
    }

    /// Writes `v` at `p`, replacing any previous entry.
    pub fn insert(&mut self, p: Position, v: V)
        ensures
            final(self)@ == old(self)@.insert(p, v),
    {
        let k = key_of(p);
        self.m.insert(k, v);
        proof {
            assert forall|q: Position| #[trigger]
                self@.contains_key(q) <==> old(self)@.insert(p, v).contains_key(q) by {
                if pos_key(q) == pos_key(p) {
                    lemma_pos_key_injective(q, p);
                }
            }
            assert forall|q: Position| self@.contains_key(q) implies #[trigger] self@[q] == old(
                self,
            )@.insert(p, v)[q] by {
                if pos_key(q) == pos_key(p) {
                    lemma_pos_key_injective(q, p);
                }
            }
            assert(self@ =~= old(self)@.insert(p, v));
        }
    }

    /// The entries of this layer inside the half-open viewport window
    /// `[x0, x0 + w) x [y0, y0 + h)`: each returned pair is held by the
    /// layer, and every held position inside the window is returned.
    #[verifier::loop_isolation(false)]
    pub fn in_window(&self, x0: u16, y0: u16, w: u16, h: u16) -> (r: Vec<(Position, V)>) where
        V: Copy,

        ensures
            forall|i: int|
                0 <= i < r.len() ==> {
                    let p = (#[trigger] r@[i]).0;
                    &&& x0 <= p.x < x0 + w
                    &&& y0 <= p.y < y0 + h
                    &&& self@.contains_key(p)
                    &&& r@[i].1 == self@[p]
                },
            forall|p: Position|
                (x0 <= p.x < x0 + w && y0 <= p.y < y0 + h && #[trigger] self@.contains_key(p))
                    ==> exists|i: int| 0 <= i < r.len() && (#[trigger] r@[i]).0 == p,
            forall|i: int, j: int|
                0 <= i < j < r.len() ==> (#[trigger] r@[i]).0 != (#[trigger] r@[j]).0,
    {
        let mut r: Vec<(Position, V)> = Vec::new();
        let xend: u32 = x0 as u32 + w as u32;
        let yend: u32 = y0 as u32 + h as u32;
        let mut x: u32 = x0 as u32;
        while x < xend && x <= u16::MAX as u32
            invariant
                x0 <= x,
                forall|i: int|
                    0 <= i < r.len() ==> {
                        let p = (#[trigger] r@[i]).0;
                        &&& x0 <= p.x < x0 + w
                        &&& y0 <= p.y < y0 + h
                        &&& self@.contains_key(p)
                        &&& r@[i].1 == self@[p]
                    },
                forall|p: Position|
                    (x0 <= p.x < x && p.x < x0 + w && y0 <= p.y < y0 + h
                        && #[trigger] self@.contains_key(p)) ==> exists|i: int|
                        0 <= i < r.len() && (#[trigger] r@[i]).0 == p,
                forall|i: int| 0 <= i < r.len() ==> (#[trigger] r@[i]).0.x < x,
                forall|i: int, j: int|
                    0 <= i < j < r.len() ==> (#[trigger] r@[i]).0 != (#[trigger] r@[j]).0,
            decreases xend - x,
        {
            let cx = x as u16;
            let mut y: u32 = y0 as u32;
            while y < yend && y <= u16::MAX as u32
                invariant
                    y0 <= y,
                    x == cx,
                    x0 <= x < x0 + w,
                    x <= u16::MAX,
                    forall|i: int|
                        0 <= i < r.len() ==> {
                            let p = (#[trigger] r@[i]).0;
                            &&& x0 <= p.x < x0 + w
                            &&& y0 <= p.y < y0 + h
                            &&& self@.contains_key(p)
                            &&& r@[i].1 == self@[p]
                        },
                    forall|p: Position|
                        ((x0 <= p.x < x || (p.x == cx && y0 <= p.y < y)) && p.x < x0 + w && y0
                            <= p.y < y0 + h && #[trigger] self@.contains_key(p)) ==> exists|i: int|
                            0 <= i < r.len() && (#[trigger] r@[i]).0 == p,
                    forall|i: int|
                        0 <= i < r.len() ==> ((#[trigger] r@[i]).0.x < x || (r@[i].0.x == cx
                            && r@[i].0.y < y)),
                    forall|i: int, j: int|
                        0 <= i < j < r.len() ==> (#[trigger] r@[i]).0 != (#[trigger] r@[j]).0,
                decreases yend - y,
            {
                let ghost r_old = r@;
                let p = Position { x: cx, y: y as u16 };
                if let Some(v) = self.get(p) {
                    let val = *v;
                    r.push((p, val));
                }
                y += 1;
                proof {
                    assert forall|q: Position|
                        ((x0 <= q.x < x || (q.x == cx && y0 <= q.y < y)) && q.x < x0 + w && y0
                            <= q.y < y0 + h && #[trigger] self@.contains_key(q)) implies exists|
                        i: int,
                    |
                        0 <= i < r.len() && (#[trigger] r@[i]).0 == q by {
                        if x0 <= q.x < x || (q.x == cx && y0 <= q.y < y - 1) {
                            let i0 = choose|i: int|
                                0 <= i < r_old.len() && (#[trigger] r_old[i]).0 == q;
                            assert(r@[i0].0 == q);
                        } else {
                            assert(q == p);
                            assert(r@[r@.len() - 1].0 == q);
                        }
                    }
                }
            }
            x += 1;
        }
        r
    }

    /// Deletes the entry at `p`, if any.
    pub fn remove(&mut self, p: Position)
        ensures
            final(self)@ == old(self)@.remove(p),
    {
        let k = key_of(p);
        self.m.remove(&k);
        proof {
            assert forall|q: Position| #[trigger]
                self@.contains_key(q) <==> old(self)@.remove(p).contains_key(q) by {
                if pos_key(q) == pos_key(p) {
                    lemma_pos_key_injective(q, p);
                }
            }
            assert forall|q: Position| self@.contains_key(q) implies #[trigger] self@[q] == old(
                self,
            )@.remove(p)[q] by {
                if pos_key(q) == pos_key(p) {
                    lemma_pos_key_injective(q, p);
                }
            }
            assert(self@ =~= old(self)@.remove(p));
        }
    }
}

} // verus!
