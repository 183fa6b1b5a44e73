//! Dealing random tiles for a board.

use vstd::prelude::*;
use rand::Rng;
use crate::tile::{Resource, Tile, RESOURCE_COUNT};

verus! {

/// Relies on `rand::Rng::gen_range` over the thread's generator: a value drawn from
/// `lo..hi`, which it requires to be non-empty.
#[verifier::external_body]
fn random_in(lo: u8, hi: u8) -> (r: u8)
    requires
        lo < hi,
    ensures
        lo <= r < hi,
{
    rand::thread_rng().gen_range(lo..hi)
}

/// A roll taken from a draw in `2..12`: draws from seven up step over seven, which
/// the robber holds, so the rolls run over two to twelve but seven.
pub fn roll_from_draw(d: u8) -> (r: u8)
    requires
        2 <= d < 12,
    ensures
        r == if d > 6 { d + 1 } else { d as int },
        2 <= r <= 12,
        r != 7,
{
    if d > 6 { d + 1 } else { d }
}

/// A tile with a random roll from two to twelve but seven, and a random resource.
pub fn random_tile() -> (t: Tile)
    ensures
        t.wf(),
        2 <= t.roll <= 12,
        t.roll != 7,
{
    let roll = roll_from_draw(random_in(2, 12));
    let resource = Resource::from_index(random_in(0, RESOURCE_COUNT));
    Tile::new(roll, resource)
}

/// `n` random tiles.
pub fn random_tiles(n: usize) -> (tiles: Vec<Tile>)
    ensures
        tiles@.len() == n,
        forall|k: int| 0 <= k < n ==> {
            &&& (#[trigger] tiles@[k]).wf()
            &&& 2 <= tiles@[k].roll <= 12
            &&& tiles@[k].roll != 7
        },
{
    let mut tiles: Vec<Tile> = Vec::with_capacity(n);
    let mut i: usize = 0;
    while i < n
        invariant
            i <= n,
            tiles@.len() == i,
            forall|k: int| 0 <= k < i ==> {
                &&& (#[trigger] tiles@[k]).wf()
                &&& 2 <= tiles@[k].roll <= 12
                &&& tiles@[k].roll != 7
            },
        decreases n - i,
    {
        tiles.push(random_tile());
        i = i + 1;
    }
    tiles
}

} // verus!
