//! A board tile: a hexagonal background in the colour of its resource, a row of
//! dots telling how likely its roll is, and the roll's digits.

use vstd::prelude::*;
use crate::canvas::{Canvas, Drawing, Entity, EntityRef, Shape, Shape128};
use crate::geometry::{Scale2D, Size2D, UDim, UDim2, SCALE_ONE};
use crate::layout::{default_layout, sized_layout, LayoutNode, SCALE_MID};
use crate::shape::{BitShape, BitShape128, Cell, Color, Stencil};

verus! {

/// What a tile yields.
#[derive(Clone, Copy, Debug, PartialEq, Eq, Structural)]
pub enum Resource {
    Brick,
    Lumber,
    Wool,
    Grain,
    Ore,
    Desert,
}

/// The number of kinds of resource.
pub const RESOURCE_COUNT: u8 = 6;

impl Resource {
    /// The resource numbered `i`, in the order of declaration.
    pub fn from_index(i: u8) -> (r: Resource)
        requires
            i < RESOURCE_COUNT,
        ensures
            i == 0 ==> r == Resource::Brick,
            i == 1 ==> r == Resource::Lumber,
            i == 2 ==> r == Resource::Wool,
            i == 3 ==> r == Resource::Grain,
            i == 4 ==> r == Resource::Ore,
            i == 5 ==> r == Resource::Desert,
    {
        if i == 0 {
            Resource::Brick
        } else if i == 1 {
            Resource::Lumber
        } else if i == 2 {
            Resource::Wool
        } else if i == 3 {
            Resource::Grain
        } else if i == 4 {
            Resource::Ore
        } else {
            Resource::Desert
        }
    }

    pub open spec fn color_spec(self) -> Color {
        match self {
            Resource::Brick => Color::Red,
            Resource::Lumber => Color::Green,
            Resource::Wool => Color::LightGreen,
            Resource::Grain => Color::Yellow,
            Resource::Ore => Color::Gray,
            Resource::Desert => Color::LightYellow,
        }
    }

    /// The colour a tile of this resource is painted in.
    pub fn get_color(&self) -> (r: Color)
        ensures
            r == self.color_spec(),
    {
        match self {
            Resource::Brick => Color::Red,
            Resource::Lumber => Color::Green,
            Resource::Wool => Color::LightGreen,
            Resource::Grain => Color::Yellow,
            Resource::Ore => Color::Gray,
            Resource::Desert => Color::LightYellow,
        }
    }
}

/// A tile of the board: the number rolled to make it yield, and what it yields.
#[derive(Clone, Copy, Debug, PartialEq, Eq, Structural)]
pub struct Tile {
    pub roll: u8,
    pub resource: Resource,
}

impl Tile {
    /// A roll names one of the thirteen chance rows.
    pub open spec fn wf(&self) -> bool {
        self.roll <= HIGHEST_ROLL
    }

    pub fn new(roll: u8, resource: Resource) -> (r: Tile)
        ensures
            r.roll == roll,
            r.resource == resource,
    {
        Tile { roll, resource }
    }
}

impl Tile {
    /// Lays a freshly mounted tile out and mounts its background, its chance dots
    /// and the digits of its roll beneath it.
    pub fn on_mount(canvas: &mut Canvas, r: EntityRef)
        requires
            old(canvas).wf(),
            old(canvas).valid(r),
            r.index + 1 == old(canvas).entities@.len(),
            old(canvas).entities@.len() + 4 < usize::MAX,
            old(canvas).ent(r).children@.len() == 0,
            old(canvas).ent(r).layout == default_layout(),
            old(canvas).ent(r).drawing is Tile,
        ensures
            final(canvas).wf(),
            final(canvas).roots@ == old(canvas).roots@,
            final(canvas).entities@.len() >= old(canvas).entities@.len(),
            forall|j: int| 0 <= j < r.index
                ==> #[trigger] final(canvas).entities@[j] == old(canvas).entities@[j],
            final(canvas).ent(r).drawing == old(canvas).ent(r).drawing,
            final(canvas).ent(r).parent == old(canvas).ent(r).parent,
            final(canvas).ent(r).generation == old(canvas).ent(r).generation,
            final(canvas).ent(r).names@ == old(canvas).ent(r).names@,
            tile_mounted(final(canvas).entities@, r.index as int),
    {
        let ghost start = *canvas;
        let tile: Tile = match &canvas.entities[r.index].drawing {
            Drawing::Tile(t) => *t,
            _ => {
                assert(false);
                return;
            }
        };
        assert(start.entity_wf(r.index as int));
        let roll = tile.roll;
        let ghost pre = *canvas;
        canvas.entities[r.index].layout.set_size(UDim2::from_size2d(Size2D::new(TILE_WIDTH, TILE_HEIGHT)));
        proof {
            assert forall|i: int| 0 <= i < canvas.entities@.len() implies #[trigger] canvas.entity_wf(i) by {
                assert(pre.entity_wf(i));
            }
        }

        let mut centered = LayoutNode::new();
        centered.center();
        let mut bkg_layout = centered;
        bkg_layout.set_size(UDim2::from_size2d(Size2D::new(TILE_WIDTH, TILE_HEIGHT)));
        let bkg = Cell { ch: '#', fg: tile.resource.get_color(), bg: Color::Reset };
        let c0 = canvas.add_child(r, Drawing::Shape(Shape::new(tile_bitshape(), bkg)), bkg_layout);
        let ghost after0 = *canvas;

        let mut dots = LayoutNode::new();
        dots.set_position(UDim2::new(SCALE_MID, 0, SCALE_ONE, -1));
        dots.set_anchor(Scale2D::new(SCALE_MID, SCALE_MID));
        let dot_cell = Cell::new('O', Color::Blue);
        let dot_shape = rarity_shape(roll);
        dots.set_size(UDim2::from_size2d(dot_shape.size));
        let c1 = canvas.add_child(r, Drawing::Shape128(Shape128::new(dot_shape, dot_cell)), dots);
        let mut glyph = LayoutNode::new();
        glyph.set_size(UDim2::from_size2d(Size2D::new(5, 5)));
        let mut centered_glyph = glyph;
        centered_glyph.center();
        let ghost after1 = *canvas;

        if roll < 10 {
            let fg = if roll == 6 || roll == 8 { Color::Red } else { Color::White };
            let c2 = canvas.add_child(r, Drawing::Shape128(Shape128::new(digit_shape(roll), Cell::new('@', fg))), centered_glyph);
            assert(canvas.entities@[c0.index as int] == after0.entities@[c0.index as int]);
            assert(canvas.entities@[c1.index as int] == after1.entities@[c1.index as int]);
            assert(canvas.ent(r).children@ =~= seq![c0, c1, c2]);
        } else {
            let mut low = glyph;
            low.set_position(UDim2::new(SCALE_MID, 1, SCALE_MID, 0));
            low.set_anchor(Scale2D::new(0, SCALE_MID));
            let c2 = canvas.add_child(r, Drawing::Shape128(Shape128::new(digit_shape(roll % 10), Cell::new('@', Color::White))), low);
            let ghost after2 = *canvas;
            let mut high = glyph;
            high.set_position(UDim2::new(SCALE_MID, -1, SCALE_MID, 0));
            high.set_anchor(Scale2D::new(SCALE_ONE, SCALE_MID));
            let c3 = canvas.add_child(r, Drawing::Shape128(Shape128::new(digit_shape(roll / 10), Cell::new('@', Color::White))), high);
            assert(canvas.entities@[c0.index as int] == after0.entities@[c0.index as int]);
            assert(canvas.entities@[c1.index as int] == after1.entities@[c1.index as int]);
            assert(canvas.entities@[c2.index as int] == after2.entities@[c2.index as int]);
            assert(canvas.ent(r).children@ =~= seq![c0, c1, c2, c3]);
        }
    }
}

/// The highest roll two dice give.
pub const HIGHEST_ROLL: u8 = 12;

/// The width of a tile in cells.
pub const TILE_WIDTH: u16 = 25;

/// The height of a tile in cells.
pub const TILE_HEIGHT: u16 = 11;

/// The 5 by 5 glyph of digit `d`.
pub open spec fn digit_bits(d: int) -> u128 {
    if d == 0 { 0b0111010001100011000101110 }
    else if d == 1 { 0b0110000100001000010001110 }
    else if d == 2 { 0b1111000001011101000011111 }
    else if d == 3 { 0b1111000001111110000111110 }
    else if d == 4 { 0b1000110001011110000100001 }
    else if d == 5 { 0b1111110000111100000111110 }
    else if d == 6 { 0b0111010000111101000101110 }
    else if d == 7 { 0b1111100010001000100010000 }
    else if d == 8 { 0b0111010001011101000101110 }
    else { 0b0111010001011110000101110 }
}

/// The glyph of a decimal digit.
pub fn digit_shape(d: u8) -> (r: BitShape128)
    requires
        d < 10,
    ensures
        r.bits == digit_bits(d as int),
        r.size == (Size2D { x: 5, y: 5 }),
        r.wf(),
{
    let bits: u128 = if d == 0 { 0b0111010001100011000101110 }
    else if d == 1 { 0b0110000100001000010001110 }
    else if d == 2 { 0b1111000001011101000011111 }
    else if d == 3 { 0b1111000001111110000111110 }
    else if d == 4 { 0b1000110001011110000100001 }
    else if d == 5 { 0b1111110000111100000111110 }
    else if d == 6 { 0b0111010000111101000101110 }
    else if d == 7 { 0b1111100010001000100010000 }
    else if d == 8 { 0b0111010001011101000101110 }
    else { 0b0111010001011110000101110 };
    BitShape128::new(bits, Size2D::new(5, 5))
}

/// How many dot marks a roll gets: six less its distance from seven, never below zero.
pub open spec fn rarity(roll: int) -> int {
    let dist = if roll >= 7 { roll - 7 } else { 7 - roll };
    if dist >= 6 { 0 } else { 6 - dist }
}

/// `n` dots with a gap between each two: the bits `1`, `101`, `10101`, ...
pub open spec fn dot_bits(n: nat) -> int
    decreases n,
{
    if n == 0 { 0 } else { dot_bits((n - 1) as nat) * 4 + 1 }
}

proof fn lemma_dot_bits_bound(n: nat)
    ensures
        0 <= dot_bits(n) < pow4(n),
    decreases n,
{
    if n > 0 {
        lemma_dot_bits_bound((n - 1) as nat);
    }
}

/// Four to the power `n`.
pub open spec fn pow4(n: nat) -> int
    decreases n,
{
    if n == 0 { 1 } else { 4 * pow4((n - 1) as nat) }
}

/// The row of dots under a tile that tells how likely its roll is.
pub fn rarity_shape(roll: u8) -> (r: BitShape128)
    requires
        roll <= HIGHEST_ROLL,
    ensures
        r.bits == dot_bits(rarity(roll as int) as nat),
        r.size == (Size2D {
            x: if rarity(roll as int) == 0 { 1 } else { (2 * rarity(roll as int) - 1) as u16 },
            y: 1,
        }),
        r.wf(),
{
    let dist: u8 = if roll >= 7 { roll - 7 } else { 7 - roll };
    let n: u8 = if dist >= 6 { 0 } else { 6 - dist };
    let width: u16 = if n == 0 { 1 } else { 2 * (n as u16) - 1 };
    let mut bits: u128 = 0;
    let mut i: u8 = 0;
    while i < n
        invariant
            i <= n <= 6,
            bits == dot_bits(i as nat),
        decreases n - i,
    {
        proof {
            lemma_dot_bits_bound(i as nat);
            assert(pow4(i as nat) <= 4096) by {
                reveal_with_fuel(pow4, 7);
            }
        }
        bits = bits * 4 + 1;
        i = i + 1;
    }
    BitShape128::new(bits, Size2D::new(width, 1))
}

/// Row `y` of the hexagonal tile background: as wide as the tile at the middle row,
/// two cells narrower for each row away from it.
pub open spec fn hex_row(y: int) -> u128 {
    let padding = if y >= 5 { y - 5 } else { 5 - y };
    let fill = TILE_WIDTH - 2 * padding;
    ((u128::MAX >> ((128 - fill) as u128)) << (padding as u128)) as u128
}

/// The hexagonal background of a tile.
pub fn tile_bitshape() -> (r: BitShape)
    ensures
        r.size == (Size2D { x: TILE_WIDTH, y: TILE_HEIGHT }),
        r.wf(),
        forall|y: int| 0 <= y < TILE_HEIGHT ==> #[trigger] r.rows@[y] == hex_row(y),
{
    let mut rows: Vec<u128> = Vec::with_capacity(TILE_HEIGHT as usize);
    let middle: u16 = (TILE_HEIGHT + (TILE_HEIGHT + 1) % 2) / 2;
    let mut y: u16 = 0;
    while y < TILE_HEIGHT
        invariant
            y <= TILE_HEIGHT,
            middle == 5,
            rows@.len() == y,
            forall|k: int| 0 <= k < y ==> #[trigger] rows@[k] == hex_row(k),
        decreases TILE_HEIGHT - y,
    {
        let padding: u16 = if y >= middle { y - middle } else { middle - y };
        let fill: u16 = TILE_WIDTH - 2 * padding;
        let bits: u128 = (u128::MAX >> ((128 - fill) as u128)) << (padding as u128);
        rows.push(bits);
        y = y + 1;
    }
    BitShape::new(rows, Size2D::new(TILE_WIDTH, TILE_HEIGHT))
}

/// The layout that `center` gives a fresh entity of the given size.
pub open spec fn centered_layout(size: Size2D) -> LayoutNode {
    LayoutNode {
        position: UDim2 { x: UDim { scale: SCALE_MID, offset: 0 }, y: UDim { scale: SCALE_MID, offset: 0 } },
        anchor: Scale2D { x: SCALE_MID, y: SCALE_MID },
        ..sized_layout(size)
    }
}

/// A fresh layout of the given size moved to `position` and anchored at `anchor`.
pub open spec fn placed_layout(position: UDim2, anchor: Scale2D, size: Size2D) -> LayoutNode {
    LayoutNode { position, anchor, ..sized_layout(size) }
}

/// The cell of roll digits: red for the two likeliest yielding rolls, white otherwise.
pub open spec fn digit_cell(roll: int) -> Cell {
    Cell { ch: '@', fg: if roll == 6 || roll == 8 { Color::Red } else { Color::White }, bg: Color::Reset }
}

/// Child `k` of entity `i` is a fresh entity with this drawing kind and layout.
pub open spec fn child_is(ents: Seq<Entity>, i: int, k: int, layout: LayoutNode) -> bool {
    let c = ents[i].children@[k].index as int;
    &&& 0 <= c < ents.len()
    &&& ents[c].layout == layout
    &&& ents[c].children@.len() == 0
}

/// Child `k` of entity `i` is a packed shape with these bits, extent and cell.
pub open spec fn child_glyph(ents: Seq<Entity>, i: int, k: int, bits: u128, size: Size2D, cell: Cell) -> bool {
    let c = ents[i].children@[k].index as int;
    ents[c].drawing matches Drawing::Shape128(s) && s.shape.bits == bits && s.shape.size == size && s.cell == cell
}

/// Entity `i` is a tile laid out by its mount hook: 25 by 11 cells, with its
/// background centred, its dots at the middle of its bottom row and its roll's
/// digits at its middle.
pub open spec fn tile_mounted(ents: Seq<Entity>, i: int) -> bool {
    &&& ents[i].drawing is Tile
    &&& {
        let t = ents[i].drawing->Tile_0;
        let n = rarity(t.roll as int);
        &&& ents[i].layout == (LayoutNode {
            size: UDim2 {
                x: UDim { scale: 0, offset: TILE_WIDTH as i32 },
                y: UDim { scale: 0, offset: TILE_HEIGHT as i32 },
            },
            ..default_layout()
        })
        &&& ents[i].children@.len() == if t.roll < 10 { 3int } else { 4int }
        &&& child_is(ents, i, 0, centered_layout(Size2D { x: TILE_WIDTH, y: TILE_HEIGHT }))
        &&& ({
            let c = ents[i].children@[0].index as int;
            ents[c].drawing matches Drawing::Shape(s) && s.shape.size == (Size2D { x: TILE_WIDTH, y: TILE_HEIGHT })
                && (forall|y: int| 0 <= y < TILE_HEIGHT ==> #[trigger] s.shape.rows@[y] == hex_row(y))
                && s.cell == (Cell { ch: '#', fg: t.resource.color_spec(), bg: Color::Reset })
        })
        &&& child_is(ents, i, 1, placed_layout(
            UDim2 { x: UDim { scale: SCALE_MID, offset: 0 }, y: UDim { scale: SCALE_ONE, offset: -1i32 } },
            Scale2D { x: SCALE_MID, y: SCALE_MID },
            Size2D { x: if n == 0 { 1 } else { (2 * n - 1) as u16 }, y: 1 },
        ))
        &&& child_glyph(ents, i, 1, dot_bits(n as nat) as u128,
            Size2D { x: if n == 0 { 1 } else { (2 * n - 1) as u16 }, y: 1 },
            Cell { ch: 'O', fg: Color::Blue, bg: Color::Reset })
        &&& t.roll < 10 ==> {
            &&& child_is(ents, i, 2, centered_layout(Size2D { x: 5, y: 5 }))
            &&& child_glyph(ents, i, 2, digit_bits(t.roll as int), Size2D { x: 5, y: 5 }, digit_cell(t.roll as int))
        }
        &&& t.roll >= 10 ==> {
            &&& child_is(ents, i, 2, placed_layout(
                UDim2 { x: UDim { scale: SCALE_MID, offset: 1 }, y: UDim { scale: SCALE_MID, offset: 0 } },
                Scale2D { x: 0, y: SCALE_MID },
                Size2D { x: 5, y: 5 },
            ))
            &&& child_glyph(ents, i, 2, digit_bits(t.roll as int % 10), Size2D { x: 5, y: 5 },
                digit_cell(t.roll as int % 10))
            &&& child_is(ents, i, 3, placed_layout(
                UDim2 { x: UDim { scale: SCALE_MID, offset: -1i32 }, y: UDim { scale: SCALE_MID, offset: 0 } },
                Scale2D { x: SCALE_ONE, y: SCALE_MID },
                Size2D { x: 5, y: 5 },
            ))
            &&& child_glyph(ents, i, 3, digit_bits(t.roll as int / 10), Size2D { x: 5, y: 5 },
                Cell { ch: '@', fg: Color::White, bg: Color::Reset })
        }
    }
}

} // verus!
