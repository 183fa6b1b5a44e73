//! The entity arena: drawable entities in a tree, each with its layout node,
//! reached through generation-checked references, and the draw pass over them.

use vstd::prelude::*;
use crate::geometry::{Rect, Scale2D, Size2D, UDim, UDim2};
use crate::layout::{default_layout, sized_layout, place_spec, LayoutNode, SCALE_MID};
use crate::shape::{stamped_at, BitShape, BitShape128, Cell, CellBuffer, Stencil};
use crate::tile::{tile_mounted, Tile};

verus! {

/// A handle to an entity: its slot and the generation the slot had when it was made.
#[derive(Clone, Copy, Debug, PartialEq, Eq, Structural)]
pub struct EntityRef {
    pub index: usize,
    pub generation: u64,
}

/// Why a reference could not be followed.
#[derive(Clone, Copy, Debug, PartialEq, Eq, Structural)]
pub enum ArenaError {
    /// The reference names no live entity.
    StaleReference,
    /// The entity holds another kind of drawing than the one asked for.
    TypeMismatch,
    /// The entity publishes no reference under that name.
    NotFound,
}

/// A shape of rows painted with one cell.
#[derive(Debug)]
pub struct Shape {
    pub shape: BitShape,
    pub cell: Cell,
}

impl Shape {
    pub fn new(shape: BitShape, cell: Cell) -> (r: Shape)
        ensures
            r.shape == shape,
            r.cell == cell,
    {
        Shape { shape, cell }
    }
}

/// A packed shape painted with one cell.
#[derive(Clone, Copy, Debug)]
pub struct Shape128 {
    pub shape: BitShape128,
    pub cell: Cell,
}

impl Shape128 {
    pub fn new(shape: BitShape128, cell: Cell) -> (r: Shape128)
        ensures
            r.shape == shape,
            r.cell == cell,
    {
        Shape128 { shape, cell }
    }
}

/// What an entity is: the closed set of drawable kinds.
#[derive(Debug)]
pub enum Drawing {
    /// Draws nothing itself; only its children.
    Group,
    Shape(Shape),
    Shape128(Shape128),
    Tile(Tile),
}

impl Drawing {
    pub open spec fn wf(&self) -> bool {
        match self {
            Drawing::Shape(s) => s.shape.wf(),
            Drawing::Shape128(s) => s.shape.wf(),
            Drawing::Tile(t) => t.wf(),
            Drawing::Group => true,
        }
    }
}

/// One slot of the arena.
#[derive(Debug)]
pub struct Entity {
    pub drawing: Drawing,
    pub parent: Option<usize>,
    pub children: Vec<EntityRef>,
    pub names: Vec<(u32, EntityRef)>,
    pub layout: LayoutNode,
    pub generation: u64,
}

/// The arena of entities and the roots of its trees.
#[derive(Debug)]
pub struct Canvas {
    pub entities: Vec<Entity>,
    pub roots: Vec<EntityRef>,
}

/// The rectangle of the whole surface.
pub open spec fn surface_rect(surface: Size2D) -> Rect {
    Rect { x: 0, y: 0, width: surface.x, height: surface.y }
}

/// The absolute rectangle of entity `i`: its layout placed in its parent's
/// rectangle, or in the surface for a root.
pub open spec fn rect_of(ents: Seq<Entity>, i: int, surface: Size2D) -> Rect
    decreases i,
{
    if 0 <= i < ents.len() {
        match ents[i].parent {
            Some(p) => if 0 <= p < i {
                place_spec(ents[i].layout, rect_of(ents, p as int, surface))
            } else {
                place_spec(ents[i].layout, surface_rect(surface))
            },
            None => place_spec(ents[i].layout, surface_rect(surface)),
        }
    } else {
        surface_rect(surface)
    }
}

/// A buffer `w` wide after `shape` was stamped into it with `cell` at (`x`, `y`).
pub open spec fn stamp_seq<S: Stencil>(buf: Seq<Cell>, shape: S, cell: Cell, x: int, y: int, w: int) -> Seq<Cell> {
    Seq::new(buf.len(), |j: int| stamped_at(shape, cell, x, y, w, buf[j], j))
}

/// What an entity's own drawing paints into `buf` at rectangle `r`.
pub open spec fn paint_own(d: Drawing, r: Rect, buf: Seq<Cell>, w: int) -> Seq<Cell> {
    match d {
        Drawing::Shape(s) => stamp_seq(buf, s.shape, s.cell, r.x as int, r.y as int, w),
        Drawing::Shape128(s) => stamp_seq(buf, s.shape, s.cell, r.x as int, r.y as int, w),
        _ => buf,
    }
}

/// `buf` after entity `i` has drawn itself in `parent` and then its children in
/// the order they were mounted.
pub open spec fn paint_node(ents: Seq<Entity>, i: int, parent: Rect, buf: Seq<Cell>, w: int) -> Seq<Cell>
    decreases ents.len() - i, 1int,
{
    if 0 <= i < ents.len() {
        let r = place_spec(ents[i].layout, parent);
        paint_children(ents, i, ents[i].children@.len() as int, r, paint_own(ents[i].drawing, r, buf, w), w)
    } else {
        buf
    }
}

/// `buf` after the first `k` children of entity `i` have drawn themselves in `r`.
pub open spec fn paint_children(ents: Seq<Entity>, i: int, k: int, r: Rect, buf: Seq<Cell>, w: int) -> Seq<Cell>
    decreases ents.len() - i, 0int, k,
{
    if 0 < k && 0 <= i < ents.len() && k <= ents[i].children@.len() {
        let c = ents[i].children@[k - 1].index as int;
        let before = paint_children(ents, i, k - 1, r, buf, w);
        if i < c < ents.len() { paint_node(ents, c, r, before, w) } else { before }
    } else {
        buf
    }
}

/// `buf` after the first `k` roots have been drawn on the surface.
pub open spec fn paint_roots(ents: Seq<Entity>, roots: Seq<EntityRef>, k: int, surface: Size2D, buf: Seq<Cell>) -> Seq<Cell>
    decreases k,
{
    if 0 < k && k <= roots.len() {
        paint_node(ents, roots[k - 1].index as int, surface_rect(surface),
            paint_roots(ents, roots, k - 1, surface, buf), surface.x as int)
    } else {
        buf
    }
}

/// The cells of a frame of the given extent: a blank surface with every root drawn on it.
pub open spec fn frame_of(ents: Seq<Entity>, roots: Seq<EntityRef>, surface: Size2D) -> Seq<Cell> {
    paint_roots(ents, roots, roots.len() as int, surface,
        Seq::new((surface.x * surface.y) as nat, |j: int| Cell::blank_spec()))
}

impl Canvas {
    pub open spec fn wf(&self) -> bool {
        &&& forall|i: int| 0 <= i < self.entities@.len() ==> #[trigger] self.entity_wf(i)
        &&& forall|k: int| 0 <= k < self.roots@.len() ==> {
            let r = #[trigger] self.roots@[k];
            r.index < self.entities@.len() && self.entities@[r.index as int].parent is None
        }
    }

    pub open spec fn entity_wf(&self, i: int) -> bool {
        let e = self.entities@[i];
        &&& e.layout.wf()
        &&& e.drawing.wf()
        &&& match e.parent {
            Some(p) => p < i,
            None => true,
        }
        &&& forall|k: int| 0 <= k < e.children@.len() ==> {
            let c = #[trigger] e.children@[k];
            i < c.index < self.entities@.len() && self.entities@[c.index as int].parent == Some(i as usize)
        }
        &&& forall|a: int, b: int| 0 <= a < b < e.names@.len() ==> #[trigger] e.names@[a].0 != #[trigger] e.names@[b].0
    }

    /// Whether `r` names a live entity.
    pub open spec fn valid(&self, r: EntityRef) -> bool {
        r.index < self.entities@.len() && self.entities@[r.index as int].generation == r.generation
    }

    pub open spec fn ent(&self, r: EntityRef) -> Entity {
        self.entities@[r.index as int]
    }

    /// An empty arena.
    pub fn new() -> (c: Canvas)
        ensures
            c.wf(),
            c.entities@.len() == 0,
            c.roots@.len() == 0,
    {
        Canvas { entities: Vec::new(), roots: Vec::new() }
    }

    pub fn is_valid(&self, r: EntityRef) -> (b: bool)
        ensures
            b == self.valid(r),
    {
        r.index < self.entities.len() && self.entities[r.index].generation == r.generation
    }

    /// Appends an entity under `parent` with the default layout, and no hook.
    pub(crate) fn insert(&mut self, parent: Option<EntityRef>, drawing: Drawing) -> (r: EntityRef)
        requires
            old(self).wf(),
            drawing.wf(),
            parent matches Some(p) ==> old(self).valid(p),
            old(self).entities@.len() < usize::MAX,
        ensures
            final(self).wf(),
            r.index == old(self).entities@.len(),
            final(self).valid(r),
            final(self).entities@.len() == old(self).entities@.len() + 1,
            final(self).ent(r).drawing == drawing,
            final(self).ent(r).parent == (match parent { Some(p) => Some(p.index), None => None }),
            final(self).ent(r).children@.len() == 0,
            final(self).ent(r).names@.len() == 0,
            final(self).ent(r).layout == default_layout(),
            match parent {
                Some(p) => final(self).roots@ == old(self).roots@
                    && final(self).ent(p).children@ == old(self).ent(p).children@.push(r)
                    && final(self).ent(p).drawing == old(self).ent(p).drawing
                    && final(self).ent(p).parent == old(self).ent(p).parent
                    && final(self).ent(p).names@ == old(self).ent(p).names@
                    && final(self).ent(p).layout == old(self).ent(p).layout
                    && final(self).ent(p).generation == old(self).ent(p).generation
                    && forall|j: int| 0 <= j < old(self).entities@.len() && j != p.index
                        ==> #[trigger] final(self).entities@[j] == old(self).entities@[j],
                None => final(self).roots@ == old(self).roots@.push(r)
                    && forall|j: int| 0 <= j < old(self).entities@.len()
                        ==> #[trigger] final(self).entities@[j] == old(self).entities@[j],
            },
    {
        let ghost pre = *self;
        let index = self.entities.len();
        let r = EntityRef { index, generation: 0 };
        let pidx: Option<usize> = match parent { Some(p) => Some(p.index), None => None };
        self.entities.push(Entity {
            drawing,
            parent: pidx,
            children: Vec::new(),
            names: Vec::new(),
            layout: LayoutNode::new(),
            generation: 0,
        });
        match parent {
            Some(p) => {
                self.entities[p.index].children.push(r);
            }
            None => {
                self.roots.push(r);
            }
        }
        proof {
            assert forall|i: int| 0 <= i < self.entities@.len() implies #[trigger] self.entity_wf(i) by {
                if i < index {
                    assert(pre.entity_wf(i));
                    let e = self.entities@[i];
                    assert forall|k: int| 0 <= k < e.children@.len() implies {
                        let c = #[trigger] e.children@[k];
                        i < c.index < self.entities@.len() && self.entities@[c.index as int].parent == Some(i as usize)
                    } by {
                        if parent is Some && i == parent->0.index {
                            if k < pre.entities@[i].children@.len() {
                                let c = pre.entities@[i].children@[k];
                                assert(pre.entities@[i].children@[k] == e.children@[k]);
                            }
                        } else {
                            assert(pre.entities@[i].children@[k] == e.children@[k]);
                        }
                    }
                }
            }
        }
        r
    }

    /// Appends a fresh entity with `layout` as the last child of `parent`, with no hook.
    pub(crate) fn add_child(&mut self, parent: EntityRef, drawing: Drawing, layout: LayoutNode) -> (r: EntityRef)
        requires
            old(self).wf(),
            drawing.wf(),
            layout.wf(),
            old(self).valid(parent),
            old(self).entities@.len() < usize::MAX,
        ensures
            final(self).wf(),
            r.index == old(self).entities@.len(),
            final(self).valid(r),
            final(self).entities@.len() == old(self).entities@.len() + 1,
            final(self).ent(r).drawing == drawing,
            final(self).ent(r).children@.len() == 0,
            final(self).ent(r).layout == layout,
            final(self).roots@ == old(self).roots@,
            final(self).ent(parent).children@ == old(self).ent(parent).children@.push(r),
            final(self).ent(parent).drawing == old(self).ent(parent).drawing,
            final(self).ent(parent).parent == old(self).ent(parent).parent,
            final(self).ent(parent).names@ == old(self).ent(parent).names@,
            final(self).ent(parent).layout == old(self).ent(parent).layout,
            final(self).ent(parent).generation == old(self).ent(parent).generation,
            forall|j: int| 0 <= j < old(self).entities@.len() && j != parent.index
                ==> #[trigger] final(self).entities@[j] == old(self).entities@[j],
    {
        let r = self.insert(Some(parent), drawing);
        let ghost mid = *self;
        self.entities[r.index].layout = layout;
        proof {
            assert forall|i: int| 0 <= i < self.entities@.len() implies #[trigger] self.entity_wf(i) by {
                assert(mid.entity_wf(i));
            }
        }
        r
    }

    fn put_layout(&mut self, i: usize, layout: LayoutNode)
        requires
            old(self).wf(),
            i < old(self).entities@.len(),
            layout.wf(),
        ensures
            final(self).wf(),
            final(self).roots@ == old(self).roots@,
            final(self).entities@ == old(self).entities@.update(
                i as int,
                Entity { layout, ..old(self).entities@[i as int] },
            ),
    {
        let ghost pre = *self;
        self.entities[i].layout = layout;
        proof {
            assert(self.entities@ =~= pre.entities@.update(i as int, Entity { layout, ..pre.entities@[i as int] }));
            assert forall|j: int| 0 <= j < self.entities@.len() implies #[trigger] self.entity_wf(j) by {
                assert(pre.entity_wf(j));
            }
        }
    }

    /// The layout node of the entity `r` names.
    pub fn get_layout(&self, r: EntityRef) -> (res: Result<LayoutNode, ArenaError>)
        ensures
            self.valid(r) ==> res == Ok::<LayoutNode, ArenaError>(self.ent(r).layout),
            !self.valid(r) ==> res == Err::<LayoutNode, ArenaError>(ArenaError::StaleReference),
    {
        if !self.is_valid(r) {
            return Err(ArenaError::StaleReference);
        }
        Ok(self.entities[r.index].layout)
    }

    /// Replaces the layout node of the entity `r` names.
    pub fn set_layout(&mut self, r: EntityRef, layout: LayoutNode) -> (res: Result<(), ArenaError>)
        requires
            old(self).wf(),
            layout.wf(),
        ensures
            final(self).wf(),
            final(self).roots@ == old(self).roots@,
            old(self).valid(r) ==> res is Ok && final(self).entities@ == old(self).entities@.update(
                r.index as int,
                Entity { layout, ..old(self).ent(r) },
            ),
            !old(self).valid(r) ==> res == Err::<(), ArenaError>(ArenaError::StaleReference)
                && *final(self) == *old(self),
    {
        if !self.is_valid(r) {
            return Err(ArenaError::StaleReference);
        }
        self.put_layout(r.index, layout);
        Ok(())
    }

    /// Moves the entity `r` names to `position` in its parent.
    pub fn set_position(&mut self, r: EntityRef, position: UDim2) -> (res: Result<(), ArenaError>)
        requires
            old(self).wf(),
            position.wf(),
        ensures
            final(self).wf(),
            final(self).roots@ == old(self).roots@,
            old(self).valid(r) ==> res is Ok && final(self).entities@ == old(self).entities@.update(
                r.index as int,
                Entity { layout: LayoutNode { position, ..old(self).ent(r).layout }, ..old(self).ent(r) },
            ),
            !old(self).valid(r) ==> res == Err::<(), ArenaError>(ArenaError::StaleReference)
                && *final(self) == *old(self),
    {
        if !self.is_valid(r) {
            return Err(ArenaError::StaleReference);
        }
        assert(self.entity_wf(r.index as int));
        let mut layout = self.entities[r.index].layout;
        layout.set_position(position);
        self.put_layout(r.index, layout);
        Ok(())
    }

    /// Centres the entity `r` names in its parent, whatever its size.
    pub fn center(&mut self, r: EntityRef) -> (res: Result<(), ArenaError>)
        requires
            old(self).wf(),
        ensures
            final(self).wf(),
            final(self).roots@ == old(self).roots@,
            old(self).valid(r) ==> res is Ok && final(self).entities@ == old(self).entities@.update(
                r.index as int,
                Entity {
                    layout: LayoutNode {
                        position: UDim2 {
                            x: UDim { scale: SCALE_MID, offset: 0 },
                            y: UDim { scale: SCALE_MID, offset: 0 },
                        },
                        anchor: Scale2D { x: SCALE_MID, y: SCALE_MID },
                        ..old(self).ent(r).layout
                    },
                    ..old(self).ent(r)
                },
            ),
            !old(self).valid(r) ==> res == Err::<(), ArenaError>(ArenaError::StaleReference)
                && *final(self) == *old(self),
    {
        if !self.is_valid(r) {
            return Err(ArenaError::StaleReference);
        }
        assert(self.entity_wf(r.index as int));
        let mut layout = self.entities[r.index].layout;
        layout.center();
        self.put_layout(r.index, layout);
        Ok(())
    }

    /// The tile the entity `r` names.
    pub fn get_tile(&self, r: EntityRef) -> (res: Result<Tile, ArenaError>)
        ensures
            !self.valid(r) ==> res == Err::<Tile, ArenaError>(ArenaError::StaleReference),
            self.valid(r) && !(self.ent(r).drawing is Tile)
                ==> res == Err::<Tile, ArenaError>(ArenaError::TypeMismatch),
            self.valid(r) && self.ent(r).drawing is Tile
                ==> res == Ok::<Tile, ArenaError>(self.ent(r).drawing->Tile_0),
    {
        if !self.is_valid(r) {
            return Err(ArenaError::StaleReference);
        }
        match &self.entities[r.index].drawing {
            Drawing::Tile(t) => Ok(*t),
            _ => Err(ArenaError::TypeMismatch),
        }
    }

    /// The packed shape the entity `r` names.
    pub fn get_shape128(&self, r: EntityRef) -> (res: Result<Shape128, ArenaError>)
        ensures
            !self.valid(r) ==> res == Err::<Shape128, ArenaError>(ArenaError::StaleReference),
            self.valid(r) && !(self.ent(r).drawing is Shape128)
                ==> res == Err::<Shape128, ArenaError>(ArenaError::TypeMismatch),
            self.valid(r) && self.ent(r).drawing is Shape128
                ==> res == Ok::<Shape128, ArenaError>(self.ent(r).drawing->Shape128_0),
    {
        if !self.is_valid(r) {
            return Err(ArenaError::StaleReference);
        }
        match &self.entities[r.index].drawing {
            Drawing::Shape128(s) => Ok(*s),
            _ => Err(ArenaError::TypeMismatch),
        }
    }

    /// The cell a shape entity is painted with.
    pub fn get_shape_cell(&self, r: EntityRef) -> (res: Result<Cell, ArenaError>)
        ensures
            !self.valid(r) ==> res == Err::<Cell, ArenaError>(ArenaError::StaleReference),
            self.valid(r) ==> match self.ent(r).drawing {
                Drawing::Shape(s) => res == Ok::<Cell, ArenaError>(s.cell),
                Drawing::Shape128(s) => res == Ok::<Cell, ArenaError>(s.cell),
                _ => res == Err::<Cell, ArenaError>(ArenaError::TypeMismatch),
            },
    {
        if !self.is_valid(r) {
            return Err(ArenaError::StaleReference);
        }
        match &self.entities[r.index].drawing {
            Drawing::Shape(s) => Ok(s.cell),
            Drawing::Shape128(s) => Ok(s.cell),
            _ => Err(ArenaError::TypeMismatch),
        }
    }

    /// The shape of rows the entity `r` names.
    pub fn get_shape(&self, r: EntityRef) -> (res: Result<&Shape, ArenaError>)
        ensures
            !self.valid(r) ==> res == Err::<&Shape, ArenaError>(ArenaError::StaleReference),
            self.valid(r) && !(self.ent(r).drawing is Shape)
                ==> res == Err::<&Shape, ArenaError>(ArenaError::TypeMismatch),
            self.valid(r) && self.ent(r).drawing is Shape
                ==> (res matches Ok(s) && *s == self.ent(r).drawing->Shape_0),
    {
        if !self.is_valid(r) {
            return Err(ArenaError::StaleReference);
        }
        match &self.entities[r.index].drawing {
            Drawing::Shape(s) => Ok(s),
            _ => Err(ArenaError::TypeMismatch),
        }
    }

    /// Repaints a shape entity with `cell`.
    pub fn set_shape_cell(&mut self, r: EntityRef, cell: Cell) -> (res: Result<(), ArenaError>)
        requires
            old(self).wf(),
        ensures
            final(self).wf(),
            final(self).roots@ == old(self).roots@,
            !old(self).valid(r) ==> res == Err::<(), ArenaError>(ArenaError::StaleReference)
                && *final(self) == *old(self),
            old(self).valid(r) && !(old(self).ent(r).drawing is Shape || old(self).ent(r).drawing is Shape128)
                ==> res == Err::<(), ArenaError>(ArenaError::TypeMismatch) && *final(self) == *old(self),
            old(self).valid(r) && (old(self).ent(r).drawing is Shape || old(self).ent(r).drawing is Shape128) ==> {
                &&& res is Ok
                &&& final(self).entities@.len() == old(self).entities@.len()
                &&& forall|j: int| 0 <= j < old(self).entities@.len() && j != r.index
                    ==> #[trigger] final(self).entities@[j] == old(self).entities@[j]
                &&& final(self).ent(r).layout == old(self).ent(r).layout
                &&& final(self).ent(r).children@ == old(self).ent(r).children@
                &&& final(self).ent(r).names@ == old(self).ent(r).names@
                &&& final(self).ent(r).parent == old(self).ent(r).parent
                &&& final(self).ent(r).generation == old(self).ent(r).generation
                &&& match (old(self).ent(r).drawing, final(self).ent(r).drawing) {
                    (Drawing::Shape(a), Drawing::Shape(b)) => b.shape == a.shape && b.cell == cell,
                    (Drawing::Shape128(a), Drawing::Shape128(b)) => b.shape == a.shape && b.cell == cell,
                    _ => false,
                }
            },
    {
        if !self.is_valid(r) {
            return Err(ArenaError::StaleReference);
        }
        let paintable = match &self.entities[r.index].drawing {
            Drawing::Shape(_) | Drawing::Shape128(_) => true,
            _ => false,
        };
        if !paintable {
            return Err(ArenaError::TypeMismatch);
        }
        let ghost pre = *self;
        match &mut self.entities[r.index].drawing {
            Drawing::Shape(s) => {
                s.cell = cell;
            },
            Drawing::Shape128(s) => {
                s.cell = cell;
            },
            _ => {},
        }
        proof {
            assert forall|j: int| 0 <= j < self.entities@.len() implies #[trigger] self.entity_wf(j) by {
                assert(pre.entity_wf(j));
            }
        }
        Ok(())
    }

    /// Publishes `target` under `name` on the entity `owner` names, replacing what
    /// was published there under that name before.
    pub fn publish_ref(&mut self, owner: EntityRef, name: u32, target: EntityRef) -> (res: Result<(), ArenaError>)
        requires
            old(self).wf(),
        ensures
            final(self).wf(),
            final(self).roots@ == old(self).roots@,
            !old(self).valid(owner) <==> res == Err::<(), ArenaError>(ArenaError::StaleReference),
            !old(self).valid(owner) ==> *final(self) == *old(self),
            old(self).valid(owner) ==> {
                &&& final(self).entities@.len() == old(self).entities@.len()
                &&& forall|j: int| 0 <= j < old(self).entities@.len() && j != owner.index
                    ==> #[trigger] final(self).entities@[j] == old(self).entities@[j]
                &&& final(self).ent(owner).drawing == old(self).ent(owner).drawing
                &&& final(self).ent(owner).layout == old(self).ent(owner).layout
                &&& final(self).ent(owner).children@ == old(self).ent(owner).children@
                &&& final(self).ent(owner).parent == old(self).ent(owner).parent
                &&& final(self).ent(owner).generation == old(self).ent(owner).generation
                &&& names_of(final(self).ent(owner)).contains_key(name)
                &&& names_of(final(self).ent(owner))[name] == target
                &&& forall|n: u32| n != name ==> #[trigger] names_of(final(self).ent(owner)).contains_key(n)
                    == names_of(old(self).ent(owner)).contains_key(n)
                &&& forall|n: u32| n != name && names_of(old(self).ent(owner)).contains_key(n)
                    ==> #[trigger] names_of(final(self).ent(owner))[n] == names_of(old(self).ent(owner))[n]
            },
    {
        if !self.is_valid(owner) {
            return Err(ArenaError::StaleReference);
        }
        let ghost pre = *self;
        assert(pre.entity_wf(owner.index as int));
        let found = self.find_name(owner.index, name);
        match found {
            Some(k) => {
                self.entities[owner.index].names.set(k, (name, target));
            },
            None => {
                self.entities[owner.index].names.push((name, target));
            },
        }
        proof {
            let e0 = pre.entities@[owner.index as int];
            let e1 = self.entities@[owner.index as int];
            assert forall|j: int| 0 <= j < self.entities@.len() implies #[trigger] self.entity_wf(j) by {
                assert(pre.entity_wf(j));
                if j == owner.index {
                    assert forall|a: int, b: int| 0 <= a < b < e1.names@.len() implies
                        #[trigger] e1.names@[a].0 != #[trigger] e1.names@[b].0 by {
                        if found is None && b == e0.names@.len() {
                            assert(e1.names@[a] == e0.names@[a]);
                        } else if found is Some && (a == found->0 || b == found->0) {
                        } else {
                            assert(e1.names@[a] == e0.names@[a]);
                            assert(e1.names@[b] == e0.names@[b]);
                        }
                    }
                }
            }
            lemma_names_unique(e1);
            lemma_names_unique(e0);
            assert forall|n: u32| n != name implies #[trigger] names_of(e1).contains_key(n)
                == names_of(e0).contains_key(n) by {
                if names_of(e0).contains_key(n) {
                    let k0 = choose|k: int| 0 <= k < e0.names@.len() && e0.names@[k].0 == n;
                    assert(e1.names@[k0] == e0.names@[k0]);
                }
                if names_of(e1).contains_key(n) {
                    let k1 = choose|k: int| 0 <= k < e1.names@.len() && e1.names@[k].0 == n;
                    assert(e1.names@[k1] == e0.names@[k1]);
                }
            }
            assert forall|n: u32| n != name && names_of(e0).contains_key(n)
                implies #[trigger] names_of(e1)[n] == names_of(e0)[n] by {
                let k0 = choose|k: int| 0 <= k < e0.names@.len() && e0.names@[k].0 == n;
                assert(e1.names@[k0] == e0.names@[k0]);
            }
            let kk: int = match found { Some(k) => k as int, None => e0.names@.len() as int };
            assert(e1.names@[kk] == (name, target));
        }
        Ok(())
    }

    fn find_name(&self, i: usize, name: u32) -> (res: Option<usize>)
        requires
            i < self.entities@.len(),
        ensures
            res matches Some(k) ==> k < self.entities@[i as int].names@.len()
                && self.entities@[i as int].names@[k as int].0 == name,
            res is None ==> forall|k: int| 0 <= k < self.entities@[i as int].names@.len()
                ==> #[trigger] self.entities@[i as int].names@[k].0 != name,
    {
        let names = &self.entities[i].names;
        let mut k: usize = 0;
        while k < names.len()
            invariant
                k <= names@.len(),
                names@ == self.entities@[i as int].names@,
                forall|m: int| 0 <= m < k ==> #[trigger] names@[m].0 != name,
            decreases names@.len() - k,
        {
            if names[k].0 == name {
                return Some(k);
            }
            k = k + 1;
        }
        None
    }

    /// The reference that the entity `owner` names has published under `name`.
    pub fn lookup_ref(&self, owner: EntityRef, name: u32) -> (res: Result<EntityRef, ArenaError>)
        requires
            self.wf(),
        ensures
            !self.valid(owner) ==> res == Err::<EntityRef, ArenaError>(ArenaError::StaleReference),
            self.valid(owner) && !names_of(self.ent(owner)).contains_key(name)
                ==> res == Err::<EntityRef, ArenaError>(ArenaError::NotFound),
            self.valid(owner) && names_of(self.ent(owner)).contains_key(name)
                && !self.valid(names_of(self.ent(owner))[name])
                ==> res == Err::<EntityRef, ArenaError>(ArenaError::StaleReference),
            self.valid(owner) && names_of(self.ent(owner)).contains_key(name)
                && self.valid(names_of(self.ent(owner))[name])
                ==> res == Ok::<EntityRef, ArenaError>(names_of(self.ent(owner))[name]),
    {
        if !self.is_valid(owner) {
            return Err(ArenaError::StaleReference);
        }
        assert(self.entity_wf(owner.index as int));
        proof { lemma_names_unique(self.ent(owner)); }
        match self.find_name(owner.index, name) {
            None => Err(ArenaError::NotFound),
            Some(k) => {
                let target = self.entities[owner.index].names[k].1;
                if self.is_valid(target) {
                    Ok(target)
                } else {
                    Err(ArenaError::StaleReference)
                }
            },
        }
    }

    fn rect_at(&self, i: usize, surface: Size2D) -> (r: Rect)
        requires
            self.wf(),
            i < self.entities@.len(),
        ensures
            r == rect_of(self.entities@, i as int, surface),
        decreases i,
    {
        assert(self.entity_wf(i as int));
        let e = &self.entities[i];
        match e.parent {
            Some(p) => {
                let pr = self.rect_at(p, surface);
                e.layout.place(pr)
            },
            None => e.layout.place(Rect { x: 0, y: 0, width: surface.x, height: surface.y }),
        }
    }

    /// The absolute rectangle of the entity `r` names, on a surface of the given extent.
    pub fn resolve_rect(&self, r: EntityRef, surface: Size2D) -> (res: Result<Rect, ArenaError>)
        requires
            self.wf(),
        ensures
            self.valid(r) ==> res == Ok::<Rect, ArenaError>(rect_of(self.entities@, r.index as int, surface)),
            !self.valid(r) ==> res == Err::<Rect, ArenaError>(ArenaError::StaleReference),
    {
        if !self.is_valid(r) {
            return Err(ArenaError::StaleReference);
        }
        Ok(self.rect_at(r.index, surface))
    }

    fn draw_node(&self, i: usize, parent: Rect, buf: &mut CellBuffer)
        requires
            self.wf(),
            i < self.entities@.len(),
            old(buf).wf(),
        ensures
            final(buf).wf(),
            final(buf).width == old(buf).width,
            final(buf).height == old(buf).height,
            final(buf).cells@ == paint_node(self.entities@, i as int, parent, old(buf).cells@, old(buf).width as int),
        decreases self.entities@.len() - i, 1int,
    {
        assert(self.entity_wf(i as int));
        let ghost w = buf.width as int;
        let ghost start = buf.cells@;
        let e = &self.entities[i];
        let r = e.layout.place(parent);
        match &e.drawing {
            Drawing::Shape(s) => {
                buf.stamp(&s.shape, s.cell, r.x, r.y);
            },
            Drawing::Shape128(s) => {
                buf.stamp(&s.shape, s.cell, r.x, r.y);
            },
            _ => {},
        }
        assert(buf.cells@ =~= paint_own(e.drawing, r, start, w));
        let ghost own = buf.cells@;
        let n = e.children.len();
        let mut k: usize = 0;
        while k < n
            invariant
                self.wf(),
                i < self.entities@.len(),
                e == self.entities@[i as int],
                self.entity_wf(i as int),
                n == e.children@.len(),
                k <= n,
                buf.wf(),
                buf.width as int == w,
                buf.height == old(buf).height,
                r == place_spec(e.layout, parent),
                buf.cells@ == paint_children(self.entities@, i as int, k as int, r, own, w),
            decreases n - k,
        {
            let c = e.children[k].index;
            self.draw_node(c, r, buf);
            k = k + 1;
        }
    }

    /// Draws every root, in the order they were mounted, on a surface of the given
    /// extent that starts blank: each entity draws itself and then its children in
    /// the order they were mounted, so later drawings win where they overlap.
    pub fn draw(&self, surface: Size2D) -> (buf: CellBuffer)
        requires
            self.wf(),
            surface.x * surface.y <= usize::MAX,
        ensures
            buf.wf(),
            buf.width == surface.x,
            buf.height == surface.y,
            buf.cells@ == frame_of(self.entities@, self.roots@, surface),
    {
        let mut buf = CellBuffer::new(surface.x, surface.y, Cell::blank());
        let ghost blank = buf.cells@;
        assert(blank =~= Seq::new((surface.x * surface.y) as nat, |j: int| Cell::blank_spec()));
        let mut k: usize = 0;
        while k < self.roots.len()
            invariant
                self.wf(),
                k <= self.roots@.len(),
                buf.wf(),
                buf.width == surface.x,
                buf.height == surface.y,
                buf.cells@ == paint_roots(self.entities@, self.roots@, k as int, surface, blank),
            decreases self.roots@.len() - k,
        {
            let root = self.roots[k].index;
            self.draw_node(root, Rect { x: 0, y: 0, width: surface.x, height: surface.y }, &mut buf);
            k = k + 1;
        }
        buf
    }

    /// Removes the entity `r` names together with every entity below it: each of them
    /// gets a new generation, so that every reference made to it before is stale,
    /// and `r` leaves the list of children of its parent, or the list of roots.
    pub fn remove(&mut self, r: EntityRef) -> (res: Result<(), ArenaError>)
        requires
            old(self).wf(),
        ensures
            final(self).wf(),
            !old(self).valid(r) ==> res == Err::<(), ArenaError>(ArenaError::StaleReference)
                && *final(self) == *old(self),
            old(self).valid(r) ==> {
                let bumped = bump_subtree(old(self).entities@, r.index as int);
                &&& res is Ok
                &&& forall|q: EntityRef| #[trigger] old(self).valid(q) && q.generation < u64::MAX
                    && (q.index == r.index || below(old(self).entities@, q.index as int, r.index as int))
                    ==> !final(self).valid(q)
                &&& forall|q: EntityRef| #[trigger] old(self).valid(q)
                    && !(q.index == r.index || below(old(self).entities@, q.index as int, r.index as int))
                    ==> final(self).valid(q)
                &&& final(self).entities@.len() == old(self).entities@.len()
                &&& forall|j: int| 0 <= j < old(self).entities@.len()
                    && !(old(self).ent(r).parent == Some(j as usize))
                    ==> #[trigger] final(self).entities@[j] == bumped[j]
                &&& match old(self).ent(r).parent {
                    Some(p) => {
                        &&& final(self).roots@ == old(self).roots@
                        &&& final(self).entities@[p as int].children@
                            == without(old(self).entities@[p as int].children@, r.index)
                        &&& final(self).entities@[p as int]
                            == (Entity { children: final(self).entities@[p as int].children, ..bumped[p as int] })
                    },
                    None => final(self).roots@ == without(old(self).roots@, r.index),
                }
            },
    {
        if !self.is_valid(r) {
            return Err(ArenaError::StaleReference);
        }
        let ghost pre = *self;
        let i = r.index;
        assert(self.entity_wf(i as int));
        let n = self.entities.len();
        let mut marks: Vec<bool> = Vec::with_capacity(n);
        let mut j: usize = 0;
        while j < n
            invariant
                *self == pre,
                n == self.entities@.len(),
                j <= n,
                marks@.len() == j,
                forall|m: int| 0 <= m < j ==> #[trigger] marks@[m] == (m == i || below(pre.entities@, m, i as int)),
            decreases n - j,
        {
            let under = match self.entities[j].parent {
                Some(p) => p < j && (p == i || marks[p]),
                None => false,
            };
            marks.push(j == i || under);
            j = j + 1;
        }
        let ghost bumped = bump_subtree(pre.entities@, i as int);
        let mut j: usize = 0;
        while j < n
            invariant
                n == pre.entities@.len(),
                n == self.entities@.len(),
                self.roots@ == pre.roots@,
                j <= n,
                marks@.len() == n,
                bumped == bump_subtree(pre.entities@, i as int),
                forall|m: int| 0 <= m < n ==> #[trigger] marks@[m] == (m == i || below(pre.entities@, m, i as int)),
                forall|m: int| 0 <= m < j ==> #[trigger] self.entities@[m] == bumped[m],
                forall|m: int| j <= m < n ==> #[trigger] self.entities@[m] == pre.entities@[m],
            decreases n - j,
        {
            if marks[j] {
                let g = self.entities[j].generation;
                self.entities[j].generation = g.saturating_add(1);
            }
            j = j + 1;
        }
        assert(self.entities@ =~= bumped);
        proof {
            assert forall|m: int| 0 <= m < self.entities@.len() implies #[trigger] self.entity_wf(m) by {
                assert(pre.entity_wf(m));
                let e = self.entities@[m];
                assert forall|k: int| 0 <= k < e.children@.len() implies {
                    let c = #[trigger] e.children@[k];
                    m < c.index < self.entities@.len() && self.entities@[c.index as int].parent == Some(m as usize)
                } by {
                    assert(e.children@[k] == pre.entities@[m].children@[k]);
                }
                assert forall|a: int, b: int| 0 <= a < b < e.names@.len() implies
                    #[trigger] e.names@[a].0 != #[trigger] e.names@[b].0 by {
                    assert(e.names@ == pre.entities@[m].names@);
                }
            }
        }
        let ghost mid = *self;
        match self.entities[i].parent {
            Some(p) => {
                assert(self.entity_wf(p as int));
                let found = find_index(&self.entities[p].children, i);
                if let Some(k) = found {
                    self.entities[p].children.remove(k);
                }
                proof {
                    assert forall|m: int| 0 <= m < self.entities@.len() implies #[trigger] self.entity_wf(m) by {
                        assert(mid.entity_wf(m));
                        if m == p {
                            let e0 = mid.entities@[m];
                            let e = self.entities@[m];
                            assert forall|k2: int| 0 <= k2 < e.children@.len() implies {
                                let c = #[trigger] e.children@[k2];
                                m < c.index < self.entities@.len() && self.entities@[c.index as int].parent == Some(m as usize)
                            } by {
                                if let Some(k) = found {
                                    if k2 < k {
                                        assert(e.children@[k2] == e0.children@[k2]);
                                    } else {
                                        assert(e.children@[k2] == e0.children@[k2 + 1]);
                                    }
                                } else {
                                    assert(e.children@[k2] == e0.children@[k2]);
                                }
                            }
                        }
                    }
                    assert forall|k2: int| 0 <= k2 < self.roots@.len() implies {
                        let q = #[trigger] self.roots@[k2];
                        q.index < self.entities@.len() && self.entities@[q.index as int].parent is None
                    } by {
                        assert(mid.roots@[k2] == self.roots@[k2]);
                    }
                }
            },
            None => {
                let found = find_index(&self.roots, i);
                if let Some(k) = found {
                    self.roots.remove(k);
                }
                proof {
                    assert forall|m: int| 0 <= m < self.entities@.len() implies #[trigger] self.entity_wf(m) by {
                        assert(mid.entity_wf(m));
                    }
                    assert forall|k2: int| 0 <= k2 < self.roots@.len() implies {
                        let q = #[trigger] self.roots@[k2];
                        q.index < self.entities@.len() && self.entities@[q.index as int].parent is None
                    } by {
                        if let Some(k) = found {
                            if k2 < k {
                                assert(self.roots@[k2] == mid.roots@[k2]);
                            } else {
                                assert(self.roots@[k2] == mid.roots@[k2 + 1]);
                            }
                        } else {
                            assert(self.roots@[k2] == mid.roots@[k2]);
                        }
                    }
                }
            },
        }
        proof {
            assert forall|q: EntityRef| #[trigger] pre.valid(q) && q.generation < u64::MAX
                && (q.index == r.index || below(pre.entities@, q.index as int, r.index as int))
                implies !self.valid(q) by {
                if below(pre.entities@, q.index as int, r.index as int) {
                    lemma_below_is_later(pre.entities@, q.index as int, r.index as int);
                }
            }
        }
        Ok(())
    }

    /// The room the arena keeps for the entities a mount may create.
    pub open spec fn has_room(&self) -> bool {
        self.entities@.len() + MOUNT_ROOM < usize::MAX
    }

    /// Mounts a new root entity with the default layout and runs its mount hook.
    pub fn mount_root(&mut self, drawing: Drawing) -> (r: EntityRef)
        requires
            old(self).wf(),
            old(self).has_room(),
            drawing.wf(),
        ensures
            final(self).wf(),
            r.index == old(self).entities@.len(),
            final(self).valid(r),
            final(self).roots@ == old(self).roots@.push(r),
            final(self).ent(r).parent is None,
            final(self).entities@.len() > old(self).entities@.len(),
            forall|j: int| 0 <= j < old(self).entities@.len()
                ==> #[trigger] final(self).entities@[j] == old(self).entities@[j],
            forall|q: EntityRef| #[trigger] old(self).valid(q) ==> q != r,
            final(self).ent(r).names@.len() == 0,
            !(drawing is Tile) ==> final(self).entities@.len() == old(self).entities@.len() + 1,
            mounted(drawing, final(self).entities@, r.index as int),
    {
        let kind = HookKind::of(&drawing);
        let r = self.insert(None, drawing);
        self.run_hook(r, kind);
        r
    }

    /// Mounts a new entity as the last child of `parent` and runs its mount hook;
    /// fails when `parent` names no live entity.
    pub fn mount_child(&mut self, parent: EntityRef, drawing: Drawing) -> (res: Result<EntityRef, ArenaError>)
        requires
            old(self).wf(),
            old(self).has_room(),
            drawing.wf(),
        ensures
            final(self).wf(),
            !old(self).valid(parent) <==> res == Err::<EntityRef, ArenaError>(ArenaError::StaleReference),
            old(self).valid(parent) <==> res is Ok,
            !old(self).valid(parent) ==> *final(self) == *old(self),
            res matches Ok(r) ==> {
                &&& r.index == old(self).entities@.len()
                &&& final(self).valid(r)
                &&& final(self).ent(r).parent == Some(parent.index)
                &&& final(self).ent(parent).children@ == old(self).ent(parent).children@.push(r)
                &&& final(self).ent(parent).drawing == old(self).ent(parent).drawing
                &&& final(self).ent(parent).layout == old(self).ent(parent).layout
                &&& final(self).ent(parent).names@ == old(self).ent(parent).names@
                &&& final(self).ent(parent).generation == old(self).ent(parent).generation
                &&& final(self).ent(parent).parent == old(self).ent(parent).parent
                &&& !(drawing is Tile) ==> final(self).entities@.len() == old(self).entities@.len() + 1
                &&& final(self).roots@ == old(self).roots@
                &&& final(self).entities@.len() > old(self).entities@.len()
                &&& forall|q: EntityRef| #[trigger] old(self).valid(q) ==> q != r
                &&& final(self).ent(r).names@.len() == 0
                &&& forall|j: int| 0 <= j < old(self).entities@.len() && j != parent.index
                    ==> #[trigger] final(self).entities@[j] == old(self).entities@[j]
                &&& mounted(drawing, final(self).entities@, r.index as int)
            },
    {
        if !self.is_valid(parent) {
            return Err(ArenaError::StaleReference);
        }
        let kind = HookKind::of(&drawing);
        let r = self.insert(Some(parent), drawing);
        self.run_hook(r, kind);
        Ok(r)
    }

    fn run_hook(&mut self, r: EntityRef, kind: HookKind)
        requires
            old(self).wf(),
            old(self).valid(r),
            r.index + 1 == old(self).entities@.len(),
            old(self).entities@.len() + MOUNT_ROOM <= usize::MAX,
            old(self).ent(r).children@.len() == 0,
            old(self).ent(r).layout == default_layout(),
            kind == HookKind::of_spec(old(self).ent(r).drawing),
        ensures
            final(self).wf(),
            final(self).roots@ == old(self).roots@,
            final(self).entities@.len() >= old(self).entities@.len(),
            forall|j: int| 0 <= j < r.index
                ==> #[trigger] final(self).entities@[j] == old(self).entities@[j],
            final(self).ent(r).drawing == old(self).ent(r).drawing,
            final(self).ent(r).parent == old(self).ent(r).parent,
            final(self).ent(r).generation == old(self).ent(r).generation,
            final(self).ent(r).names@ == old(self).ent(r).names@,
            final(self).entities@.len() == old(self).entities@.len() || kind == HookKind::Tile,
            match kind {
                HookKind::Tile => tile_mounted(final(self).entities@, r.index as int),
                HookKind::Sized(size) => final(self).entities@ == relaid(old(self).entities@, r.index as int, sized_layout(size)),
                HookKind::Plain => *final(self) == *old(self),
            },
    {
        match kind {
            HookKind::Tile => Tile::on_mount(self, r),
            HookKind::Sized(size) => {
                let mut layout = LayoutNode::new();
                layout.set_size(UDim2::from_size2d(size));
                self.put_layout(r.index, layout);
            },
            HookKind::Plain => {},
        }
    }
}

/// Whether entity `t` is on the chain of parents above entity `j`.
pub open spec fn below(ents: Seq<Entity>, j: int, t: int) -> bool
    decreases j,
{
    if 0 <= j < ents.len() {
        match ents[j].parent {
            Some(p) => if 0 <= p < j { p == t || below(ents, p as int, t) } else { false },
            None => false,
        }
    } else {
        false
    }
}

/// The rectangle that entity `i`'s parent gives it: the parent's rectangle, or the
/// whole surface for a root.
pub open spec fn parent_rect(ents: Seq<Entity>, i: int, surface: Size2D) -> Rect {
    match ents[i].parent {
        Some(p) => if 0 <= p < i { rect_of(ents, p as int, surface) } else { surface_rect(surface) },
        None => surface_rect(surface),
    }
}

proof fn lemma_below_is_later(ents: Seq<Entity>, j: int, t: int)
    requires
        below(ents, j, t),
    ensures
        t < j,
    decreases j,
{
    let p = ents[j].parent->0 as int;
    if p != t {
        lemma_below_is_later(ents, p, t);
    }
}

proof fn lemma_relayout_outside(ents: Seq<Entity>, t: int, layout: LayoutNode, surface: Size2D, j: int)
    requires
        0 <= t < ents.len(),
        j != t,
        !below(ents, j, t),
    ensures
        rect_of(ents.update(t, Entity { layout, ..ents[t] }), j, surface) == rect_of(ents, j, surface),
    decreases j,
{
    let moved = ents.update(t, Entity { layout, ..ents[t] });
    if 0 <= j < ents.len() {
        if let Some(p) = ents[j].parent {
            if 0 <= p < j {
                lemma_relayout_outside(ents, t, layout, surface, p as int);
            }
        }
    }
}

/// The entities with entity `i` given `layout`.
pub open spec fn relaid(ents: Seq<Entity>, i: int, layout: LayoutNode) -> Seq<Entity> {
    ents.update(i, Entity { layout, ..ents[i] })
}

/// Giving entity `t` a new layout moves it to the placement of that layout in the
/// rectangle its parent gives it, and leaves the rectangle of every entity outside
/// its subtree where it was.
pub proof fn lemma_relayout_is_local(c: Canvas, t: EntityRef, layout: LayoutNode, surface: Size2D)
    requires
        c.wf(),
        c.valid(t),
    ensures
        rect_of(relaid(c.entities@, t.index as int, layout), t.index as int, surface)
            == place_spec(layout, parent_rect(c.entities@, t.index as int, surface)),
        forall|j: int| 0 <= j < c.entities@.len() && j != t.index && !below(c.entities@, j, t.index as int)
            ==> #[trigger] rect_of(relaid(c.entities@, t.index as int, layout), j, surface)
                == rect_of(c.entities@, j, surface),
{
    let ents = c.entities@;
    let i = t.index as int;
    if let Some(p) = ents[i].parent {
        if 0 <= p < i {
            if below(ents, p as int, i) {
                lemma_below_is_later(ents, p as int, i);
            }
            lemma_relayout_outside(ents, i, layout, surface, p as int);
        }
    }
    assert forall|j: int| 0 <= j < c.entities@.len() && j != t.index && !below(c.entities@, j, t.index as int)
        implies #[trigger] rect_of(relaid(c.entities@, t.index as int, layout), j, surface)
            == rect_of(c.entities@, j, surface) by {
        lemma_relayout_outside(ents, i, layout, surface, j);
    }
}

/// `g` plus one, held at the largest generation.
pub open spec fn next_generation(g: u64) -> u64 {
    if g == u64::MAX { g } else { (g + 1) as u64 }
}

/// The entities after entity `i` and every entity below it got a new generation.
pub open spec fn bump_subtree(ents: Seq<Entity>, i: int) -> Seq<Entity> {
    Seq::new(ents.len(), |j: int| if j == i || below(ents, j, i) {
        Entity { generation: next_generation(ents[j].generation), ..ents[j] }
    } else {
        ents[j]
    })
}

/// `refs` without its first entry for slot `index`, if it has one.
pub open spec fn without(refs: Seq<EntityRef>, index: usize) -> Seq<EntityRef> {
    if exists|k: int| 0 <= k < refs.len() && refs[k].index == index {
        refs.remove(choose|k: int| 0 <= k < refs.len() && refs[k].index == index
            && forall|m: int| 0 <= m < k ==> refs[m].index != index)
    } else {
        refs
    }
}

/// The position of the first entry of `refs` for slot `index`.
fn find_index(refs: &Vec<EntityRef>, index: usize) -> (res: Option<usize>)
    ensures
        res matches Some(k) ==> k < refs@.len() && refs@[k as int].index == index
            && forall|m: int| 0 <= m < k ==> #[trigger] refs@[m].index != index,
        res is None ==> forall|m: int| 0 <= m < refs@.len() ==> #[trigger] refs@[m].index != index,
{
    let mut k: usize = 0;
    while k < refs.len()
        invariant
            k <= refs@.len(),
            forall|m: int| 0 <= m < k ==> #[trigger] refs@[m].index != index,
        decreases refs@.len() - k,
    {
        if refs[k].index == index {
            return Some(k);
        }
        k = k + 1;
    }
    None
}

/// The references an entity has published, by name.
pub open spec fn names_of(e: Entity) -> Map<u32, EntityRef> {
    Map::new(
        |n: u32| exists|k: int| 0 <= k < e.names@.len() && e.names@[k].0 == n,
        |n: u32| e.names@[choose|k: int| 0 <= k < e.names@.len() && e.names@[k].0 == n].1,
    )
}

proof fn lemma_names_unique(e: Entity)
    requires
        forall|a: int, b: int| 0 <= a < b < e.names@.len() ==> #[trigger] e.names@[a].0 != #[trigger] e.names@[b].0,
    ensures
        forall|k: int| 0 <= k < e.names@.len() ==> {
            &&& #[trigger] names_of(e).contains_key(e.names@[k].0)
            &&& names_of(e)[e.names@[k].0] == e.names@[k].1
        },
{
    assert forall|k: int| 0 <= k < e.names@.len() implies {
        &&& #[trigger] names_of(e).contains_key(e.names@[k].0)
        &&& names_of(e)[e.names@[k].0] == e.names@[k].1
    } by {
        let n = e.names@[k].0;
        assert(names_of(e).contains_key(n));
        let j = choose|j: int| 0 <= j < e.names@.len() && e.names@[j].0 == n;
        if j < k {
            assert(e.names@[j].0 != e.names@[k].0);
        } else if k < j {
            assert(e.names@[k].0 != e.names@[j].0);
        }
    }
}

/// The most entities one mount creates.
pub const MOUNT_ROOM: usize = 8;

/// Which mount hook a drawing has.
#[derive(Clone, Copy, Debug, PartialEq, Eq, Structural)]
pub enum HookKind {
    /// No hook.
    Plain,
    /// Sizes the node to its shape's extent.
    Sized(Size2D),
    /// Lays a tile out and mounts its parts.
    Tile,
}

impl HookKind {
    pub open spec fn of_spec(d: Drawing) -> HookKind {
        match d {
            Drawing::Tile(_) => HookKind::Tile,
            Drawing::Shape(s) => HookKind::Sized(s.shape.size),
            Drawing::Shape128(s) => HookKind::Sized(s.shape.size),
            Drawing::Group => HookKind::Plain,
        }
    }

    pub fn of(d: &Drawing) -> (k: HookKind)
        ensures
            k == HookKind::of_spec(*d),
    {
        match d {
            Drawing::Tile(_) => HookKind::Tile,
            Drawing::Shape(s) => HookKind::Sized(s.shape.size),
            Drawing::Shape128(s) => HookKind::Sized(s.shape.size),
            Drawing::Group => HookKind::Plain,
        }
    }
}

/// Entity `i` holds `drawing`, and its mount hook has run.
pub open spec fn mounted(drawing: Drawing, ents: Seq<Entity>, i: int) -> bool {
    &&& ents[i].drawing == drawing
    &&& match drawing {
        Drawing::Tile(_) => tile_mounted(ents, i),
        Drawing::Shape(s) => ents[i].children@.len() == 0 && ents[i].layout == sized_layout(s.shape.size),
        Drawing::Shape128(s) => ents[i].children@.len() == 0 && ents[i].layout == sized_layout(s.shape.size),
        Drawing::Group => ents[i].children@.len() == 0 && ents[i].layout == default_layout(),
    }
}

} // verus!
