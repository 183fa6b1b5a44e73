//! The top-level owner: a canvas with its game root, the surface extent, and the
//! decision of what each input event does.

use vstd::prelude::*;
use crate::canvas::{
    below, frame_of, lemma_relayout_is_local, names_of, parent_rect, rect_of, relaid, ArenaError, Canvas, Drawing,
    EntityRef, Shape,
};
use crate::geometry::{Size2D, UDim, UDim2};
use crate::layout::{place_spec, LayoutNode};
use crate::shape::{CellBuffer, Stencil};

verus! {

/// The name under which the game root publishes its cursor.
pub const CURSOR: u32 = 0;

/// A key of the keyboard, as far as the engine tells keys apart.
#[derive(Clone, Copy, Debug, PartialEq, Eq, Structural)]
pub enum KeyCode {
    Esc,
    Char(char),
    Other,
}

/// An input event from the host.
#[derive(Clone, Copy, Debug, PartialEq, Eq, Structural)]
pub enum InputEvent {
    /// The surface took a new extent: columns, rows.
    Resize(u16, u16),
    Key(KeyCode),
    /// The pointer moved to a column and row.
    PointerMove(u16, u16),
    /// Any other pointer event.
    PointerOther,
}

/// What the host does after an event.
#[derive(Clone, Copy, Debug, PartialEq, Eq, Structural)]
pub enum Action {
    /// Nothing changed: wait for the next event.
    Wait,
    /// Produce and show a new frame.
    Render,
    /// Restore the terminal and stop.
    Exit,
}

/// The canvas, its game root, and the extent of the surface it is drawn on.
pub struct World {
    pub canvas: Canvas,
    pub root: EntityRef,
    pub surface: Size2D,
}

/// `v` held to the cells of an axis `extent` long (to zero on an empty axis).
pub open spec fn clamp_to(v: int, extent: int) -> int {
    if extent == 0 { 0 } else if v >= extent { extent - 1 } else { v }
}

/// The cursor's position for a pointer at (`col`, `row`) on `surface`.
pub open spec fn pointer_position(col: int, row: int, surface: Size2D) -> UDim2 {
    UDim2 {
        x: UDim { scale: 0, offset: clamp_to(col, surface.x as int) as i32 },
        y: UDim { scale: 0, offset: clamp_to(row, surface.y as int) as i32 },
    }
}

/// The cursor's layout once the pointer is at (`col`, `row`).
pub open spec fn pointer_layout(w: World, col: u16, row: u16) -> LayoutNode {
    let c = names_of(w.canvas.ent(w.root))[CURSOR];
    LayoutNode { position: pointer_position(col as int, row as int, w.surface), ..w.canvas.ent(c).layout }
}

/// After a pointer move, the next frame places the published cursor by its new
/// layout in the rectangle its parent gives it, and every entity outside the
/// cursor's subtree keeps the rectangle it had.
pub proof fn lemma_pointer_move_is_local(w: World, col: u16, row: u16, surface: Size2D)
    requires
        w.wf(),
        names_of(w.canvas.ent(w.root)).contains_key(CURSOR),
        w.canvas.valid(names_of(w.canvas.ent(w.root))[CURSOR]),
    ensures
        ({
            let c = names_of(w.canvas.ent(w.root))[CURSOR];
            let moved = relaid(w.canvas.entities@, c.index as int, pointer_layout(w, col, row));
            &&& rect_of(moved, c.index as int, surface)
                == place_spec(pointer_layout(w, col, row), parent_rect(w.canvas.entities@, c.index as int, surface))
            &&& forall|j: int| 0 <= j < w.canvas.entities@.len() && j != c.index
                && !below(w.canvas.entities@, j, c.index as int)
                ==> #[trigger] rect_of(moved, j, surface) == rect_of(w.canvas.entities@, j, surface)
        }),
{
    let c = names_of(w.canvas.ent(w.root))[CURSOR];
    lemma_relayout_is_local(w.canvas, c, pointer_layout(w, col, row), surface);
}

impl World {
    pub open spec fn wf(&self) -> bool {
        self.canvas.wf() && self.canvas.valid(self.root)
    }

    /// A world with an empty game root that fills a surface of the given extent.
    pub fn new(surface: Size2D) -> (w: World)
        ensures
            w.wf(),
            w.surface == surface,
            w.canvas.roots@ == seq![w.root],
            w.canvas.entities@.len() == 1,
            w.canvas.ent(w.root).drawing is Group,
            w.canvas.ent(w.root).children@.len() == 0,
            names_of(w.canvas.ent(w.root)) == Map::<u32, EntityRef>::empty(),
    {
        let mut canvas = Canvas::new();
        let root = canvas.mount_root(Drawing::Group);
        let w = World { canvas, root, surface };
        assert(names_of(w.canvas.ent(w.root)) =~= Map::<u32, EntityRef>::empty());
        w
    }

    /// Mounts `cursor` as the last child of the game root and publishes it there
    /// under `CURSOR`.
    pub fn add_cursor(&mut self, cursor: Shape) -> (r: EntityRef)
        requires
            old(self).wf(),
            old(self).canvas.has_room(),
            cursor.shape.wf(),
        ensures
            final(self).wf(),
            final(self).root == old(self).root,
            final(self).surface == old(self).surface,
            final(self).canvas.valid(r),
            r.index == old(self).canvas.entities@.len(),
            final(self).canvas.ent(final(self).root).children@
                == old(self).canvas.ent(old(self).root).children@.push(r),
            names_of(final(self).canvas.ent(final(self).root)).contains_key(CURSOR),
            names_of(final(self).canvas.ent(final(self).root))[CURSOR] == r,
    {
        let r = match self.canvas.mount_child(self.root, Drawing::Shape(cursor)) {
            Ok(r) => r,
            Err(_) => {
                assert(false);
                return self.root;
            },
        };
        let _ = self.canvas.publish_ref(self.root, CURSOR, r);
        r
    }

    /// The cursor the game root publishes, if there is one.
    pub fn cursor(&self) -> (res: Result<EntityRef, ArenaError>)
        requires
            self.wf(),
        ensures
            !names_of(self.canvas.ent(self.root)).contains_key(CURSOR)
                ==> res == Err::<EntityRef, ArenaError>(ArenaError::NotFound),
            names_of(self.canvas.ent(self.root)).contains_key(CURSOR)
                && self.canvas.valid(names_of(self.canvas.ent(self.root))[CURSOR])
                ==> res == Ok::<EntityRef, ArenaError>(names_of(self.canvas.ent(self.root))[CURSOR]),
            names_of(self.canvas.ent(self.root)).contains_key(CURSOR)
                && !self.canvas.valid(names_of(self.canvas.ent(self.root))[CURSOR])
                ==> res == Err::<EntityRef, ArenaError>(ArenaError::StaleReference),
    {
        self.canvas.lookup_ref(self.root, CURSOR)
    }

    /// Decides what an input event does: a resize takes the new extent and asks for
    /// a frame; escape asks to exit; a pointer move puts the cursor at the pointer's
    /// cell, held to the surface, and asks for a frame; anything else, and a pointer
    /// move while no cursor is published, changes nothing.
    pub fn handle_event(&mut self, ev: InputEvent) -> (a: Action)
        requires
            old(self).wf(),
        ensures
            final(self).wf(),
            final(self).root == old(self).root,
            final(self).canvas.roots@ == old(self).canvas.roots@,
            match ev {
                InputEvent::Resize(w, h) => a == Action::Render
                    && final(self).surface == (Size2D { x: w, y: h })
                    && final(self).canvas == old(self).canvas,
                InputEvent::Key(k) => a == (if k == KeyCode::Esc { Action::Exit } else { Action::Wait })
                    && *final(self) == *old(self),
                InputEvent::PointerMove(col, row) => {
                    let names = names_of(old(self).canvas.ent(old(self).root));
                    if names.contains_key(CURSOR) && old(self).canvas.valid(names[CURSOR]) {
                        let c = names[CURSOR];
                        &&& a == Action::Render
                        &&& final(self).surface == old(self).surface
                        &&& final(self).canvas.entities@
                            == relaid(old(self).canvas.entities@, c.index as int, pointer_layout(*old(self), col, row))
                    } else {
                        a == Action::Wait && *final(self) == *old(self)
                    }
                },
                InputEvent::PointerOther => a == Action::Wait && *final(self) == *old(self),
            },
    {
        match ev {
            InputEvent::Resize(w, h) => {
                self.surface = Size2D::new(w, h);
                Action::Render
            },
            InputEvent::Key(k) => {
                if k == KeyCode::Esc {
                    Action::Exit
                } else {
                    Action::Wait
                }
            },
            InputEvent::PointerMove(col, row) => {
                match self.cursor() {
                    Ok(c) => {
                        let x: u16 = if self.surface.x == 0 { 0 } else if col >= self.surface.x { self.surface.x - 1 } else { col };
                        let y: u16 = if self.surface.y == 0 { 0 } else if row >= self.surface.y { self.surface.y - 1 } else { row };
                        let _ = self.canvas.set_position(c, UDim2::from_size2d(Size2D::new(x, y)));
                        Action::Render
                    },
                    Err(_) => Action::Wait,
                }
            },
            InputEvent::PointerOther => Action::Wait,
        }
    }

    /// The frame for the current surface.
    pub fn frame(&self) -> (buf: CellBuffer)
        requires
            self.wf(),
            self.surface.x * self.surface.y <= usize::MAX,
        ensures
            buf.wf(),
            buf.width == self.surface.x,
            buf.height == self.surface.y,
            buf.cells@ == frame_of(self.canvas.entities@, self.canvas.roots@, self.surface),
    {
        self.canvas.draw(self.surface)
    }
}

} // verus!
