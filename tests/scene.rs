use cellscene::canvas::{ArenaError, Canvas, Drawing, EntityRef, Shape, Shape128};
use cellscene::deal::{random_tiles, roll_from_draw};
use cellscene::geometry::{resolve, Rect, Scale2D, Size2D, UDim2};
use cellscene::layout::LayoutNode;
use cellscene::shape::{BitShape, BitShape128, Cell, CellBuffer, Color, Stencil};
use cellscene::tile::{digit_shape, rarity_shape, tile_bitshape, Resource, Tile};
use cellscene::world::{Action, InputEvent, KeyCode, World, CURSOR};

fn rect(x: i32, y: i32, width: u16, height: u16) -> Rect {
    Rect { x, y, width, height }
}

fn hash_cell() -> Cell {
    Cell::new('#', Color::White)
}

#[test]
fn resolve_scales_rounds_and_offsets() {
    let u = UDim2::new(500, 3, 250, -2);
    assert_eq!(resolve(u, rect(100, 100, 10, 7)), (8, 0));
    let v = UDim2::new(1000, 0, 0, 4);
    assert_eq!(resolve(v, rect(0, 0, 33, 9)), (33, 4));
    let w = UDim2::new(333, 0, 500, 0);
    assert_eq!(resolve(w, rect(0, 0, 10, 3)), (3, 2));
    assert_eq!(resolve(w, rect(0, 0, 10, 3)), resolve(w, rect(0, 0, 10, 3)));
}

#[test]
fn center_puts_middle_on_parent_middle() {
    let mut node = LayoutNode::new();
    node.set_size(UDim2::from_size2d(Size2D::new(3, 2)));
    node.center();
    let r = node.place(rect(0, 0, 10, 5));
    assert_eq!(r, rect(3, 2, 3, 2));
    assert_eq!(r.x + 2, 5);
    let r2 = node.place(rect(7, -4, 21, 8));
    assert_eq!(r2.x + 2, 7 + 11);
    assert_eq!(r2.y + 1, -4 + 4);
}

#[test]
fn place_applies_anchor() {
    let mut node = LayoutNode::new();
    node.set_size(UDim2::from_size2d(Size2D::new(4, 2)));
    node.set_position(UDim2::new(1000, -1, 0, 3));
    node.set_anchor(Scale2D::new(1000, 0));
    assert_eq!(node.place(rect(2, 2, 20, 10)), rect(17, 5, 4, 2));
}

#[test]
fn bit_shape_stamp_into_empty_buffer() {
    let shape = BitShape::new(vec![0b101, 0b111], Size2D::new(3, 2));
    let mut buf = CellBuffer::new(3, 2, Cell::blank());
    buf.stamp(&shape, hash_cell(), 0, 0);
    assert_eq!(buf.get(0, 0), hash_cell());
    assert_eq!(buf.get(1, 0), Cell::blank());
    assert_eq!(buf.get(2, 0), hash_cell());
    assert_eq!(buf.get(0, 1), hash_cell());
    assert_eq!(buf.get(1, 1), hash_cell());
    assert_eq!(buf.get(2, 1), hash_cell());
}

#[test]
fn stamp_inside_writes_popcount_cells() {
    let shape = BitShape::new(vec![0b1100, 0b0110, 0b1011], Size2D::new(4, 3));
    let mut buf = CellBuffer::new(8, 6, Cell::blank());
    buf.stamp(&shape, hash_cell(), 2, 1);
    let written = buf.cells.iter().filter(|c| **c == hash_cell()).count();
    assert_eq!(written, 7);
    assert_eq!(buf.get(2, 1), hash_cell());
    assert_eq!(buf.get(4, 1), Cell::blank());
    assert_eq!(buf.get(5, 3), hash_cell());
}

#[test]
fn stamp_straddling_the_edge_clips() {
    let shape = BitShape::new(vec![0b111, 0b111, 0b111], Size2D::new(3, 3));
    let mut buf = CellBuffer::new(4, 4, Cell::blank());
    buf.stamp(&shape, hash_cell(), -1, 2);
    let written = buf.cells.iter().filter(|c| **c == hash_cell()).count();
    assert_eq!(written, 4);
    assert_eq!(buf.get(0, 2), hash_cell());
    assert_eq!(buf.get(1, 3), hash_cell());
    assert_eq!(buf.get(2, 2), Cell::blank());
    let mut far = CellBuffer::new(4, 4, Cell::blank());
    far.stamp(&shape, hash_cell(), 100, -100);
    assert!(far.cells.iter().all(|c| *c == Cell::blank()));
}

#[test]
fn stamp_last_write_wins() {
    let shape = BitShape::new(vec![0b11], Size2D::new(2, 1));
    let mut buf = CellBuffer::new(3, 1, Cell::blank());
    buf.stamp(&shape, hash_cell(), 0, 0);
    let other = Cell::new('x', Color::Red);
    buf.stamp(&shape, other, 1, 0);
    assert_eq!(buf.get(0, 0), hash_cell());
    assert_eq!(buf.get(1, 0), other);
    assert_eq!(buf.get(2, 0), other);
}

#[test]
fn packed_shape_reads_top_left_from_high_bit() {
    let seven = digit_shape(7);
    assert!(seven.filled(0, 0));
    assert!(seven.filled(4, 0));
    assert!(seven.filled(3, 1));
    assert!(!seven.filled(0, 1));
    assert!(seven.filled(0, 4));
    assert!(!seven.filled(4, 4));
    let packed = BitShape128::new(0b100_001, Size2D::new(3, 2));
    assert!(packed.filled(0, 0));
    assert!(!packed.filled(2, 0));
    assert!(packed.filled(2, 1));
}

#[test]
fn rarity_rows_and_tile_background() {
    let seven = rarity_shape(7);
    assert_eq!(seven.bits, 0b10101010101);
    assert_eq!(seven.size, Size2D::new(11, 1));
    let two = rarity_shape(2);
    assert_eq!(two.bits, 0b1);
    assert_eq!(two.size, Size2D::new(1, 1));
    let twelve = rarity_shape(12);
    assert_eq!(twelve.bits, 0b1);
    let zero = rarity_shape(0);
    assert_eq!(zero.bits, 0);
    assert_eq!(zero.size, Size2D::new(1, 1));
    let bkg = tile_bitshape();
    assert_eq!(bkg.rows.len(), 11);
    assert_eq!(bkg.rows[5], (1u128 << 25) - 1);
    assert_eq!(bkg.rows[0], ((1u128 << 15) - 1) << 5);
    assert_eq!(bkg.rows[10], ((1u128 << 15) - 1) << 5);
}

fn group_with_child(canvas: &mut Canvas) -> (EntityRef, EntityRef) {
    let root = canvas.mount_root(Drawing::Group);
    let shape = BitShape::new(vec![0b1111], Size2D::new(4, 1));
    let child = canvas.mount_child(root, Drawing::Shape(Shape::new(shape, hash_cell()))).unwrap();
    (root, child)
}

#[test]
fn centered_child_in_ten_by_five() {
    let mut canvas = Canvas::new();
    let (root, child) = group_with_child(&mut canvas);
    let mut layout = canvas.get_layout(child).unwrap();
    layout.set_size(UDim2::from_size2d(Size2D::new(4, 1)));
    canvas.set_layout(child, layout).unwrap();
    canvas.center(child).unwrap();
    let surface = Size2D::new(10, 5);
    assert_eq!(canvas.resolve_rect(root, surface), Ok(rect(0, 0, 10, 5)));
    assert_eq!(canvas.resolve_rect(child, surface), Ok(rect(3, 2, 4, 1)));
    let frame = canvas.draw(surface);
    for x in 0..10u16 {
        for y in 0..5u16 {
            let expected = if y == 2 && (3..7).contains(&x) { hash_cell() } else { Cell::blank() };
            assert_eq!(frame.get(x, y), expected);
        }
    }
}

#[test]
fn mount_child_registers_and_issues_fresh_refs() {
    let mut canvas = Canvas::new();
    let (root, child) = group_with_child(&mut canvas);
    assert_ne!(root, child);
    assert_eq!(canvas.entities[root.index].children, vec![child]);
    let second = canvas.mount_child(root, Drawing::Group).unwrap();
    assert_ne!(second, child);
    assert_ne!(second, root);
    assert_eq!(canvas.entities[root.index].children, vec![child, second]);
    assert_eq!(canvas.entities[second.index].parent, Some(root.index));
}

#[test]
fn named_ref_before_and_after_publishing() {
    let mut canvas = Canvas::new();
    let (root, child) = group_with_child(&mut canvas);
    assert_eq!(canvas.lookup_ref(root, CURSOR), Err(ArenaError::NotFound));
    canvas.publish_ref(root, CURSOR, child).unwrap();
    assert_eq!(canvas.lookup_ref(root, CURSOR), Ok(child));
    assert_eq!(canvas.lookup_ref(root, 9), Err(ArenaError::NotFound));
    canvas.publish_ref(root, CURSOR, root).unwrap();
    assert_eq!(canvas.lookup_ref(root, CURSOR), Ok(root));
}

#[test]
fn stale_and_mismatched_refs_fail() {
    let mut canvas = Canvas::new();
    let (root, child) = group_with_child(&mut canvas);
    let forged = EntityRef { index: child.index, generation: child.generation + 1 };
    let missing = EntityRef { index: 40, generation: 0 };
    assert_eq!(canvas.get_layout(forged), Err(ArenaError::StaleReference));
    assert_eq!(canvas.get_tile(missing), Err(ArenaError::StaleReference));
    assert_eq!(canvas.mount_child(missing, Drawing::Group).unwrap_err(), ArenaError::StaleReference);
    assert_eq!(canvas.set_position(forged, UDim2::zero()), Err(ArenaError::StaleReference));
    assert_eq!(canvas.center(missing), Err(ArenaError::StaleReference));
    assert_eq!(canvas.lookup_ref(missing, CURSOR), Err(ArenaError::StaleReference));
    assert_eq!(canvas.publish_ref(forged, CURSOR, root), Err(ArenaError::StaleReference));
    canvas.publish_ref(root, CURSOR, forged).unwrap();
    assert_eq!(canvas.lookup_ref(root, CURSOR), Err(ArenaError::StaleReference));
    assert_eq!(canvas.get_tile(root), Err(ArenaError::TypeMismatch));
    assert_eq!(canvas.get_shape128(child).unwrap_err(), ArenaError::TypeMismatch);
    assert_eq!(canvas.get_shape_cell(root), Err(ArenaError::TypeMismatch));
    assert_eq!(canvas.get_shape_cell(child), Ok(hash_cell()));
}

#[test]
fn tile_mount_builds_its_children() {
    let mut canvas = Canvas::new();
    let root = canvas.mount_root(Drawing::Group);
    let low = canvas.mount_child(root, Drawing::Tile(Tile::new(6, Resource::Ore))).unwrap();
    assert_eq!(canvas.get_tile(low), Ok(Tile::new(6, Resource::Ore)));
    let kids = canvas.entities[low.index].children.clone();
    assert_eq!(kids.len(), 3);
    let bkg = canvas.get_shape_cell(kids[0]).unwrap();
    assert_eq!(bkg, Cell { ch: '#', fg: Resource::Ore.get_color(), bg: Color::Reset });
    let dots = canvas.get_shape128(kids[1]).unwrap();
    assert_eq!(dots.shape.bits, 0b101010101);
    assert_eq!(dots.cell, Cell::new('O', Color::Blue));
    let digit = canvas.get_shape128(kids[2]).unwrap();
    assert_eq!(digit.shape.bits, digit_shape(6).bits);
    assert_eq!(digit.cell, Cell::new('@', Color::Red));
    let surface = Size2D::new(40, 20);
    assert_eq!(canvas.resolve_rect(low, surface), Ok(rect(0, 0, 25, 11)));
    assert_eq!(canvas.resolve_rect(kids[0], surface), Ok(rect(0, 0, 25, 11)));
    assert_eq!(canvas.resolve_rect(kids[1], surface), Ok(rect(8, 9, 9, 1)));
    assert_eq!(canvas.resolve_rect(kids[2], surface), Ok(rect(10, 3, 5, 5)));

    let high = canvas.mount_child(root, Drawing::Tile(Tile::new(11, Resource::Wool))).unwrap();
    let kids = canvas.entities[high.index].children.clone();
    assert_eq!(kids.len(), 4);
    assert_eq!(canvas.get_shape128(kids[2]).unwrap().shape.bits, digit_shape(1).bits);
    assert_eq!(canvas.get_shape128(kids[3]).unwrap().shape.bits, digit_shape(1).bits);
    assert_eq!(canvas.get_shape128(kids[2]).unwrap().cell, Cell::new('@', Color::White));
    assert_eq!(canvas.resolve_rect(kids[2], surface), Ok(rect(14, 3, 5, 5)));
    assert_eq!(canvas.resolve_rect(kids[3], surface), Ok(rect(7, 3, 5, 5)));
}

#[test]
fn tile_frame_has_digit_on_background() {
    let mut canvas = Canvas::new();
    canvas.mount_root(Drawing::Tile(Tile::new(8, Resource::Brick)));
    let frame = canvas.draw(Size2D::new(25, 11));
    assert_eq!(frame.get(5, 5), Cell { ch: '#', fg: Color::Red, bg: Color::Reset });
    assert_eq!(frame.get(0, 0), Cell::blank());
    assert_eq!(frame.get(11, 3), Cell::new('@', Color::Red));
    assert_eq!(frame.get(12, 9), Cell::new('O', Color::Blue));
}

fn world_with_cursor() -> (World, EntityRef, EntityRef) {
    let mut world = World::new(Size2D::new(30, 10));
    let root = world.root;
    let other = world.canvas.mount_child(root, Drawing::Shape128(Shape128::new(digit_shape(1), hash_cell()))).unwrap();
    let block = BitShape::new(vec![0b1], Size2D::new(1, 1));
    let cursor = world.add_cursor(Shape::new(block, Cell::new('+', Color::LightBlue)));
    let mut layout = world.canvas.get_layout(cursor).unwrap();
    layout.set_size(UDim2::from_size2d(Size2D::new(1, 1)));
    world.canvas.set_layout(cursor, layout).unwrap();
    (world, cursor, other)
}

#[test]
fn pointer_move_moves_only_the_cursor() {
    let (mut world, cursor, other) = world_with_cursor();
    assert_eq!(world.cursor(), Ok(cursor));
    let before_other = world.canvas.resolve_rect(other, world.surface).unwrap();
    let before_root = world.canvas.resolve_rect(world.root, world.surface).unwrap();
    assert_eq!(world.handle_event(InputEvent::PointerMove(12, 4)), Action::Render);
    assert_eq!(world.canvas.resolve_rect(cursor, world.surface), Ok(rect(12, 4, 1, 1)));
    assert_eq!(world.canvas.resolve_rect(other, world.surface), Ok(before_other));
    assert_eq!(world.canvas.resolve_rect(world.root, world.surface), Ok(before_root));
    let frame = world.frame();
    assert_eq!(frame.get(12, 4), Cell::new('+', Color::LightBlue));
}

#[test]
fn pointer_is_held_to_the_surface() {
    let (mut world, cursor, _) = world_with_cursor();
    assert_eq!(world.handle_event(InputEvent::PointerMove(200, 50)), Action::Render);
    assert_eq!(world.canvas.resolve_rect(cursor, world.surface), Ok(rect(29, 9, 1, 1)));
}

#[test]
fn other_events() {
    let (mut world, _, _) = world_with_cursor();
    assert_eq!(world.handle_event(InputEvent::Key(KeyCode::Esc)), Action::Exit);
    assert_eq!(world.handle_event(InputEvent::Key(KeyCode::Char('q'))), Action::Wait);
    assert_eq!(world.handle_event(InputEvent::PointerOther), Action::Wait);
    assert_eq!(world.handle_event(InputEvent::Resize(80, 24)), Action::Render);
    assert_eq!(world.surface, Size2D::new(80, 24));
    let mut bare = World::new(Size2D::new(5, 5));
    assert_eq!(bare.cursor(), Err(ArenaError::NotFound));
    assert_eq!(bare.handle_event(InputEvent::PointerMove(1, 1)), Action::Wait);
}

#[test]
fn rolls_skip_seven() {
    assert_eq!(roll_from_draw(2), 2);
    assert_eq!(roll_from_draw(6), 6);
    assert_eq!(roll_from_draw(7), 8);
    assert_eq!(roll_from_draw(11), 12);
}

#[test]
fn random_tiles_cover_the_rolls() {
    let tiles = random_tiles(300);
    assert_eq!(tiles.len(), 300);
    assert!(tiles.iter().all(|t| t.roll >= 2 && t.roll <= 12 && t.roll != 7));
    assert!(tiles.iter().any(|t| t.roll != 2));
    assert!(tiles.iter().any(|t| t.resource != Resource::Brick));
}

#[test]
fn remove_cascades_and_stales_refs() {
    let mut canvas = Canvas::new();
    let root = canvas.mount_root(Drawing::Group);
    let tile = canvas.mount_child(root, Drawing::Tile(Tile::new(5, Resource::Grain))).unwrap();
    let keep = canvas.mount_child(root, Drawing::Group).unwrap();
    let parts = canvas.entities[tile.index].children.clone();
    assert_eq!(canvas.remove(tile), Ok(()));
    assert_eq!(canvas.entities[root.index].children, vec![keep]);
    assert_eq!(canvas.get_tile(tile), Err(ArenaError::StaleReference));
    for part in parts {
        assert_eq!(canvas.get_layout(part), Err(ArenaError::StaleReference));
    }
    assert!(canvas.get_layout(keep).is_ok());
    assert_eq!(canvas.remove(tile), Err(ArenaError::StaleReference));
    assert_eq!(canvas.mount_child(tile, Drawing::Group).unwrap_err(), ArenaError::StaleReference);
    let frame = canvas.draw(Size2D::new(30, 12));
    assert!(frame.cells.iter().all(|c| *c == Cell::blank()));
}

#[test]
fn remove_root_and_published_ref() {
    let mut canvas = Canvas::new();
    let (root, child) = group_with_child(&mut canvas);
    let other = canvas.mount_root(Drawing::Group);
    canvas.publish_ref(other, CURSOR, child).unwrap();
    assert_eq!(canvas.lookup_ref(other, CURSOR), Ok(child));
    canvas.remove(root).unwrap();
    assert_eq!(canvas.roots, vec![other]);
    assert_eq!(canvas.lookup_ref(other, CURSOR), Err(ArenaError::StaleReference));
}

#[test]
fn shape_access_and_repaint() {
    let mut canvas = Canvas::new();
    let (root, child) = group_with_child(&mut canvas);
    assert_eq!(canvas.get_shape(child).unwrap().shape.rows, vec![0b1111]);
    assert_eq!(canvas.get_shape(root).unwrap_err(), ArenaError::TypeMismatch);
    let red = Cell::new('#', Color::Red);
    assert_eq!(canvas.set_shape_cell(child, red), Ok(()));
    assert_eq!(canvas.get_shape_cell(child), Ok(red));
    assert_eq!(canvas.set_shape_cell(root, red), Err(ArenaError::TypeMismatch));
    let frame = canvas.draw(Size2D::new(4, 1));
    assert_eq!(frame.get(3, 0), red);
}
