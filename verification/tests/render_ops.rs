use render_wasm::ident::ShapeId;
use render_wasm::render::CanvasOp;
use render_wasm::render::draw_all_shapes;
use render_wasm::render::render_shape_tree;
use render_wasm::shapes::F32_ONE_BITS;
use render_wasm::shapes::Fill;
use render_wasm::shapes::Matrix;
use render_wasm::shapes::Rect;
use render_wasm::state::State;

fn identity() -> Matrix {
    Matrix { a: F32_ONE_BITS, b: 0, c: 0, d: F32_ONE_BITS, e: 0, f: 0 }
}

fn zero_rect() -> Rect {
    Rect { x1: 0, y1: 0, x2: 0, y2: 0 }
}

#[test]
fn three_level_tree_renders_preorder() {
    let mut state = State::init(100, 100);
    // root (the scene-root sentinel) -> a -> b, each with one fill.
    state.use_shape(0, 0, 0, 0);
    assert!(state.add_shape_solid_fill(1, 0, 0, 1.0f32.to_bits()));
    assert!(state.add_shape_child(0, 0, 0, 10));
    state.use_shape(0, 0, 0, 10);
    assert!(state.add_shape_solid_fill(2, 0, 0, 1.0f32.to_bits()));
    assert!(state.add_shape_child(0, 0, 0, 20));
    state.use_shape(0, 0, 0, 20);
    assert!(state.add_shape_solid_fill(3, 0, 0, 1.0f32.to_bits()));

    let ops = render_shape_tree(&state, ShapeId::nil());
    assert_eq!(
        ops,
        vec![
            CanvasOp::Save,
            CanvasOp::Concat { matrix: identity() },
            CanvasOp::FillRect { rect: zero_rect(), fill: Fill::Solid { r: 1, g: 0, b: 0, a: 255 } },
            CanvasOp::Save,
            CanvasOp::Concat { matrix: identity() },
            CanvasOp::FillRect { rect: zero_rect(), fill: Fill::Solid { r: 2, g: 0, b: 0, a: 255 } },
            CanvasOp::Save,
            CanvasOp::Concat { matrix: identity() },
            CanvasOp::FillRect { rect: zero_rect(), fill: Fill::Solid { r: 3, g: 0, b: 0, a: 255 } },
            CanvasOp::Restore,
            CanvasOp::Restore,
            CanvasOp::Restore,
        ]
    );
}

#[test]
fn sibling_subtree_is_bracketed_by_save_restore() {
    let mut state = State::init(100, 100);
    state.use_shape(0, 0, 0, 0);
    assert!(state.add_shape_child(0, 0, 0, 1));
    assert!(state.add_shape_child(0, 0, 0, 2));
    state.use_shape(0, 0, 0, 1);
    assert!(state.set_shape_transform(
        2.0f32.to_bits(),
        0,
        0,
        2.0f32.to_bits(),
        0,
        0
    ));
    state.use_shape(0, 0, 0, 2);

    let first = Matrix {
        a: 2.0f32.to_bits(),
        b: 0,
        c: 0,
        d: 2.0f32.to_bits(),
        e: 0,
        f: 0,
    };
    let ops = render_shape_tree(&state, ShapeId::nil());
    // The first child's transform is saved and restored before the second
    // child begins: the second sibling inherits only the root's transform.
    assert_eq!(
        ops,
        vec![
            CanvasOp::Save,
            CanvasOp::Concat { matrix: identity() },
            CanvasOp::Save,
            CanvasOp::Concat { matrix: first },
            CanvasOp::Restore,
            CanvasOp::Save,
            CanvasOp::Concat { matrix: identity() },
            CanvasOp::Restore,
            CanvasOp::Restore,
        ]
    );
}

#[test]
fn missing_children_are_skipped() {
    let mut state = State::init(100, 100);
    state.use_shape(0, 0, 0, 0);
    assert!(state.add_shape_child(0, 0, 0, 99));
    assert!(state.add_shape_child(0, 0, 0, 1));
    state.use_shape(0, 0, 0, 1);

    let ops = render_shape_tree(&state, ShapeId::nil());
    // The dangling identifier contributes nothing; the stored child still
    // renders.
    assert_eq!(
        ops,
        vec![
            CanvasOp::Save,
            CanvasOp::Concat { matrix: identity() },
            CanvasOp::Save,
            CanvasOp::Concat { matrix: identity() },
            CanvasOp::Restore,
            CanvasOp::Restore,
        ]
    );
}

#[test]
fn rendering_an_absent_root_draws_nothing() {
    let state = State::init(100, 100);
    let ops = render_shape_tree(&state, ShapeId::nil());
    assert!(ops.is_empty());
}

#[test]
fn cyclic_child_reference_is_cut() {
    let mut state = State::init(100, 100);
    state.use_shape(0, 0, 0, 7);
    // The shape lists itself as a child; the walk visits it once.
    assert!(state.add_shape_child(0, 0, 0, 7));
    let ops = render_shape_tree(&state, ShapeId::from_u32_quartet(0, 0, 0, 7));
    assert_eq!(
        ops,
        vec![
            CanvasOp::Save,
            CanvasOp::Concat { matrix: identity() },
            CanvasOp::Restore,
        ]
    );
}

#[test]
fn rendering_starts_at_the_given_root() {
    let mut state = State::init(100, 100);
    state.use_shape(0, 0, 0, 1);
    assert!(state.add_shape_solid_fill(9, 9, 9, 1.0f32.to_bits()));
    // Rendering from the sentinel finds nothing; from the shape itself,
    // its block.
    assert!(render_shape_tree(&state, ShapeId::nil()).is_empty());
    let ops = render_shape_tree(&state, ShapeId::from_u32_quartet(0, 0, 0, 1));
    assert_eq!(ops.len(), 4);
    assert_eq!(ops[0], CanvasOp::Save);
    assert_eq!(
        ops[2],
        CanvasOp::FillRect { rect: zero_rect(), fill: Fill::Solid { r: 9, g: 9, b: 9, a: 255 } }
    );
    assert_eq!(ops[3], CanvasOp::Restore);
}

#[test]
fn frame_wraps_tree_between_view_setup_and_flush() {
    let mut state = State::init(100, 100);
    state.use_shape(0, 0, 0, 0);
    let zoom = 2.0f32.to_bits();
    let pan_x = 10.0f32.to_bits();
    let pan_y = (-5.0f32).to_bits();
    let ops = draw_all_shapes(&state, zoom, pan_x, pan_y);
    assert_eq!(
        ops,
        vec![
            CanvasOp::Clear,
            CanvasOp::ResetMatrix,
            CanvasOp::Scale { sx: zoom, sy: zoom },
            CanvasOp::Translate { dx: pan_x, dy: pan_y },
            CanvasOp::Save,
            CanvasOp::Concat { matrix: identity() },
            CanvasOp::Restore,
            CanvasOp::Flush,
        ]
    );
}

#[test]
fn frame_on_an_empty_store_only_sets_the_view() {
    let state = State::init(100, 100);
    let zoom = 1.0f32.to_bits();
    let ops = draw_all_shapes(&state, zoom, 0, 0);
    assert_eq!(
        ops,
        vec![
            CanvasOp::Clear,
            CanvasOp::ResetMatrix,
            CanvasOp::Scale { sx: zoom, sy: zoom },
            CanvasOp::Translate { dx: 0, dy: 0 },
            CanvasOp::Flush,
        ]
    );
}
