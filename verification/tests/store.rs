use render_wasm::ident::ShapeId;
use render_wasm::shapes::F32_ONE_BITS;
use render_wasm::shapes::Fill;
use render_wasm::shapes::Matrix;
use render_wasm::shapes::Rect;
use render_wasm::state::State;

#[test]
fn identifier_packing_word_order() {
    assert_eq!(ShapeId::from_u32_quartet(0, 0, 0, 7).value, 7);
    assert_eq!(ShapeId::from_u32_quartet(0, 0, 1, 0).value, 1u128 << 32);
    assert_eq!(ShapeId::from_u32_quartet(0, 1, 0, 0).value, 1u128 << 64);
    assert_eq!(ShapeId::from_u32_quartet(1, 0, 0, 0).value, 1u128 << 96);
    assert_eq!(
        ShapeId::from_u32_quartet(0xdead_beef, 1, 2, 3).value,
        (0xdead_beefu128 << 96) | (1u128 << 64) | (2u128 << 32) | 3
    );
}

#[test]
fn nil_identifier_is_all_zero() {
    assert_eq!(ShapeId::nil().value, 0);
    assert!(ShapeId::nil().is_nil());
    assert_eq!(ShapeId::from_u32_quartet(0, 0, 0, 0), ShapeId::nil());
    assert!(!ShapeId::from_u32_quartet(0, 0, 0, 1).is_nil());
}

#[test]
fn fresh_shape_has_default_attributes() {
    let mut state = State::init(1920, 1080);
    state.use_shape(1, 2, 3, 4);
    let id = ShapeId::from_u32_quartet(1, 2, 3, 4);
    let shape = state.get_shape(id).expect("created by use_shape");
    assert_eq!(shape.id, id);
    assert_eq!(shape.selrect, Rect { x1: 0, y1: 0, x2: 0, y2: 0 });
    assert_eq!(shape.rotation, 0);
    assert_eq!(
        shape.transform,
        Matrix { a: F32_ONE_BITS, b: 0, c: 0, d: F32_ONE_BITS, e: 0, f: 0 }
    );
    assert!(shape.children.is_empty());
    assert!(shape.fills.is_empty());
}

#[test]
fn get_or_create_is_idempotent() {
    let mut state = State::init(100, 100);
    let id = ShapeId::from_u32_quartet(9, 9, 9, 9);
    state.get_or_create_shape(id).set_rotation(0x42c80000);
    // The second lookup must address the same logical shape.
    let again = state.get_or_create_shape(id);
    assert_eq!(again.rotation, 0x42c80000);
    again.add_child(ShapeId::from_u32_quartet(0, 0, 0, 1));
    let read = state.get_shape(id).expect("still stored");
    assert_eq!(read.rotation, 0x42c80000);
    assert_eq!(read.children.len(), 1);
}

#[test]
fn repeated_use_keeps_accumulated_state() {
    let mut state = State::init(100, 100);
    state.use_shape(5, 0, 0, 0);
    assert!(state.add_shape_child(0, 0, 0, 1));
    // Addressing the same shape again must not reset it.
    state.use_shape(5, 0, 0, 0);
    assert!(state.add_shape_child(0, 0, 0, 2));
    let shape = state.get_shape(ShapeId::from_u32_quartet(5, 0, 0, 0)).unwrap();
    assert_eq!(
        shape.children,
        vec![
            ShapeId::from_u32_quartet(0, 0, 0, 1),
            ShapeId::from_u32_quartet(0, 0, 0, 2),
        ]
    );
}

#[test]
fn selrect_stored_exactly_in_field_order() {
    let mut state = State::init(100, 100);
    state.use_shape(1, 0, 0, 0);
    assert!(state.set_shape_selrect(
        1.0f32.to_bits(),
        2.0f32.to_bits(),
        3.0f32.to_bits(),
        4.0f32.to_bits()
    ));
    let shape = state.get_shape(ShapeId::from_u32_quartet(1, 0, 0, 0)).unwrap();
    assert_eq!(f32::from_bits(shape.selrect.x1), 1.0);
    assert_eq!(f32::from_bits(shape.selrect.y1), 2.0);
    assert_eq!(f32::from_bits(shape.selrect.x2), 3.0);
    assert_eq!(f32::from_bits(shape.selrect.y2), 4.0);
}

#[test]
fn inverted_selrect_is_not_reordered() {
    let mut state = State::init(100, 100);
    state.use_shape(1, 0, 0, 0);
    assert!(state.set_shape_selrect(
        9.0f32.to_bits(),
        8.0f32.to_bits(),
        (-1.0f32).to_bits(),
        (-2.0f32).to_bits()
    ));
    let shape = state.get_shape(ShapeId::from_u32_quartet(1, 0, 0, 0)).unwrap();
    assert_eq!(f32::from_bits(shape.selrect.x1), 9.0);
    assert_eq!(f32::from_bits(shape.selrect.y1), 8.0);
    assert_eq!(f32::from_bits(shape.selrect.x2), -1.0);
    assert_eq!(f32::from_bits(shape.selrect.y2), -2.0);
}

#[test]
fn transform_stored_exactly() {
    let mut state = State::init(100, 100);
    state.use_shape(1, 0, 0, 0);
    assert!(state.set_shape_transform(
        2.0f32.to_bits(),
        0.5f32.to_bits(),
        (-0.5f32).to_bits(),
        2.0f32.to_bits(),
        10.0f32.to_bits(),
        20.0f32.to_bits()
    ));
    let shape = state.get_shape(ShapeId::from_u32_quartet(1, 0, 0, 0)).unwrap();
    assert_eq!(f32::from_bits(shape.transform.a), 2.0);
    assert_eq!(f32::from_bits(shape.transform.b), 0.5);
    assert_eq!(f32::from_bits(shape.transform.c), -0.5);
    assert_eq!(f32::from_bits(shape.transform.d), 2.0);
    assert_eq!(f32::from_bits(shape.transform.e), 10.0);
    assert_eq!(f32::from_bits(shape.transform.f), 20.0);
}

#[test]
fn rotation_stored_exactly() {
    let mut state = State::init(100, 100);
    state.use_shape(1, 0, 0, 0);
    assert!(state.set_shape_rotation(45.0f32.to_bits()));
    let shape = state.get_shape(ShapeId::from_u32_quartet(1, 0, 0, 0)).unwrap();
    assert_eq!(f32::from_bits(shape.rotation), 45.0);
}

#[test]
fn solid_fill_alpha_floors_exactly() {
    let mut state = State::init(100, 100);
    state.use_shape(1, 0, 0, 0);
    assert!(state.add_shape_solid_fill(255, 0, 0, 1.0f32.to_bits()));
    assert!(state.add_shape_solid_fill(0, 0, 255, 0.5f32.to_bits()));
    assert!(state.add_shape_solid_fill(1, 2, 3, 0.999f32.to_bits()));
    assert!(state.add_shape_solid_fill(4, 5, 6, 0.0f32.to_bits()));
    let shape = state.get_shape(ShapeId::from_u32_quartet(1, 0, 0, 0)).unwrap();
    assert_eq!(
        shape.fills,
        vec![
            Fill::Solid { r: 255, g: 0, b: 0, a: 255 },
            Fill::Solid { r: 0, g: 0, b: 255, a: 127 },
            Fill::Solid { r: 1, g: 2, b: 3, a: 254 },
            Fill::Solid { r: 4, g: 5, b: 6, a: 0 },
        ]
    );
}

#[test]
fn clear_fills_starts_a_fresh_list() {
    let mut state = State::init(100, 100);
    state.use_shape(1, 0, 0, 0);
    assert!(state.add_shape_solid_fill(10, 20, 30, 1.0f32.to_bits()));
    assert!(state.add_shape_solid_fill(40, 50, 60, 1.0f32.to_bits()));
    assert!(state.clear_shape_fills());
    let id = ShapeId::from_u32_quartet(1, 0, 0, 0);
    assert!(state.get_shape(id).unwrap().fills.is_empty());
    assert!(state.add_shape_solid_fill(7, 8, 9, 1.0f32.to_bits()));
    assert_eq!(
        state.get_shape(id).unwrap().fills,
        vec![Fill::Solid { r: 7, g: 8, b: 9, a: 255 }]
    );
}

#[test]
fn children_append_in_call_order() {
    let mut state = State::init(100, 100);
    state.use_shape(1, 0, 0, 0);
    assert!(state.add_shape_child(0, 0, 0, 3));
    assert!(state.add_shape_child(0, 0, 0, 1));
    assert!(state.add_shape_child(0, 0, 0, 3));
    let id = ShapeId::from_u32_quartet(1, 0, 0, 0);
    // Insertion order preserved, duplicates kept: a list, not a set.
    assert_eq!(
        state.get_shape(id).unwrap().children,
        vec![
            ShapeId::from_u32_quartet(0, 0, 0, 3),
            ShapeId::from_u32_quartet(0, 0, 0, 1),
            ShapeId::from_u32_quartet(0, 0, 0, 3),
        ]
    );
    assert!(state.clear_shape_children());
    assert!(state.get_shape(id).unwrap().children.is_empty());
}

#[test]
fn setters_without_cursor_are_noops() {
    let mut state = State::init(100, 100);
    assert!(!state.set_shape_selrect(1, 2, 3, 4));
    assert!(!state.set_shape_rotation(5));
    assert!(!state.set_shape_transform(1, 2, 3, 4, 5, 6));
    assert!(!state.add_shape_child(0, 0, 0, 1));
    assert!(!state.clear_shape_children());
    assert!(!state.add_shape_solid_fill(1, 2, 3, 0));
    assert!(!state.clear_shape_fills());
    // Nothing was created by any of the dropped calls.
    assert!(state.get_shape(ShapeId::from_u32_quartet(0, 0, 0, 1)).is_none());
    assert!(state.get_shape(ShapeId::nil()).is_none());
}

#[test]
fn resize_preserves_store_and_cursor() {
    let mut state = State::init(640, 480);
    state.use_shape(1, 0, 0, 0);
    assert!(state.set_shape_rotation(7));
    state.resize_surface(1024, 768);
    assert_eq!(state.width, 1024);
    assert_eq!(state.height, 768);
    let id = ShapeId::from_u32_quartet(1, 0, 0, 0);
    assert_eq!(state.get_shape(id).unwrap().rotation, 7);
    // The cursor survives a resize: the next setter still applies.
    assert!(state.set_shape_rotation(9));
    assert_eq!(state.get_shape(id).unwrap().rotation, 9);
}
