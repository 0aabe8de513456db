//! The scene state: an owning map from identifier to shape, the single-slot
//! mutation cursor, and the viewport dimensions.
//!
//! The cursor is stored as an identifier, not as a live reference into the
//! map, and is resolved by a fresh lookup on every mutation call. Every
//! setter is a silent no-op when no cursor is set; the `applied` result
//! makes the no-op observable. There is no delete: a shape, once created,
//! stays in the store.

use crate::ident::ShapeId;
use crate::ident::id_value_of_words;
use crate::shapes::Fill;
use crate::shapes::Matrix;
use crate::shapes::Rect;
use crate::shapes::Shape;
use crate::shapes::ShapeView;
use crate::shapes::alpha_byte_of;
use crate::shapes::default_shape;
use std::collections::HashMap;
use vstd::prelude::*;

verus! {

broadcast use vstd::std_specs::hash::group_hash_axioms;

/// The mathematical value of a [`Shape`] store: identifiers mapped to shape
/// values.
pub open spec fn store_view(m: Map<u128, Shape>) -> Map<u128, ShapeView> {
    m.map_values(|s: Shape| s@)
}

/// Inserting into a store and taking its value commute.
pub broadcast proof fn lemma_store_view_insert(m: Map<u128, Shape>, k: u128, v: Shape)
    ensures
        #[trigger] store_view(m.insert(k, v)) == store_view(m).insert(k, v@),
{
    assert(store_view(m.insert(k, v)) =~= store_view(m).insert(k, v@));
}

/// Overwriting the entry at `id` right after a creating lookup of `id`
/// gives the same store as overwriting it directly.
pub broadcast proof fn lemma_created_insert(m: Map<u128, ShapeView>, id: u128, v: ShapeView)
    ensures
        #[trigger] created(m, id).insert(id, v) == m.insert(id, v),
{
    assert(created(m, id).insert(id, v) =~= m.insert(id, v));
}

/// The store after a creating lookup of `id`: unchanged when the identifier
/// is already present, extended with a default shape when it is not.
pub open spec fn created(shapes: Map<u128, ShapeView>, id: u128) -> Map<u128, ShapeView> {
    if shapes.contains_key(id) {
        shapes
    } else {
        shapes.insert(id, default_shape(id))
    }
}

/// The store after overwriting the bounding rectangle of the shape at `id`
/// (creating it first when absent).
pub open spec fn with_selrect(shapes: Map<u128, ShapeView>, id: u128, selrect: Rect) -> Map<
    u128,
    ShapeView,
> {
    let m = created(shapes, id);
    m.insert(id, (ShapeView { selrect, ..m[id] }))
}

/// The store after overwriting the rotation of the shape at `id`.
pub open spec fn with_rotation(shapes: Map<u128, ShapeView>, id: u128, rotation: u32) -> Map<
    u128,
    ShapeView,
> {
    let m = created(shapes, id);
    m.insert(id, (ShapeView { rotation, ..m[id] }))
}

/// The store after overwriting the transform matrix of the shape at `id`.
pub open spec fn with_transform(shapes: Map<u128, ShapeView>, id: u128, transform: Matrix) -> Map<
    u128,
    ShapeView,
> {
    let m = created(shapes, id);
    m.insert(id, (ShapeView { transform, ..m[id] }))
}

/// The store after appending `child` to the child list of the shape at `id`.
pub open spec fn with_child(shapes: Map<u128, ShapeView>, id: u128, child: u128) -> Map<
    u128,
    ShapeView,
> {
    let m = created(shapes, id);
    m.insert(id, (ShapeView { children: m[id].children.push(child), ..m[id] }))
}

/// The store after emptying the child list of the shape at `id`.
pub open spec fn with_no_children(shapes: Map<u128, ShapeView>, id: u128) -> Map<u128, ShapeView> {
    let m = created(shapes, id);
    m.insert(id, (ShapeView { children: Seq::empty(), ..m[id] }))
}

/// The store after appending `fill` to the paint list of the shape at `id`.
pub open spec fn with_fill(shapes: Map<u128, ShapeView>, id: u128, fill: Fill) -> Map<
    u128,
    ShapeView,
> {
    let m = created(shapes, id);
    m.insert(id, (ShapeView { fills: m[id].fills.push(fill), ..m[id] }))
}

/// The store after emptying the paint list of the shape at `id`.
pub open spec fn with_no_fills(shapes: Map<u128, ShapeView>, id: u128) -> Map<u128, ShapeView> {
    let m = created(shapes, id);
    m.insert(id, (ShapeView { fills: Seq::empty(), ..m[id] }))
}

/// A creating lookup is idempotent: looking the same identifier up twice
/// leaves exactly the store that one lookup leaves, so both calls address
/// one logical shape and mutations through either are seen through the
/// other.
pub proof fn lemma_created_idempotent(shapes: Map<u128, ShapeView>, id: u128)
    ensures
        created(created(shapes, id), id) == created(shapes, id),
{
}

/// The mathematical value of the scene [`State`].
pub struct StateView {
    pub shapes: Map<u128, ShapeView>,
    pub current: Option<u128>,
    pub width: i32,
    pub height: i32,
}

/// The scene state: the shape store, the mutation cursor and the viewport
/// dimensions. The host owns exactly one value of this type and issues
/// every call against it.
pub struct State {
    pub shapes: HashMap<u128, Shape>,
    pub current_id: Option<ShapeId>,
    pub width: i32,
    pub height: i32,
}

impl View for State {
    type V = StateView;

    open spec fn view(&self) -> StateView {
        StateView {
            shapes: store_view(self.shapes@),
            current: match self.current_id {
                Some(id) => Some(id.value),
                None => None,
            },
            width: self.width,
            height: self.height,
        }
    }
}

impl State {
    /// Allocates the scene state for a viewport of the given pixel
    /// dimensions: an empty store and no cursor.
    pub fn init(width: i32, height: i32) -> (s: State)
        ensures
            s@.shapes == Map::<u128, ShapeView>::empty(),
            s@.current is None,
            s@.width == width,
            s@.height == height,
    {
        let s = State {
            shapes: HashMap::with_capacity(2048),
            current_id: None,
            width,
            height,
        };
        proof {
            assert(s@.shapes =~= Map::<u128, ShapeView>::empty());
        }
        s
    }

    /// Records new viewport dimensions. The shape store and the cursor are
    /// preserved; only the drawing surface of the host is rebuilt.
    pub fn resize_surface(&mut self, width: i32, height: i32)
        ensures
            final(self)@ == (StateView { width, height, ..old(self)@ }),
    {
        self.width = width;
        self.height = height;
    }

    /// Looks the identifier up, creating a default shape under it when it
    /// is absent, and returns a mutable reference to the entry. The cursor
    /// is not touched.
    pub fn get_or_create_shape(&mut self, id: ShapeId) -> (shape: &mut Shape)
        ensures
            (*shape)@ == created(old(self)@.shapes, id.value)[id.value],
            final(self)@ == (StateView {
                shapes: created(old(self)@.shapes, id.value).insert(id.value, (*final(shape))@),
                ..old(self)@
            }),
    {
        broadcast use lemma_store_view_insert, lemma_created_insert;

        let shape = self.shapes.entry(id.value).or_insert(Shape::new(id));
        shape
    }

    /// Reads the shape stored under the identifier, if any.
    pub fn get_shape(&self, id: ShapeId) -> (shape: Option<&Shape>)
        ensures
            match shape {
                Some(s) => self@.shapes.contains_key(id.value) && s@ == self@.shapes[id.value],
                None => !self@.shapes.contains_key(id.value),
            },
    {
        self.shapes.get(&id.value)
    }

    /// Sets the mutation cursor to the identifier packed from the four
    /// words, creating the shape when it is absent. The cursor persists
    /// until the next call of this function.
    pub fn use_shape(&mut self, a: u32, b: u32, c: u32, d: u32)
        ensures
            final(self)@ == (StateView {
                shapes: created(old(self)@.shapes, id_value_of_words(a, b, c, d)),
                current: Some(id_value_of_words(a, b, c, d)),
                ..old(self)@
            }),
    {
        let id = ShapeId::from_u32_quartet(a, b, c, d);
        self.current_id = Some(id);
        let _ = self.get_or_create_shape(id);
        proof {
            assert(self@.shapes =~= created(old(self)@.shapes, id.value));
        }
    }

    /// Overwrites the bounding rectangle of the cursor shape. With no
    /// cursor set this is a no-op; the result reports whether the write was
    /// applied.
    pub fn set_shape_selrect(&mut self, x1: u32, y1: u32, x2: u32, y2: u32) -> (applied: bool)
        ensures
            applied == (old(self)@.current is Some),
            old(self)@.current is None ==> final(self)@ == old(self)@,
            old(self)@.current matches Some(id) ==> final(self)@ == (StateView {
                shapes: with_selrect(old(self)@.shapes, id, (Rect { x1, y1, x2, y2 })),
                ..old(self)@
            }),
    {
        match self.current_id {
            None => false,
            Some(id) => {
                let shape = self.get_or_create_shape(id);
                shape.set_selrect(Rect { x1, y1, x2, y2 });
                true
            },
        }
    }

    /// Overwrites the rotation of the cursor shape; a no-op without a
    /// cursor.
    pub fn set_shape_rotation(&mut self, rotation: u32) -> (applied: bool)
        ensures
            applied == (old(self)@.current is Some),
            old(self)@.current is None ==> final(self)@ == old(self)@,
            old(self)@.current matches Some(id) ==> final(self)@ == (StateView {
                shapes: with_rotation(old(self)@.shapes, id, rotation),
                ..old(self)@
            }),
    {
        match self.current_id {
            None => false,
            Some(id) => {
                let shape = self.get_or_create_shape(id);
                shape.set_rotation(rotation);
                true
            },
        }
    }

    /// Overwrites the transform matrix of the cursor shape; a no-op
    /// without a cursor.
    pub fn set_shape_transform(&mut self, a: u32, b: u32, c: u32, d: u32, e: u32, f: u32) -> (applied:
        bool)
        ensures
            applied == (old(self)@.current is Some),
            old(self)@.current is None ==> final(self)@ == old(self)@,
            old(self)@.current matches Some(id) ==> final(self)@ == (StateView {
                shapes: with_transform(old(self)@.shapes, id, (Matrix { a, b, c, d, e, f })),
                ..old(self)@
            }),
    {
        match self.current_id {
            None => false,
            Some(id) => {
                let shape = self.get_or_create_shape(id);
                shape.set_transform(Matrix { a, b, c, d, e, f });
                true
            },
        }
    }

    /// Appends the identifier packed from the four words to the child list
    /// of the cursor shape: no de-duplication, no check that a shape exists
    /// under it. A no-op without a cursor.
    pub fn add_shape_child(&mut self, a: u32, b: u32, c: u32, d: u32) -> (applied: bool)
        ensures
            applied == (old(self)@.current is Some),
            old(self)@.current is None ==> final(self)@ == old(self)@,
            old(self)@.current matches Some(id) ==> final(self)@ == (StateView {
                shapes: with_child(old(self)@.shapes, id, id_value_of_words(a, b, c, d)),
                ..old(self)@
            }),
    {
        let child = ShapeId::from_u32_quartet(a, b, c, d);
        match self.current_id {
            None => false,
            Some(id) => {
                let shape = self.get_or_create_shape(id);
                shape.add_child(child);
                true
            },
        }
    }

    /// Empties the child list of the cursor shape; a no-op without a
    /// cursor.
    pub fn clear_shape_children(&mut self) -> (applied: bool)
        ensures
            applied == (old(self)@.current is Some),
            old(self)@.current is None ==> final(self)@ == old(self)@,
            old(self)@.current matches Some(id) ==> final(self)@ == (StateView {
                shapes: with_no_children(old(self)@.shapes, id),
                ..old(self)@
            }),
    {
        match self.current_id {
            None => false,
            Some(id) => {
                let shape = self.get_or_create_shape(id);
                shape.clear_children();
                true
            },
        }
    }

    /// Appends a solid fill to the paint list of the cursor shape. The
    /// alpha fraction arrives as the bit pattern of a single-precision
    /// value and is stored as the 8-bit channel `floor(255 * fraction)`.
    /// A no-op without a cursor.
    pub fn add_shape_solid_fill(&mut self, r: u8, g: u8, b: u8, alpha: u32) -> (applied: bool)
        ensures
            applied == (old(self)@.current is Some),
            old(self)@.current is None ==> final(self)@ == old(self)@,
            old(self)@.current matches Some(id) ==> final(self)@ == (StateView {
                shapes: with_fill(
                    old(self)@.shapes,
                    id,
                    (Fill::Solid { r, g, b, a: alpha_byte_of(alpha) }),
                ),
                ..old(self)@
            }),
    {
        match self.current_id {
            None => false,
            Some(id) => {
                let a = crate::shapes::alpha_byte(alpha);
                let shape = self.get_or_create_shape(id);
                shape.add_fill(Fill::Solid { r, g, b, a });
                true
            },
        }
    }

    /// Empties the paint list of the cursor shape; a no-op without a
    /// cursor.
    pub fn clear_shape_fills(&mut self) -> (applied: bool)
        ensures
            applied == (old(self)@.current is Some),
            old(self)@.current is None ==> final(self)@ == old(self)@,
            old(self)@.current matches Some(id) ==> final(self)@ == (StateView {
                shapes: with_no_fills(old(self)@.shapes, id),
                ..old(self)@
            }),
    {
        match self.current_id {
            None => false,
            Some(id) => {
                let shape = self.get_or_create_shape(id);
                shape.clear_fills();
                true
            },
        }
    }
}

} // verus!
